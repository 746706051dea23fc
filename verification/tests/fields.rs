use reyn_studio::cad_field_ready::{
    display_order, seal_result, CadFieldReadyIdentity, ResultFacts,
};
use reyn_studio::cad_postpro::{
    difference_places, glyph_cells, probe_steps, velocity_index, Cell, IsoScalar, ProbeQuantity,
    SectionAxis, GLYPH_STRIDE,
};
use serde_json::Value;

fn index(n: usize, i: usize, j: usize, k: usize) -> usize {
    i * n * n + j * n + k
}

#[test]
fn glyph_cells_skip_solids_and_decimate_by_two() {
    let n = 8;
    let cube = n * n * n;
    let mut fluid = vec![true; cube];
    for i in 0..4 {
        for j in 0..n {
            for k in 0..n {
                fluid[index(n, i, j, k)] = false;
            }
        }
    }
    let cells = glyph_cells(n, 3 * cube, &fluid);
    assert_eq!(cells.len(), 2 * 4 * 4);
    assert!(cells.len() <= (n / GLYPH_STRIDE).pow(3));
    assert!(cells.iter().all(|cell| cell.i >= 4));
    assert!(cells.iter().all(|cell| cell.i % 2 == 0 && cell.j % 2 == 0 && cell.k % 2 == 0));
    assert_eq!(cells[0], Cell { i: 4, j: 0, k: 0 });
    assert_eq!(cells[1], Cell { i: 4, j: 0, k: 2 });
    assert_eq!(cells[31], Cell { i: 6, j: 6, k: 6 });
}

#[test]
fn glyphs_need_a_whole_field() {
    let fluid = vec![true; 27];
    assert_eq!(glyph_cells(3, 81, &fluid).len(), 8);
    assert!(glyph_cells(3, 80, &fluid).is_empty());
    assert!(glyph_cells(3, 81, &fluid[..26]).is_empty());
    assert!(glyph_cells(1, 81, &fluid).is_empty());
    assert!(glyph_cells(0, 81, &fluid).is_empty());
}

#[test]
fn probe_steps_are_one_curve_and_skip_the_solid() {
    let n = 8;
    let cube = n * n * n;
    let mut solid = vec![false; cube];
    for j in 0..n {
        for k in 0..n {
            solid[index(n, 3, j, k)] = true;
        }
    }
    let steps = probe_steps(n, SectionAxis::X, 3 * cube, cube, &solid);
    let walked: Vec<usize> = steps.iter().map(|step| step.step).collect();
    assert_eq!(walked, vec![0, 1, 2, 4, 5, 6, 7]);
    assert!(steps.iter().all(|step| step.place == index(n, step.step, 4, 4)));
    assert_eq!(steps[3].cell, Cell { i: 4, j: 4, k: 4 });
    let across = probe_steps(n, SectionAxis::Y, 3 * cube, cube, &solid);
    assert_eq!(across.len(), 8);
    assert_eq!(across[2].cell, Cell { i: 4, j: 2, k: 4 });
    let along = probe_steps(n, SectionAxis::Z, 3 * cube, cube, &solid);
    assert_eq!(along[7].place, index(n, 4, 4, 7));
}

#[test]
fn probes_need_a_whole_field() {
    let solid = vec![false; 27];
    assert_eq!(probe_steps(3, SectionAxis::X, 81, 27, &solid).len(), 3);
    assert!(probe_steps(3, SectionAxis::X, 80, 27, &solid).is_empty());
    assert!(probe_steps(3, SectionAxis::X, 81, 26, &solid).is_empty());
    assert!(probe_steps(3, SectionAxis::X, 81, 27, &solid[..26]).is_empty());
    assert!(probe_steps(2, SectionAxis::X, 81, 27, &solid).is_empty());
}

#[test]
fn differences_are_held_at_the_faces() {
    let n = 4;
    let at = |c: usize, i: usize, j: usize, k: usize| ((c * n + i) * n + j) * n + k;
    let inner = Cell { i: 1, j: 2, k: 2 };
    assert_eq!(velocity_index(n, 2, inner), at(2, 1, 2, 2));
    assert_eq!(
        difference_places(n, 0, inner, SectionAxis::X),
        (at(0, 2, 2, 2), at(0, 0, 2, 2))
    );
    assert_eq!(
        difference_places(n, 1, inner, SectionAxis::Y),
        (at(1, 1, 3, 2), at(1, 1, 1, 2))
    );
    let corner = Cell { i: 0, j: 3, k: 3 };
    assert_eq!(
        difference_places(n, 2, corner, SectionAxis::X),
        (at(2, 1, 3, 3), at(2, 0, 3, 3))
    );
    assert_eq!(
        difference_places(n, 2, corner, SectionAxis::Z),
        (at(2, 0, 3, 3), at(2, 0, 3, 2))
    );
}

#[test]
fn labels_carry_their_units() {
    let iso: Vec<_> = IsoScalar::ALL.iter().map(|iso| (iso.label(), iso.units())).collect();
    assert_eq!(iso, vec![("Q", "1/s²"), ("|U|", "nondim")]);
    assert_eq!(IsoScalar::default(), IsoScalar::Q);
    assert_eq!(
        IsoScalar::Speed.source(),
        "recovered from model velocity · not a production iso"
    );
    let probes: Vec<_> =
        ProbeQuantity::ALL.iter().map(|probe| (probe.label(), probe.units())).collect();
    assert_eq!(probes, vec![("Cp", "1"), ("|U|", "nondim"), ("Q", "1/s²")]);
    assert_eq!(ProbeQuantity::default(), ProbeQuantity::PhysicalCp);
}

#[test]
fn display_order_runs_the_first_axis_fastest() {
    let n = 3;
    let field: Vec<u8> = (0..27).collect();
    let volume = display_order(n, &field);
    assert_eq!(volume.len(), 27);
    for i in 0..n {
        for j in 0..n {
            for k in 0..n {
                assert_eq!(volume[(k * n + j) * n + i], field[index(n, i, j, k)]);
            }
        }
    }
    assert_eq!(display_order(n, &volume), field);
    assert_eq!(&volume[..4], &[0, 9, 18, 3]);
    assert!(display_order(0, &field).is_empty());
    assert_eq!(display_order(1, &field), vec![0]);
}

#[test]
fn results_are_sealed_under_their_run() {
    let facts = ResultFacts {
        schema: "result/1".into(),
        field_schema: "field/1".into(),
        field_sha256: "ab".repeat(32),
        submitted_request_id: "req-ready".into(),
        method: "diffuse".into(),
        grid: 8,
        horizon: 4,
        solver_stride: 1,
        warmup_steps: 0,
        moment_origin_mode: "diffuse_surface_centroid".into(),
        coefficient_reference: "q_inf".into(),
        warnings: vec!["one".into(), "two".into()],
    };
    let identity = CadFieldReadyIdentity {
        run_id: "run-1".into(),
        case_revision_id: "case-rev-1".into(),
    };
    let sealed = seal_result(&facts, &identity);
    assert_eq!(sealed.len(), 15);
    assert_eq!(sealed["run_id"], Value::from("run-1"));
    assert_eq!(sealed["case_revision_id"], Value::from("case-rev-1"));
    assert_eq!(sealed["field_sha256"].as_str(), Some(facts.field_sha256.as_str()));
    assert_eq!(sealed["submitted_request_id"], Value::from("req-ready"));
    assert_eq!(sealed["grid"], Value::from(8u64));
    assert_eq!(sealed["horizon"], Value::from(4u64));
    assert_eq!(sealed["moment_reference"], sealed["moment_origin_mode"]);
    assert_eq!(
        sealed["warnings"],
        Value::Array(vec![Value::from("one"), Value::from("two")])
    );
}
