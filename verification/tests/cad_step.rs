use reyn_studio::cad_step::{
    check_shell_facets, check_step_text, list_shell_candidates, open_step_source, parse_step,
    parse_step_selecting, select_shells, translator_error, PositionClass, ShellFacets, StepImport,
    StepParseError, StepSource, Tessellation, TranslatorFault, MAX_SHELLS, MAX_STEP_BYTES,
    MAX_TRIANGLES,
};
use reyn_studio::step_units::{detect_length_unit, record_entity_id, record_entity_references};

type Import = StepImport<(), u8>;

fn message(error: StepParseError) -> String {
    match error {
        StepParseError::Message(message) => message,
        StepParseError::ChooseShell(_) => panic!("a message was expected"),
    }
}

/// The import of bytes that are refused before translation.
fn refused(bytes: &[u8]) -> String {
    let outcome: Result<Import, StepParseError> = match open_step_source(bytes) {
        Ok(_) => panic!("the source should be refused"),
        Err(error) => Err(error),
    };
    parse_step(outcome).unwrap_err()
}

#[test]
fn detects_supported_si_and_conversion_units() {
    assert_eq!(
        detect_length_unit(
            "#1=(LENGTH_UNIT() NAMED_UNIT(*) SI_UNIT(.MILLI.,.METRE.));\
             #2=(GEOMETRIC_REPRESENTATION_CONTEXT(3) GLOBAL_UNIT_ASSIGNED_CONTEXT((#1)));"
        )
        .unwrap(),
        Some("mm".into())
    );
    assert_eq!(
        detect_length_unit(
            "#1=(LENGTH_UNIT() NAMED_UNIT(*) SI_UNIT(.MILLI.,.METRE.));\
             #2=MEASURE_WITH_UNIT(LENGTH_MEASURE(25.4),#1);\
             #3=(LENGTH_UNIT() NAMED_UNIT(*) CONVERSION_BASED_UNIT('INCH',#2));\
             #4=(GEOMETRIC_REPRESENTATION_CONTEXT(3) GLOBAL_UNIT_ASSIGNED_CONTEXT((#3)));"
        )
        .unwrap(),
        Some("in".into())
    );
    assert_eq!(
        detect_length_unit(
            "#1=(LENGTH_UNIT() NAMED_UNIT(*) SI_UNIT(.MICRO.,.METRE.));\
             #2=(LENGTH_UNIT() NAMED_UNIT(*) SI_UNIT($,.METRE.));\
             #3=(GEOMETRIC_REPRESENTATION_CONTEXT(3) GLOBAL_UNIT_ASSIGNED_CONTEXT((#2)));"
        )
        .unwrap(),
        Some("m".into())
    );
    assert!(detect_length_unit(
        "#1=(LENGTH_UNIT() NAMED_UNIT(*) SI_UNIT(.MICRO.,.METRE.));\
         #2=(GEOMETRIC_REPRESENTATION_CONTEXT(3) GLOBAL_UNIT_ASSIGNED_CONTEXT((#1)));"
    )
    .unwrap_err()
    .contains("cannot identify safely"));
}

#[test]
fn blocks_multiple_units_and_assemblies() {
    let units = "#1=(LENGTH_UNIT() SI_UNIT($,.METRE.));\
                 #2=(LENGTH_UNIT() SI_UNIT(.MILLI.,.METRE.));\
                 #3=(GEOMETRIC_REPRESENTATION_CONTEXT(3) GLOBAL_UNIT_ASSIGNED_CONTEXT((#1)));\
                 #4=(GEOMETRIC_REPRESENTATION_CONTEXT(3) GLOBAL_UNIT_ASSIGNED_CONTEXT((#2)));";
    assert!(detect_length_unit(units)
        .unwrap_err()
        .contains("multiple length units"));

    let assembly = b"ISO-10303-21; DATA; #1=NEXT_ASSEMBLY_USAGE_OCCURRENCE('','','',#2,#3,$); ENDSEC; END-ISO-10303-21;";
    assert!(refused(assembly).contains("assemblies"));
}

#[test]
fn conflicting_units_are_listed_in_order() {
    let units = "#5=(LENGTH_UNIT() SI_UNIT($,.METRE.));\
                 #4=(LENGTH_UNIT() SI_UNIT ( .CENTI. , .METRE. ) );\
                 #3=(LENGTH_UNIT() CONVERSION_BASED_UNIT('FEET',#9));\
                 #2=GLOBAL_UNIT_ASSIGNED_CONTEXT((#3,#4,#5,#5));";
    assert_eq!(
        detect_length_unit(units),
        Err("the STEP file uses multiple length units (cm, ft, m); resolve the representation \
             contexts in CAD before import"
            .to_owned())
    );
}

#[test]
fn sole_units_count_without_an_assignment() {
    assert_eq!(
        detect_length_unit("#1=(LENGTH_UNIT() CONVERSION_BASED_UNIT('FOOT',#2));"),
        Ok(Some("ft".into()))
    );
    assert_eq!(
        detect_length_unit("#1=(LENGTH_UNIT() SI_UNIT(.KILO.,.METRE.));"),
        Err("the STEP file declares an unsupported SI length prefix; convert the part to \
             millimetres, centimetres, or metres before import"
            .to_owned())
    );
    assert_eq!(
        detect_length_unit(
            "#1=(LENGTH_UNIT() SI_UNIT($,.METRE.));#2=(LENGTH_UNIT() SI_UNIT(.MILLI.,.METRE.));"
        ),
        Ok(None)
    );
    assert_eq!(detect_length_unit(""), Ok(None));
    assert_eq!(
        detect_length_unit(
            "#1=(LENGTH_UNIT() SI_UNIT(.MILLI.,.METRE.));#1=(LENGTH_UNIT() SI_UNIT($,.METRE.));"
        ),
        Ok(Some("m".into()))
    );
}

#[test]
fn entity_ids_and_references_are_read() {
    assert_eq!(record_entity_id(" \n#12 =X(#3)"), Some(12));
    assert_eq!(record_entity_id("#+7=X"), Some(7));
    assert_eq!(record_entity_id("#=X"), None);
    assert_eq!(record_entity_id("#-7=X"), None);
    assert_eq!(record_entity_id("12=X"), None);
    assert_eq!(record_entity_id("#12"), None);
    assert_eq!(record_entity_id("#18446744073709551616=X"), None);
    assert_eq!(record_entity_id("#18446744073709551615=X"), Some(u64::MAX));
    assert_eq!(record_entity_references("#1=A((#22,#x,##3),#"), vec![1, 22, 3]);
    assert_eq!(
        record_entity_references("#99999999999999999999 #0007"),
        vec![7]
    );
}

#[test]
fn sources_are_refused_before_translation() {
    assert_eq!(refused(b""), "STEP source is empty");
    assert_eq!(refused(b"HEADER;"), "missing ISO-10303-21 exchange-file header");
    assert_eq!(
        refused(b"iso-10303-21; context_dependent_shape_representation(#1,#2);"),
        "assemblies are not supported yet; export one resolved part/body as STEP (or pick a \
         single solid in CAD) and import that file — multi-body occurrence transforms are not \
         preserved"
    );
    assert_eq!(
        refused(b"ISO-10303-21;"),
        "the STEP file has no unambiguous length-unit declaration; re-export it with explicit \
         units"
    );
    assert!(refused(
        b"ISO-10303-21; #1=(LENGTH_UNIT() SI_UNIT(.PICO.,.METRE.)); #2=GLOBAL_UNIT_ASSIGNED_CONTEXT(#1);"
    )
    .contains("cannot identify safely"));
}

#[test]
fn legacy_encodings_are_tolerated() {
    let source = b"iso-10303-21; #1=(length_unit() si_unit(.milli.,.metre.)); /* caf\xe9 */";
    let opened = open_step_source(source).ok().unwrap();
    assert_eq!(opened.declared_unit, "mm");
    assert_eq!(opened.text, String::from_utf8_lossy(source));
    assert!(opened.text.contains("caf\u{fffd} */"));
    assert_eq!(check_step_text(&opened.text).ok().unwrap(), "mm");
    let valid = "ISO-10303-21; #1=(LENGTH_UNIT() SI_UNIT($,.METRE.)); /* café */";
    assert_eq!(open_step_source(valid.as_bytes()).ok().unwrap().text, valid);
}

#[test]
fn oversized_sources_state_their_size() {
    let expected = |bytes: usize| {
        format!(
            "STEP source is {:.1} MB; the safe import limit is {} MB",
            bytes as f64 / (1024.0 * 1024.0),
            MAX_STEP_BYTES / (1024 * 1024)
        )
    };
    let mib = 1024 * 1024;
    let source = vec![0u8; 131 * mib];
    for extra in [1, mib / 4, mib / 2, 3 * mib / 4, mib, 2 * mib + mib / 20, 3 * mib] {
        let bytes = MAX_STEP_BYTES + extra;
        assert_eq!(refused(&source[..bytes]), expected(bytes));
    }
}

#[test]
fn sources_at_the_limit_are_read() {
    let source = vec![b'x'; MAX_STEP_BYTES / 64];
    assert_eq!(refused(&source), "missing ISO-10303-21 exchange-file header");
}

#[test]
fn single_shells_are_taken_and_several_are_offered() {
    let one = select_shells("mm", Some(vec![31]), None).ok().unwrap();
    assert_eq!(one.entity_ids, vec![31]);
    assert_eq!(one.total_shells, 1);
    match select_shells("mm", Some(vec![90, 7, 31]), None) {
        Err(StepParseError::ChooseShell(choice)) => {
            assert_eq!(choice.declared_unit, "mm");
            let ids: Vec<u64> = choice.shells.iter().map(|shell| shell.entity_id).collect();
            assert_eq!(ids, vec![7, 31, 90]);
            assert_eq!(choice.shells[1].label, "Solid 2 · shell #31");
            for id in ids {
                let picked = select_shells("mm", Some(vec![90, 7, 31]), Some(id)).ok().unwrap();
                assert_eq!(picked.entity_ids, vec![id]);
                assert_eq!(picked.total_shells, 3);
            }
        }
        _ => panic!("a choice was expected"),
    }
}

#[test]
fn selections_fail_with_their_reason() {
    let reason = |shells, selected| message(select_shells("m", shells, selected).err().unwrap());
    assert_eq!(
        reason(None, None),
        "the STEP Part 21 data section could not be parsed"
    );
    assert_eq!(
        reason(Some(vec![]), None),
        "no B-rep shell was found; point clouds, wireframes, and surface-only STEP files are \
         unsupported"
    );
    assert_eq!(
        reason(Some(vec![5]), Some(9_999_999)),
        "B-rep shell #9999999 was not found in this STEP file"
    );
    let many: Vec<u64> = (0..MAX_SHELLS as u64 + 1).collect();
    assert_eq!(
        reason(Some(many), Some(3)),
        "the STEP file contains 257 shells; the safe import limit is 256"
    );
}

#[test]
fn the_order_of_shells_does_not_matter() {
    let forward = select_shells("m", Some(vec![1, 2, 3]), None).err().unwrap();
    let backward = select_shells("m", Some(vec![3, 2, 1]), None).err().unwrap();
    assert_eq!(String::from(forward.clone()), String::from(backward));
    assert_eq!(
        String::from(forward),
        "this STEP file contains 3 B-rep shells; choose one solid to analyze \
         (Solid 1 · shell #1, Solid 2 · shell #2, Solid 3 · shell #3)"
    );
}

#[test]
fn translator_faults_have_messages() {
    assert_eq!(
        message(translator_error(TranslatorFault::Stopped)),
        "the STEP translator stopped unexpectedly; the source was not imported or modified"
    );
    assert_eq!(
        message(translator_error(TranslatorFault::UnsupportedShell {
            entity_id: 12,
            reason: "no face".into(),
        })),
        "B-rep shell #12 is unsupported: no face"
    );
    assert_eq!(
        message(translator_error(TranslatorFault::NoExtent)),
        "STEP geometry has no finite, positive 3D extent"
    );
    assert_eq!(
        message(translator_error(TranslatorFault::NoTolerance)),
        "could not derive a finite STEP tessellation tolerance"
    );
}

fn facets(positions: Vec<PositionClass>, triangles: Vec<[usize; 3]>) -> ShellFacets {
    ShellFacets { entity_id: 8, quad_faces: 0, other_faces: 0, positions, triangles }
}

#[test]
fn facets_are_checked_one_by_one() {
    let usable = PositionClass::Usable;
    let good = facets(vec![usable; 3], vec![[0, 1, 2], [2, 1, 0]]);
    assert_eq!(check_shell_facets(&good, 10).ok(), Some(12));
    let fault = |facets: &ShellFacets, earlier| {
        message(check_shell_facets(facets, earlier).err().unwrap())
    };
    assert_eq!(
        fault(&facets(vec![usable; 3], vec![[0, 1, 2], [0, 3, 1]]), 0),
        "B-rep shell #8 produced an invalid vertex index"
    );
    assert_eq!(
        fault(&facets(vec![usable, PositionClass::NonFinite], vec![[0, 0, 1]]), 0),
        "STEP tessellation produced a non-finite coordinate"
    );
    assert_eq!(
        fault(&facets(vec![usable, PositionClass::OutOfRange], vec![[1, 9, 0]]), 0),
        "STEP tessellation produced a coordinate outside the supported range"
    );
    assert_eq!(
        fault(&good, MAX_TRIANGLES - 1),
        "STEP tessellation exceeds the safe limit of 250000 triangles; export a coarser \
         tessellation or a simpler body"
    );
    let mut quads = facets(vec![], vec![]);
    assert_eq!(check_shell_facets(&quads, 4).ok(), Some(4));
    quads.quad_faces = 1;
    assert_eq!(fault(&quads, 0), "B-rep shell #8 produced non-triangular facets");
}

fn source() -> StepSource {
    let text = "ISO-10303-21; #1=(LENGTH_UNIT() SI_UNIT(.MILLI.,.METRE.));";
    open_step_source(text.as_bytes()).ok().unwrap()
}

fn tessellation(facets: Vec<ShellFacets>, fault: Option<TranslatorFault>) -> Tessellation<(), u8> {
    Tessellation { facets, fault, mesh: (), tolerance: 3, weld_tolerance: 4 }
}

fn sound(entity_id: u64) -> ShellFacets {
    ShellFacets { entity_id, ..facets(vec![PositionClass::Usable; 3], vec![[0, 1, 2]]) }
}

fn bare(entity_id: u64) -> ShellFacets {
    ShellFacets { entity_id, ..facets(vec![], vec![]) }
}

#[test]
fn imports_record_the_picked_shell() {
    let picked: Import = parse_step_selecting(
        source(),
        Some(vec![5, 31, 9, 2, 1]),
        Some(31),
        tessellation(vec![sound(31)], None),
    )
    .ok()
    .unwrap();
    assert_eq!(picked.shell_count, 1);
    assert_eq!(picked.selected_shell_entity_id, Some(31));
    assert_eq!(picked.declared_unit.as_deref(), Some("mm"));
    assert_eq!(picked.tessellation_tolerance_source_units, 3);
    assert_eq!(picked.vertex_weld_relative_tolerance, 4);
    assert_eq!(
        picked.warnings,
        vec![
            "Operator selected B-rep shell #31 from 5 shells in the source; other shells were \
             not analyzed."
                .to_owned()
        ]
    );
    let whole: Import =
        parse_step_selecting(source(), Some(vec![7]), None, tessellation(vec![sound(7)], None))
            .ok()
            .unwrap();
    assert_eq!(whole.shell_count, 1);
    assert!(whole.warnings.is_empty());
}

#[test]
fn imports_fail_with_the_first_reason() {
    let reason = |shells, tessellation| {
        let outcome: Result<Import, StepParseError> =
            parse_step_selecting(source(), shells, None, tessellation);
        parse_step(outcome).unwrap_err()
    };
    assert_eq!(
        reason(Some(vec![7]), tessellation(vec![bare(7)], None)),
        "STEP tessellation produced no triangles"
    );
    assert_eq!(
        reason(Some(vec![7]), tessellation(vec![sound(7)], Some(TranslatorFault::Stopped))),
        "the STEP translator stopped unexpectedly; the source was not imported or modified"
    );
    let broken = || facets(vec![], vec![[0, 0, 0]]);
    assert_eq!(
        reason(
            Some(vec![7]),
            tessellation(vec![sound(7), broken()], Some(TranslatorFault::Stopped))
        ),
        "B-rep shell #8 produced an invalid vertex index"
    );
    assert_eq!(
        reason(None, tessellation(vec![broken()], Some(TranslatorFault::NoExtent))),
        "the STEP Part 21 data section could not be parsed"
    );
    let offered = reason(Some(vec![2, 1]), tessellation(vec![], None));
    assert!(offered.starts_with("this STEP file contains 2 B-rep shells"));
}

#[test]
fn triangles_are_counted_over_all_shells() {
    let half = facets(vec![PositionClass::Usable], vec![[0, 0, 0]; MAX_TRIANGLES / 2]);
    let again = facets(vec![PositionClass::Usable], vec![[0, 0, 0]; MAX_TRIANGLES / 2]);
    let outcome: Result<Import, StepParseError> = parse_step_selecting(
        source(),
        Some(vec![7]),
        None,
        tessellation(vec![half, again, sound(7)], None),
    );
    assert!(parse_step(outcome).unwrap_err().contains("safe limit of 250000 triangles"));
}

#[test]
fn only_a_choice_lists_candidates() {
    let whole: Result<Import, StepParseError> =
        parse_step_selecting(source(), Some(vec![7]), None, tessellation(vec![sound(7)], None));
    assert_eq!(
        list_shell_candidates(whole).err().as_deref(),
        Some("this STEP file has a single shell; no chooser is required")
    );
    let refused: Result<Import, StepParseError> = Err(StepParseError::from("no"));
    assert_eq!(list_shell_candidates(refused).err().as_deref(), Some("no"));
    let choice = select_shells("cm", Some(vec![2, 1]), None).err().unwrap();
    let offered: Result<Import, StepParseError> = Err(choice);
    assert_eq!(list_shell_candidates(offered).ok().unwrap().shells.len(), 2);
    assert_eq!(message(StepParseError::from(String::from("yes"))), "yes");
}

const UNIT: &str = "#1=(LENGTH_UNIT() SI_UNIT(.MILLI.,.METRE.));";

#[test]
fn assemblies_are_refused_whatever_stands_before_the_bracket() {
    for keyword in ["NEXT_ASSEMBLY_USAGE_OCCURRENCE", "Context_Dependent_Shape_Representation"] {
        for gap in ["", " ", "\t \r\n", "\x0c", "/**/", " /* it's */ ", "/* a *//*/ ( */\n", "/***/"] {
            let text =
                format!("ISO-10303-21; /* it's */ 'it''s' {} #2={}{}('',#3);", UNIT, keyword, gap);
            assert!(refused(text.as_bytes()).starts_with("assemblies are not supported yet"));
            assert!(check_step_text(&text).is_err());
        }
    }
}

#[test]
fn mentions_of_assemblies_are_no_assemblies() {
    for mention in [
        "/* NEXT_ASSEMBLY_USAGE_OCCURRENCE */",
        "/* NEXT_ASSEMBLY_USAGE_OCCURRENCE (none) */",
        "#9=X('NEXT_ASSEMBLY_USAGE_OCCURRENCE (none)');",
        "#9=X('it''s a NEXT_ASSEMBLY_USAGE_OCCURRENCE (none)');",
        "NEXT_ASSEMBLY_USAGE_ OCCURRENCE(",
        "NEXT_ASSEMBLY_USAGE_OCCURRENCE x (",
        "NEXT_ASSEMBLY_USAGE_OCCURRENCE / (",
        "NEXT_ASSEMBLY_USAGE_OCCURRENCE /* (",
        "NEXT_ASSEMBLY_USAGE_OCCURRENCE_LIST (",
        "MY_NEXT_ASSEMBLY_USAGE_OCCURRENCE (",
        "CONTEXT_DEPENDENT_SHAPE_REPRESENTATION",
    ] {
        let text = format!("ISO-10303-21; {} {}", UNIT, mention);
        assert_eq!(check_step_text(&text).ok().as_deref(), Some("mm"), "{}", mention);
    }
}

#[test]
fn direct_mentions_are_refused_wherever_they_stand() {
    for mention in [
        "/* NEXT_ASSEMBLY_USAGE_OCCURRENCE( */",
        "#9=X('context_dependent_shape_representation(');",
        "MY_NEXT_ASSEMBLY_USAGE_OCCURRENCE(",
    ] {
        let text = format!("ISO-10303-21; {} {}", UNIT, mention);
        assert!(refused(text.as_bytes()).starts_with("assemblies are not supported yet"));
    }
}

#[test]
fn shells_that_were_not_offered_are_not_found() {
    let shells = || Some(vec![90, 7, 31]);
    let whole: Result<Import, StepParseError> =
        parse_step_selecting(source(), shells(), None, tessellation(vec![], None));
    let choice = list_shell_candidates(whole).ok().unwrap();
    let ids: Vec<u64> = choice.shells.iter().map(|shell| shell.entity_id).collect();
    assert!(ids.windows(2).all(|pair| pair[0] < pair[1]));
    for id in [7, 31, 90, 8] {
        let picked: Result<Import, StepParseError> =
            parse_step_selecting(source(), shells(), Some(id), tessellation(vec![bare(id)], None));
        let expected = if ids.contains(&id) {
            "STEP tessellation produced no triangles".to_owned()
        } else {
            format!("B-rep shell #{} was not found in this STEP file", id)
        };
        assert_eq!(parse_step(picked).unwrap_err(), expected);
    }
}

#[test]
fn equal_answers_import_alike() {
    let import = |shells| {
        let imported: Import = parse_step_selecting(
            source(),
            Some(shells),
            Some(31),
            tessellation(vec![sound(31)], None),
        )
        .ok()
        .unwrap();
        (
            imported.declared_unit,
            imported.tessellation_tolerance_source_units,
            imported.shell_count,
            imported.warnings,
        )
    };
    assert_eq!(import(vec![90, 7, 31]), import(vec![31, 90, 7]));
}

#[test]
fn listing_nothing_is_refused_as_empty() {
    let outcome: Result<Import, StepParseError> =
        open_step_source(b"").and_then(|_| Err(StepParseError::from("unreached")));
    assert_eq!(list_shell_candidates(outcome).err().as_deref(), Some("STEP source is empty"));
}

#[test]
fn translators_answer_for_the_selected_shells() {
    let stopped =
        "the STEP translator stopped unexpectedly; the source was not imported or modified";
    for facets in [vec![], vec![sound(8)], vec![sound(7), sound(7)]] {
        let outcome: Result<Import, StepParseError> =
            parse_step_selecting(source(), Some(vec![7]), None, tessellation(facets, None));
        assert_eq!(parse_step(outcome).unwrap_err(), stopped);
    }
}

#[test]
fn shells_count_once() {
    let twice = select_shells("mm", Some(vec![7, 7]), None).ok().unwrap();
    assert_eq!(twice.entity_ids, vec![7]);
    assert_eq!(twice.total_shells, 1);
    match select_shells("mm", Some(vec![9, 7, 9]), None) {
        Err(StepParseError::ChooseShell(choice)) => assert_eq!(choice.shells.len(), 2),
        _ => panic!("a choice was expected"),
    }
}
