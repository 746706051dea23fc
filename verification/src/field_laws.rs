//! What holds of fields: where cells stand, which of them are drawn and probed,
//! and what a sealed result says.

use crate::cad_field_ready;
use crate::cad_field_ready::{CadFieldReadyIdentity, ResultFacts};
use crate::cad_postpro;
use crate::cad_postpro::{Cell, SectionAxis};
use crate::json::{JsonValue, JsonValueView};
use vstd::prelude::*;

verus! {

/// The keys of a sealed result are told apart by their lengths and letters.
proof fn lemma_keys_differ()
    ensures
        "schema"@.len() == 6 && "schema"@[0] == 's',
        "run_id"@.len() == 6 && "run_id"@[0] == 'r',
        "method"@.len() == 6 && "method"@[0] == 'm',
        "field_schema"@.len() == 12 && "field_schema"@[0] == 'f' && "field_schema"@[7] == 'c',
        "field_sha256"@.len() == 12 && "field_sha256"@[0] == 'f' && "field_sha256"@[7] == 'h',
        "warmup_steps"@.len() == 12 && "warmup_steps"@[0] == 'w',
        "case_revision_id"@.len() == 16 && "case_revision_id"@[0] == 'c',
        "moment_reference"@.len() == 16 && "moment_reference"@[0] == 'm',
        "grid"@.len() == 4,
        "horizon"@.len() == 7,
        "warnings"@.len() == 8,
        "solver_stride"@.len() == 13,
        "moment_origin_mode"@.len() == 18,
        "submitted_request_id"@.len() == 20,
        "coefficient_reference"@.len() == 21,
{
    reveal_strlit("schema");
    reveal_strlit("run_id");
    reveal_strlit("method");
    reveal_strlit("field_schema");
    reveal_strlit("field_sha256");
    reveal_strlit("warmup_steps");
    reveal_strlit("case_revision_id");
    reveal_strlit("moment_reference");
    reveal_strlit("grid");
    reveal_strlit("horizon");
    reveal_strlit("warnings");
    reveal_strlit("solver_stride");
    reveal_strlit("moment_origin_mode");
    reveal_strlit("submitted_request_id");
    reveal_strlit("coefficient_reference");
}

/// Each fact is read back from a sealed result under its own key, and the
/// identity of the run under its two; the moment reference is the mode of the
/// moment origin. A sealed result says nothing else.
pub proof fn sealed_results_read_back(facts: ResultFacts, identity: CadFieldReadyIdentity)
    ensures
        ({
            let sealed = cad_field_ready::sealed_members(facts, identity);
            &&& sealed["schema"@] == JsonValueView::Text(facts.schema@)
            &&& sealed["field_schema"@] == JsonValueView::Text(facts.field_schema@)
            &&& sealed["field_sha256"@] == JsonValueView::Text(facts.field_sha256@)
            &&& sealed["submitted_request_id"@] == JsonValueView::Text(facts.submitted_request_id@)
            &&& sealed["run_id"@] == JsonValueView::Text(identity.run_id@)
            &&& sealed["case_revision_id"@] == JsonValueView::Text(identity.case_revision_id@)
            &&& sealed["method"@] == JsonValueView::Text(facts.method@)
            &&& sealed["grid"@] == JsonValueView::Count(facts.grid)
            &&& sealed["horizon"@] matches JsonValueView::Count(horizon) && horizon
                == facts.horizon
            &&& sealed["solver_stride"@] == JsonValueView::Count(facts.solver_stride)
            &&& sealed["warmup_steps"@] == JsonValueView::Count(facts.warmup_steps)
            &&& sealed["moment_reference"@] == JsonValueView::Text(facts.moment_origin_mode@)
            &&& sealed["moment_origin_mode"@] == JsonValueView::Text(facts.moment_origin_mode@)
            &&& sealed["coefficient_reference"@] == JsonValueView::Text(
                facts.coefficient_reference@,
            )
            &&& sealed["warnings"@] matches JsonValueView::Texts(warnings) && warnings.len()
                == facts.warnings@.len() && forall|i: int|
                0 <= i < warnings.len() ==> #[trigger] warnings[i] == facts.warnings@[i]@
            &&& sealed.dom() == set![
                "schema"@,
                "field_schema"@,
                "field_sha256"@,
                "submitted_request_id"@,
                "run_id"@,
                "case_revision_id"@,
                "method"@,
                "grid"@,
                "horizon"@,
                "solver_stride"@,
                "warmup_steps"@,
                "moment_reference"@,
                "moment_origin_mode"@,
                "coefficient_reference"@,
                "warnings"@,
            ]
        }),
{
    lemma_keys_differ();
    let sealed = cad_field_ready::sealed_members(facts, identity);
    assert(sealed.dom() =~= set![
        "schema"@,
        "field_schema"@,
        "field_sha256"@,
        "submitted_request_id"@,
        "run_id"@,
        "case_revision_id"@,
        "method"@,
        "grid"@,
        "horizon"@,
        "solver_stride"@,
        "warmup_steps"@,
        "moment_reference"@,
        "moment_origin_mode"@,
        "coefficient_reference"@,
        "warnings"@,
    ]);
}

/// Two sealed results agree only if they were sealed from the same facts under
/// the same identity.
pub proof fn sealed_results_are_told_apart(
    facts: ResultFacts,
    identity: CadFieldReadyIdentity,
    others: ResultFacts,
    other: CadFieldReadyIdentity,
)
    requires
        cad_field_ready::sealed_members(facts, identity) == cad_field_ready::sealed_members(
            others,
            other,
        ),
    ensures
        facts.schema@ == others.schema@,
        facts.field_schema@ == others.field_schema@,
        facts.field_sha256@ == others.field_sha256@,
        facts.submitted_request_id@ == others.submitted_request_id@,
        facts.method@ == others.method@,
        facts.grid == others.grid,
        facts.horizon == others.horizon,
        facts.solver_stride == others.solver_stride,
        facts.warmup_steps == others.warmup_steps,
        facts.moment_origin_mode@ == others.moment_origin_mode@,
        facts.coefficient_reference@ == others.coefficient_reference@,
        facts.warnings@.len() == others.warnings@.len(),
        forall|i: int|
            0 <= i < facts.warnings@.len() ==> (#[trigger] facts.warnings@[i])@
                == others.warnings@[i]@,
        identity.run_id@ == other.run_id@,
        identity.case_revision_id@ == other.case_revision_id@,
{
    sealed_results_read_back(facts, identity);
    sealed_results_read_back(others, other);
    let warnings = cad_field_ready::sealed_members(facts, identity)["warnings"@]->Texts_0;
    assert forall|i: int| 0 <= i < facts.warnings@.len() implies (#[trigger] facts.warnings@[i])@
        == others.warnings@[i]@ by {
        assert(warnings[i] == facts.warnings@[i]@);
    }
}

/// What is said of a JSON value is what it holds.
pub proof fn json_values_are_faithful(flag: bool, count: u64, text: String, texts: Vec<String>)
    ensures
        JsonValue::Null@ == JsonValueView::Null,
        JsonValue::Flag(flag)@ == JsonValueView::Flag(flag),
        JsonValue::Count(count)@ == JsonValueView::Count(count),
        JsonValue::Text(text)@ == JsonValueView::Text(text@),
        JsonValue::Texts(texts)@ matches JsonValueView::Texts(said) && said.len() == texts@.len()
            && forall|i: int| 0 <= i < said.len() ==> #[trigger] said[i] == texts@[i]@,
{
}

/// In a field the last coordinate runs fastest and the first slowest; in a
/// display volume it is the other way round.
pub proof fn cells_stand_in_order(n: int, i: int, j: int, k: int)
    ensures
        cad_field_ready::field_index(n, 0, 0, 0) == 0,
        cad_field_ready::field_index(n, i, j, k + 1) == cad_field_ready::field_index(n, i, j, k) + 1,
        cad_field_ready::field_index(n, i, j + 1, k) == cad_field_ready::field_index(n, i, j, k) + n,
        cad_field_ready::field_index(n, i + 1, j, k) == cad_field_ready::field_index(n, i, j, k) + n
            * n,
        cad_field_ready::display_index(n, 0, 0, 0) == 0,
        cad_field_ready::display_index(n, i + 1, j, k) == cad_field_ready::display_index(n, i, j, k)
            + 1,
        cad_field_ready::display_index(n, i, j + 1, k) == cad_field_ready::display_index(n, i, j, k)
            + n,
        cad_field_ready::display_index(n, i, j, k + 1) == cad_field_ready::display_index(n, i, j, k)
            + n * n,
{
    assert((i + 1) * n * n == i * n * n + n * n) by (nonlinear_arith);
    assert((j + 1) * n == j * n + n) by (nonlinear_arith);
    assert((k * n + (j + 1)) * n + i == (k * n + j) * n + i + n) by (nonlinear_arith);
    assert(((k + 1) * n + j) * n + i == (k * n + j) * n + i + n * n) by (nonlinear_arith);
    assert(0 * n * n + 0 * n + 0 == 0) by (nonlinear_arith);
    assert((0 * n + 0) * n + 0 == 0) by (nonlinear_arith);
}

/// A display volume has one value for each cell of the cube: the one that the
/// field has for that cell.
pub proof fn display_volumes_show_the_field(
    n: int,
    field: Seq<u8>,
    volume: Seq<u8>,
    i: int,
    j: int,
    k: int,
)
    requires
        cad_field_ready::is_display_order(n, field, volume),
    ensures
        volume.len() == n * n * n,
        0 <= i < n && 0 <= j < n && 0 <= k < n ==> volume[k * n * n + j * n + i] == field[i * n * n
            + j * n + k],
{
    if 0 <= i < n && 0 <= j < n && 0 <= k < n {
        assert((k * n + j) * n + i == k * n * n + j * n + i) by (nonlinear_arith);
        assert(cad_field_ready::in_cube(n, i, j, k));
        assert(volume[cad_field_ready::display_index(n, i, j, k)]
            == field[cad_field_ready::field_index(n, i, j, k)]);
    }
}

/// The display order of a field is nothing but its values, each at the place of
/// its cell: a volume that shows them so is one.
pub proof fn display_volumes_are_known_by_their_cells(n: int, field: Seq<u8>, volume: Seq<u8>)
    requires
        volume.len() == n * n * n,
        forall|i: int, j: int, k: int|
            #![trigger cad_field_ready::display_index(n, i, j, k)]
            0 <= i < n && 0 <= j < n && 0 <= k < n ==> volume[k * n * n + j * n + i] == field[i * n
                * n + j * n + k],
    ensures
        cad_field_ready::is_display_order(n, field, volume),
{
    assert forall|i: int, j: int, k: int| cad_field_ready::in_cube(n, i, j, k) implies volume[
    #[trigger] cad_field_ready::display_index(n, i, j, k)] == field[cad_field_ready::field_index(
        n,
        i,
        j,
        k,
    )] by {
        assert((k * n + j) * n + i == k * n * n + j * n + i) by (nonlinear_arith);
    }
}

/// The mid line of a lattice along an axis: two coordinates stay in the middle
/// and the third one runs.
pub open spec fn on_mid_line(n: int, axis: SectionAxis, cell: Cell, t: int) -> bool {
    match axis {
        SectionAxis::X => cell.i == t && cell.j == n / 2 && cell.k == n / 2,
        SectionAxis::Y => cell.i == n / 2 && cell.j == t && cell.k == n / 2,
        SectionAxis::Z => cell.i == n / 2 && cell.j == n / 2 && cell.k == t,
    }
}

proof fn lemma_mid_line(n: usize, axis: SectionAxis, t: int)
    requires
        0 <= t < n,
        n * n * n <= usize::MAX,
    ensures
        ({
            let cell = cad_postpro::probe_cell(n, axis, t);
            let place = cell.i * n * n + cell.j * n + cell.k;
            &&& on_mid_line(n as int, axis, cell, t)
            &&& cad_postpro::cell_place(n as int, cell) == place
            &&& 0 <= place < n * n * n
        }),
{
    let cell = cad_postpro::probe_cell(n, axis, t);
    cad_field_ready::lemma_indices_in_cube(n as int, cell.i as int, cell.j as int, cell.k as int);
}

proof fn lemma_probe_is_complete(n: usize, axis: SectionAxis, solid: Seq<bool>, t: int, end: int)
    requires
        0 <= t < end <= n,
        n * n * n <= usize::MAX,
        !solid[cad_postpro::cell_place(n as int, cad_postpro::probe_cell(n, axis, t))],
    ensures
        exists|m: int|
            0 <= m < cad_postpro::probe_path(n, axis, solid, end).len()
                && (#[trigger] cad_postpro::probe_path(n, axis, solid, end)[m]).step == t,
    decreases end,
{
    let path = cad_postpro::probe_path(n, axis, solid, end);
    if t == end - 1 {
        assert(path[path.len() - 1].step == t);
    } else {
        lemma_probe_is_complete(n, axis, solid, t, end - 1);
        let before = cad_postpro::probe_path(n, axis, solid, end - 1);
        let m = choose|m: int| 0 <= m < before.len() && (#[trigger] before[m]).step == t;
        assert(path[m] == before[m]);
    }
}

proof fn lemma_probe_places(n: usize, axis: SectionAxis, solid: Seq<bool>, end: int, m: int)
    requires
        0 <= end <= n,
        n * n * n <= usize::MAX,
        0 <= m < cad_postpro::probe_path(n, axis, solid, end).len(),
    ensures
        ({
            let step = cad_postpro::probe_path(n, axis, solid, end)[m];
            &&& step.step < end
            &&& step.cell == cad_postpro::probe_cell(n, axis, step.step as int)
            &&& step.place == cad_postpro::cell_place(n as int, step.cell)
            &&& !solid[step.place as int]
        }),
    decreases end,
{
    if end > 0 {
        lemma_mid_line(n, axis, end - 1);
        if m < cad_postpro::probe_path(n, axis, solid, end - 1).len() {
            lemma_probe_places(n, axis, solid, end - 1, m);
        }
    }
}

/// A probe misses nothing: in fields that are long enough, each layer whose
/// cell on the mid line is not solid has its step, with that cell and with its
/// place in the field.
pub proof fn probes_are_complete(
    n: usize,
    axis: SectionAxis,
    velocity_len: int,
    cp_len: int,
    solid: Seq<bool>,
    t: int,
    cell: Cell,
)
    requires
        3 * (n * n * n) <= usize::MAX,
        n >= 3,
        velocity_len >= 3 * (n * n * n),
        cp_len >= n * n * n,
        solid.len() >= n * n * n,
        0 <= t < n,
        on_mid_line(n as int, axis, cell, t),
        !solid[cell.i * n * n + cell.j * n + cell.k],
    ensures
        exists|m: int|
            0 <= m < cad_postpro::probed(n, axis, velocity_len, cp_len, solid).len() && {
                let step = #[trigger] cad_postpro::probed(n, axis, velocity_len, cp_len, solid)[m];
                &&& step.step == t
                &&& step.cell == cell
                &&& step.place == cell.i * n * n + cell.j * n + cell.k
            },
{
    lemma_mid_line(n, axis, t);
    assert(cell == cad_postpro::probe_cell(n, axis, t));
    lemma_probe_is_complete(n, axis, solid, t, n as int);
    let path = cad_postpro::probe_path(n, axis, solid, n as int);
    let m = choose|m: int| 0 <= m < path.len() && (#[trigger] path[m]).step == t;
    lemma_probe_places(n, axis, solid, n as int, m);
    assert(cad_postpro::probed(n, axis, velocity_len, cp_len, solid)[m] == path[m]);
}

/// A probe holds nothing else: each of its steps is the layer of a cell on the
/// mid line that is not solid, and the layers ascend. Fields that are too short
/// have no probe.
pub proof fn probes_are_sound(
    n: usize,
    axis: SectionAxis,
    velocity_len: int,
    cp_len: int,
    solid: Seq<bool>,
    l: int,
    m: int,
)
    requires
        3 * (n * n * n) <= usize::MAX,
        0 <= m < cad_postpro::probed(n, axis, velocity_len, cp_len, solid).len(),
    ensures
        ({
            let step = cad_postpro::probed(n, axis, velocity_len, cp_len, solid)[m];
            &&& n >= 3 && velocity_len >= 3 * (n * n * n) && cp_len >= n * n * n && solid.len() >= n
                * n * n
            &&& step.step < n
            &&& on_mid_line(n as int, axis, step.cell, step.step as int)
            &&& step.place == step.cell.i * n * n + step.cell.j * n + step.cell.k
            &&& !solid[step.place as int]
            &&& 0 <= l < m ==> cad_postpro::probed(n, axis, velocity_len, cp_len, solid)[l].step
                < step.step
        }),
{
    lemma_probe_places(n, axis, solid, n as int, m);
    lemma_mid_line(
        n,
        axis,
        cad_postpro::probe_path(n, axis, solid, n as int)[m].step as int,
    );
    cad_postpro::lemma_probe_path(n, axis, solid, n as int);
}

/// The cells that are drawn: in fields that are long enough exactly those with
/// even coordinates that lie outside the body, each once, ordered by their first
/// coordinate, then the second, then the third; in others none.
pub proof fn every_second_fluid_cell_is_drawn(
    n: int,
    velocity_len: int,
    fluid: Seq<bool>,
    cells: Seq<Cell>,
    cell: Cell,
    l: int,
    m: int,
)
    requires
        cad_postpro::are_drawn(n, velocity_len, fluid, cells),
    ensures
        cells.contains(cell) <==> {
            &&& n >= 2 && velocity_len >= 3 * (n * n * n) && fluid.len() >= n * n * n
            &&& cell.i < n && cell.j < n && cell.k < n
            &&& cell.i % 2 == 0 && cell.j % 2 == 0 && cell.k % 2 == 0
            &&& fluid[cell.i * n * n + cell.j * n + cell.k]
        },
        0 <= l < m < cells.len() ==> {
            let (a, b) = (cells[l], cells[m]);
            a.i < b.i || (a.i == b.i && a.j < b.j) || (a.i == b.i && a.j == b.j && a.k < b.k)
        },
{
    if cells.contains(cell) {
        let at = choose|at: int| 0 <= at < cells.len() && cells[at] == cell;
        assert(cad_postpro::is_glyph_cell(n, fluid, cells[at]));
    }
    if cad_postpro::is_glyph_cell(n, fluid, cell) && n >= 2 && velocity_len >= 3 * (n * n * n)
        && fluid.len() >= n * n * n {
        assert(cells.contains(cell));
    }
    if 0 <= l < m < cells.len() {
        assert(cad_postpro::precedes(cells[l], cells[m]));
    }
}

/// A velocity is stored component by component, each a whole field.
pub proof fn velocities_stand_by_component(n: int, component: int, cell: Cell)
    ensures
        cad_postpro::velocity_place(n, component, cell) == component * (n * n * n) + cell.i * n * n
            + cell.j * n + cell.k,
        cad_postpro::velocity_place(n, component + 1, cell) == cad_postpro::velocity_place(
            n,
            component,
            cell,
        ) + n * n * n,
{
    let cube = n * n * n;
    assert((component + 1) * cube == component * cube + cube) by (nonlinear_arith);
}

/// A difference is taken between the two neighbours along the axis. At a face of
/// the lattice the cell stands in for the neighbour that is missing, and the
/// other coordinates and the component stay.
pub proof fn differences_are_taken_along_the_axis(
    n: int,
    component: int,
    cell: Cell,
    axis: SectionAxis,
    ahead: Cell,
    behind: Cell,
)
    requires
        cell.i < n && cell.j < n && cell.k < n,
        ahead.i == (if axis is X && cell.i + 1 < n {
            cell.i + 1
        } else {
            cell.i as int
        }),
        ahead.j == (if axis is Y && cell.j + 1 < n {
            cell.j + 1
        } else {
            cell.j as int
        }),
        ahead.k == (if axis is Z && cell.k + 1 < n {
            cell.k + 1
        } else {
            cell.k as int
        }),
        behind.i == (if axis is X && cell.i > 0 {
            cell.i - 1
        } else {
            cell.i as int
        }),
        behind.j == (if axis is Y && cell.j > 0 {
            cell.j - 1
        } else {
            cell.j as int
        }),
        behind.k == (if axis is Z && cell.k > 0 {
            cell.k - 1
        } else {
            cell.k as int
        }),
    ensures
        cad_postpro::differenced(n, component, cell, axis) == (
            component * (n * n * n) + (ahead.i * n * n + ahead.j * n + ahead.k),
            component * (n * n * n) + (behind.i * n * n + behind.j * n + behind.k),
        ),
{
    assert(cad_postpro::stepped(n, cell, axis, true) == ahead);
    assert(cad_postpro::stepped(n, cell, axis, false) == behind);
}

} // verus!
