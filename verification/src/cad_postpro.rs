//! Post-processing of a one-jump model field: which cells of the lattice are
//! drawn, probed and differenced, and under which labels.
//!
//! Glyphs, iso windows and line probes are derived from stored velocity and
//! occupancy. They are not solver residuals, wall laws or time histories.

use crate::cad_field_ready;
use vstd::prelude::*;

verus! {

/// Every 2nd cell on 32³ → 16³ = 4,096 candidate arrows before solids.
pub const GLYPH_STRIDE: usize = 2;

#[derive(Clone, Copy, Debug, Default, PartialEq, Eq, Structural)]
pub enum IsoScalar {
    #[default]
    Q,
    Speed,
}

impl IsoScalar {
    pub const ALL: [Self; 2] = [Self::Q, Self::Speed];

    pub fn label(self) -> (r: &'static str)
        ensures
            r@ == (match self {
                IsoScalar::Q => "Q"@,
                IsoScalar::Speed => "|U|"@,
            }),
    {
        match self {
            Self::Q => "Q",
            Self::Speed => "|U|",
        }
    }

    pub fn units(self) -> (r: &'static str)
        ensures
            r@ == (match self {
                IsoScalar::Q => "1/s²"@,
                IsoScalar::Speed => "nondim"@,
            }),
    {
        match self {
            Self::Q => "1/s²",
            Self::Speed => "nondim",
        }
    }

    pub fn source(self) -> (r: &'static str)
        ensures
            r@ == "recovered from model velocity · not a production iso"@,
    {
        "recovered from model velocity · not a production iso"
    }
}

#[derive(Clone, Copy, Debug, Default, PartialEq, Eq, Structural)]
pub enum ProbeQuantity {
    #[default]
    PhysicalCp,
    Speed,
    Q,
}

impl ProbeQuantity {
    pub const ALL: [Self; 3] = [Self::PhysicalCp, Self::Speed, Self::Q];

    pub fn label(self) -> (r: &'static str)
        ensures
            r@ == (match self {
                ProbeQuantity::PhysicalCp => "Cp"@,
                ProbeQuantity::Speed => "|U|"@,
                ProbeQuantity::Q => "Q"@,
            }),
    {
        match self {
            Self::PhysicalCp => "Cp",
            Self::Speed => "|U|",
            Self::Q => "Q",
        }
    }

    pub fn units(self) -> (r: &'static str)
        ensures
            r@ == (match self {
                ProbeQuantity::PhysicalCp => "1"@,
                ProbeQuantity::Speed => "nondim"@,
                ProbeQuantity::Q => "1/s²"@,
            }),
    {
        match self {
            Self::PhysicalCp => "1",
            Self::Speed => "nondim",
            Self::Q => "1/s²",
        }
    }
}

/// The axis that a probe runs along.
#[derive(Clone, Copy, Debug, PartialEq, Eq, Structural)]
pub enum SectionAxis {
    X,
    Y,
    Z,
}

/// A cell of the lattice.
#[derive(Clone, Copy, Debug, PartialEq, Eq, Structural)]
pub struct Cell {
    pub i: usize,
    pub j: usize,
    pub k: usize,
}

/// The cell lies in an `n`-cube.
pub open spec fn in_lattice(n: int, cell: Cell) -> bool {
    cad_field_ready::in_cube(n, cell.i as int, cell.j as int, cell.k as int)
}

/// Where the cell stands in a scalar field.
pub open spec fn cell_place(n: int, cell: Cell) -> int {
    cad_field_ready::field_index(n, cell.i as int, cell.j as int, cell.k as int)
}

/// A cell that gets an arrow if its speed allows: one in every two along each
/// axis, and not inside the body.
pub open spec fn is_glyph_cell(n: int, fluid: Seq<bool>, cell: Cell) -> bool {
    &&& in_lattice(n, cell)
    &&& cell.i as int % 2 == 0 && cell.j as int % 2 == 0 && cell.k as int % 2 == 0
    &&& fluid[cell_place(n, cell)]
}

/// The order of cells: by `i`, then `j`, then `k`.
pub open spec fn precedes(a: Cell, b: Cell) -> bool {
    a.i < b.i || (a.i == b.i && (a.j < b.j || (a.j == b.j && a.k < b.k)))
}

/// `cells` are exactly the glyph cells, in order, each once.
pub open spec fn are_glyph_cells(n: int, fluid: Seq<bool>, cells: Seq<Cell>) -> bool {
    &&& forall|m: int| 0 <= m < cells.len() ==> is_glyph_cell(n, fluid, #[trigger] cells[m])
    &&& forall|cell: Cell| is_glyph_cell(n, fluid, cell) ==> #[trigger] cells.contains(cell)
    &&& forall|l: int, m: int| 0 <= l < m < cells.len() ==> precedes(cells[l], cells[m])
}

/// `cells` are the glyph cells that precede `next`.
spec fn covers(n: int, fluid: Seq<bool>, cells: Seq<Cell>, next: Cell) -> bool {
    &&& forall|m: int|
        0 <= m < cells.len() ==> is_glyph_cell(n, fluid, #[trigger] cells[m]) && precedes(
            cells[m],
            next,
        )
    &&& forall|cell: Cell|
        is_glyph_cell(n, fluid, cell) && precedes(cell, next) ==> #[trigger] cells.contains(cell)
    &&& forall|l: int, m: int| 0 <= l < m < cells.len() ==> precedes(cells[l], cells[m])
}

/// No glyph cell stands from `next` up to `after`.
proof fn lemma_covers_skip(n: int, fluid: Seq<bool>, cells: Seq<Cell>, next: Cell, after: Cell)
    requires
        covers(n, fluid, cells, next),
        precedes(next, after),
        forall|cell: Cell|
            #![trigger is_glyph_cell(n, fluid, cell)]
            is_glyph_cell(n, fluid, cell) && precedes(cell, after) ==> precedes(cell, next),
    ensures
        covers(n, fluid, cells, after),
{
}

/// `next` is the only glyph cell from `next` up to `after`.
proof fn lemma_covers_push(n: int, fluid: Seq<bool>, cells: Seq<Cell>, next: Cell, after: Cell)
    requires
        covers(n, fluid, cells, next),
        is_glyph_cell(n, fluid, next),
        precedes(next, after),
        forall|cell: Cell|
            #![trigger is_glyph_cell(n, fluid, cell)]
            is_glyph_cell(n, fluid, cell) && precedes(cell, after) ==> precedes(cell, next) || cell
                == next,
    ensures
        covers(n, fluid, cells.push(next), after),
{
    let more = cells.push(next);
    assert forall|cell: Cell|
        is_glyph_cell(n, fluid, cell) && precedes(cell, after) implies #[trigger] more.contains(
        cell,
    ) by {
        if cell == next {
            assert(more[cells.len() as int] == cell);
        } else {
            assert(cells.contains(cell));
            let m = choose|m: int| 0 <= m < cells.len() && cells[m] == cell;
            assert(more[m] == cell);
        }
    }
}

/// `cells` get an arrow if their speed allows, in fields of these lengths.
pub open spec fn are_drawn(n: int, velocity_len: int, fluid: Seq<bool>, cells: Seq<Cell>) -> bool {
    if n < 2 || velocity_len < 3 * (n * n * n) || fluid.len() < n * n * n {
        cells.len() == 0
    } else {
        are_glyph_cells(n, fluid, cells)
    }
}

/// The cells that get an arrow if their speed allows. `fluid` says of each cell
/// of the occupancy field whether it lies outside the body; a field that is too
/// short has none.
pub fn glyph_cells(n: usize, velocity_len: usize, fluid: &[bool]) -> (r: Vec<Cell>)
    requires
        3 * (n * n * n) <= usize::MAX,
    ensures
        if n < 2 || velocity_len < 3 * (n * n * n) || fluid@.len() < n * n * n {
            r@.len() == 0
        } else {
            are_glyph_cells(n as int, fluid@, r@)
        },
        are_drawn(n as int, velocity_len as int, fluid@, r@),
{
    let mut cells: Vec<Cell> = Vec::new();
    if n < 2 {
        return cells;
    }
    proof {
        assert(n * n <= n * n * n && n + 2 <= n * n * n) by (nonlinear_arith)
            requires
                n >= 2,
        ;
    }
    let cube: usize = n * n * n;
    if velocity_len < 3 * cube || fluid.len() < cube {
        return cells;
    }
    let mut i: usize = 0;
    while i < n
        invariant
            n >= 2,
            n + 2 <= n * n * n <= usize::MAX,
            n * n * n <= fluid@.len(),
            i % 2 == 0,
            covers(n as int, fluid@, cells@, Cell { i, j: 0, k: 0 }),
        decreases n + 2 - i,
    {
        let mut j: usize = 0;
        while j < n
            invariant
                n >= 2,
                n + 2 <= n * n * n <= usize::MAX,
                n * n * n <= fluid@.len(),
                i < n,
                i % 2 == 0,
                j % 2 == 0,
                covers(n as int, fluid@, cells@, Cell { i, j, k: 0 }),
            decreases n + 2 - j,
        {
            let mut k: usize = 0;
            while k < n
                invariant
                    n >= 2,
                    n + 2 <= n * n * n <= usize::MAX,
                    n * n * n <= fluid@.len(),
                    i < n,
                    j < n,
                    i % 2 == 0,
                    j % 2 == 0,
                    k % 2 == 0,
                    covers(n as int, fluid@, cells@, Cell { i, j, k }),
                decreases n + 2 - k,
            {
                let at: usize = cad_field_ready::cell_index(n, i, j, k);
                let ghost after = Cell { i, j, k: (k + 2) as usize };
                if fluid[at] {
                    proof {
                        lemma_covers_push(n as int, fluid@, cells@, Cell { i, j, k }, after);
                    }
                    cells.push(Cell { i, j, k });
                } else {
                    proof {
                        lemma_covers_skip(n as int, fluid@, cells@, Cell { i, j, k }, after);
                    }
                }
                k += GLYPH_STRIDE;
            }
            proof {
                lemma_covers_skip(
                    n as int,
                    fluid@,
                    cells@,
                    Cell { i, j, k },
                    Cell { i, j: (j + 2) as usize, k: 0 },
                );
            }
            j += GLYPH_STRIDE;
        }
        proof {
            lemma_covers_skip(
                n as int,
                fluid@,
                cells@,
                Cell { i, j, k: 0 },
                Cell { i: (i + 2) as usize, j: 0, k: 0 },
            );
        }
        i += GLYPH_STRIDE;
    }
    cells
}

/// A cell's place among the cells with even coordinates.
spec fn glyph_code(half: int, cell: Cell) -> int {
    cad_field_ready::field_index(
        half,
        cell.i as int / 2,
        cell.j as int / 2,
        cell.k as int / 2,
    )
}

proof fn lemma_glyph_codes_ascend(n: int, half: int, fluid: Seq<bool>, a: Cell, b: Cell)
    requires
        half == (n + 1) / 2,
        is_glyph_cell(n, fluid, a),
        is_glyph_cell(n, fluid, b),
        precedes(a, b),
    ensures
        0 <= glyph_code(half, a) < glyph_code(half, b) < half * half * half,
{
    let (i, j, k) = (a.i as int / 2, a.j as int / 2, a.k as int / 2);
    let (x, y, z) = (b.i as int / 2, b.j as int / 2, b.k as int / 2);
    cad_field_ready::lemma_indices_in_cube(half, i, j, k);
    cad_field_ready::lemma_indices_in_cube(half, x, y, z);
    if i < x {
        assert(i * half * half + j * half + k < x * half * half + y * half + z)
            by (nonlinear_arith)
            requires
                i + 1 <= x,
                0 <= i,
                0 <= j <= half - 1,
                0 <= k <= half - 1,
                0 <= y,
                0 <= z,
        {
            assert(x * half * half >= (i + 1) * half * half);
            assert((i + 1) * half * half == i * half * half + half * half);
            assert(j * half <= (half - 1) * half);
            assert((half - 1) * half + (half - 1) < half * half);
            assert(y * half >= 0);
        }
    } else if j < y {
        assert(j * half + k < y * half + z) by (nonlinear_arith)
            requires
                j + 1 <= y,
                0 <= k <= half - 1,
                0 <= z,
        {
            assert(y * half >= (j + 1) * half);
        }
    }
}

proof fn lemma_glyph_count(n: int, half: int, fluid: Seq<bool>, cells: Seq<Cell>, m: int)
    requires
        half == (n + 1) / 2,
        are_glyph_cells(n, fluid, cells),
        0 <= m < cells.len(),
    ensures
        m <= glyph_code(half, cells[m]) < half * half * half,
    decreases m,
{
    if m > 0 {
        lemma_glyph_count(n, half, fluid, cells, m - 1);
        lemma_glyph_codes_ascend(n, half, fluid, cells[m - 1], cells[m]);
    } else {
        let cell = cells[0];
        cad_field_ready::lemma_indices_in_cube(
            half,
            cell.i as int / 2,
            cell.j as int / 2,
            cell.k as int / 2,
        );
    }
}

/// There are no more arrows than cells with even coordinates: 16³ on a 32³
/// lattice.
pub proof fn glyphs_are_decimated(n: int, fluid: Seq<bool>, cells: Seq<Cell>)
    requires
        0 <= n,
        are_glyph_cells(n, fluid, cells),
    ensures
        cells.len() <= ((n + 1) / 2) * ((n + 1) / 2) * ((n + 1) / 2),
{
    let half = (n + 1) / 2;
    if cells.len() > 0 {
        lemma_glyph_count(n, half, fluid, cells, cells.len() - 1);
    } else {
        assert(0 <= half * half * half) by (nonlinear_arith)
            requires
                0 <= half,
        ;
    }
}

/// No arrow stands inside the body, and none is missing outside it.
pub proof fn glyphs_skip_the_body(n: int, fluid: Seq<bool>, cells: Seq<Cell>, cell: Cell)
    requires
        are_glyph_cells(n, fluid, cells),
        in_lattice(n, cell),
    ensures
        !fluid[cell_place(n, cell)] ==> !cells.contains(cell),
        fluid[cell_place(n, cell)] && cell.i as int % 2 == 0 && cell.j as int % 2 == 0
            && cell.k as int % 2 == 0 ==> cells.contains(cell),
{
    if cells.contains(cell) {
        let m = choose|m: int| 0 <= m < cells.len() && cells[m] == cell;
        assert(is_glyph_cell(n, fluid, cells[m]));
    }
    if is_glyph_cell(n, fluid, cell) {
        assert(cells.contains(cell));
    }
}

/// The cell of a probe after `t` steps: it runs through the middle of the
/// lattice.
pub open spec fn probe_cell(n: usize, axis: SectionAxis, t: int) -> Cell {
    let mid: usize = n / 2;
    match axis {
        SectionAxis::X => Cell { i: t as usize, j: mid, k: mid },
        SectionAxis::Y => Cell { i: mid, j: t as usize, k: mid },
        SectionAxis::Z => Cell { i: mid, j: mid, k: t as usize },
    }
}

/// A step of a probe outside the body.
pub struct ProbeStep {
    pub step: usize,
    pub cell: Cell,
    /// Where the cell stands in a scalar field.
    pub place: usize,
}

/// The first `t` steps of a probe, without those inside the body.
pub open spec fn probe_path(n: usize, axis: SectionAxis, solid: Seq<bool>, t: int) -> Seq<ProbeStep>
    decreases t,
{
    if t <= 0 {
        Seq::empty()
    } else {
        let before = probe_path(n, axis, solid, t - 1);
        let cell = probe_cell(n, axis, t - 1);
        let place = cell_place(n as int, cell);
        if solid[place] {
            before
        } else {
            before.push(ProbeStep { step: (t - 1) as usize, cell, place: place as usize })
        }
    }
}

/// The steps of a probe in fields of these lengths.
pub open spec fn probed(
    n: usize,
    axis: SectionAxis,
    velocity_len: int,
    cp_len: int,
    solid: Seq<bool>,
) -> Seq<ProbeStep> {
    if n < 3 || velocity_len < 3 * (n * n * n) || cp_len < n * n * n || solid.len() < n * n * n {
        Seq::empty()
    } else {
        probe_path(n, axis, solid, n as int)
    }
}

/// The steps of a probe along `axis` that lie outside the body, from one face
/// to the other. `solid` says of each cell of the occupancy field whether it
/// lies inside the body; a field that is too short gives no curve.
pub fn probe_steps(
    n: usize,
    axis: SectionAxis,
    velocity_len: usize,
    cp_len: usize,
    solid: &[bool],
) -> (r: Vec<ProbeStep>)
    requires
        3 * (n * n * n) <= usize::MAX,
    ensures
        if n < 3 || velocity_len < 3 * (n * n * n) || cp_len < n * n * n || solid@.len() < n * n
            * n {
            r@.len() == 0
        } else {
            r@ == probe_path(n, axis, solid@, n as int)
        },
        r@ == probed(n, axis, velocity_len as int, cp_len as int, solid@),
{
    let mut steps: Vec<ProbeStep> = Vec::new();
    if n < 3 {
        return steps;
    }
    proof {
        assert(n * n <= n * n * n) by (nonlinear_arith)
            requires
                n >= 3,
        ;
    }
    let cube: usize = n * n * n;
    if velocity_len < 3 * cube || cp_len < cube || solid.len() < cube {
        return steps;
    }
    let mid: usize = n / 2;
    let mut t: usize = 0;
    while t < n
        invariant
            n >= 3,
            mid == n / 2,
            n * n * n <= usize::MAX,
            n * n * n <= solid@.len(),
            t <= n,
            steps@ == probe_path(n, axis, solid@, t as int),
        decreases n - t,
    {
        let cell = match axis {
            SectionAxis::X => Cell { i: t, j: mid, k: mid },
            SectionAxis::Y => Cell { i: mid, j: t, k: mid },
            SectionAxis::Z => Cell { i: mid, j: mid, k: t },
        };
        let place: usize = cad_field_ready::cell_index(n, cell.i, cell.j, cell.k);
        if !solid[place] {
            steps.push(ProbeStep { step: t, cell, place });
        }
        t += 1;
    }
    steps
}

pub(crate) proof fn lemma_probe_path(n: usize, axis: SectionAxis, solid: Seq<bool>, t: int)
    requires
        0 <= t <= n,
    ensures
        probe_path(n, axis, solid, t).len() <= t,
        forall|m: int|
            0 <= m < probe_path(n, axis, solid, t).len() ==> {
                let step = #[trigger] probe_path(n, axis, solid, t)[m];
                &&& step.step < t
                &&& step.cell == probe_cell(n, axis, step.step as int)
                &&& !solid[cell_place(n as int, step.cell)]
            },
        forall|l: int, m: int|
            0 <= l < m < probe_path(n, axis, solid, t).len() ==> probe_path(
                n,
                axis,
                solid,
                t,
            )[l].step < probe_path(n, axis, solid, t)[m].step,
    decreases t,
{
    if t > 0 {
        lemma_probe_path(n, axis, solid, t - 1);
    }
}

/// A probe is one curve: its steps go one way, at most one for each layer of
/// the lattice, and none of them lies inside the body.
pub proof fn probes_are_one_curve(n: usize, axis: SectionAxis, solid: Seq<bool>, l: int, m: int)
    requires
        0 <= l < m < probe_path(n, axis, solid, n as int).len(),
    ensures
        probe_path(n, axis, solid, n as int).len() <= n,
        probe_path(n, axis, solid, n as int)[l].step < probe_path(n, axis, solid, n as int)[m].step,
        !solid[cell_place(n as int, probe_path(n, axis, solid, n as int)[l].cell)],
        !solid[cell_place(n as int, probe_path(n, axis, solid, n as int)[m].cell)],
{
    lemma_probe_path(n, axis, solid, n as int);
}

/// Where a component of a cell's velocity stands: component by component.
pub open spec fn velocity_place(n: int, component: int, cell: Cell) -> int {
    component * (n * n * n) + cell_place(n, cell)
}

/// Where a component of a cell's velocity stands.
pub fn velocity_index(n: usize, component: usize, cell: Cell) -> (r: usize)
    requires
        in_lattice(n as int, cell),
        component < 3,
        3 * (n * n * n) <= usize::MAX,
    ensures
        r == velocity_place(n as int, component as int, cell),
        r == ((component * n + cell.i) * n + cell.j) * n + cell.k,
        r < 3 * (n * n * n),
{
    let place: usize = cad_field_ready::cell_index(n, cell.i, cell.j, cell.k);
    proof {
        let c = component as int;
        let m = n as int;
        assert(((c * m + cell.i) * m + cell.j) * m + cell.k == c * (m * m * m) + (cell.i * m * m
            + cell.j * m + cell.k)) by (nonlinear_arith);
        assert(m * m <= m * m * m) by (nonlinear_arith)
            requires
                m >= 1,
        ;
        assert(c * (m * m * m) <= 2 * (m * m * m)) by (nonlinear_arith)
            requires
                0 <= c <= 2,
                0 <= m,
        ;
    }
    let cube: usize = n * n * n;
    component * cube + place
}

/// The neighbour of a coordinate, held at the faces of the lattice.
pub open spec fn neighbour(n: int, at: int, forward: bool) -> int {
    if forward {
        if at + 1 < n {
            at + 1
        } else {
            n - 1
        }
    } else if at > 0 {
        at - 1
    } else {
        0
    }
}

/// The neighbour of a cell along an axis, held at the faces of the lattice.
pub open spec fn stepped(n: int, cell: Cell, axis: SectionAxis, forward: bool) -> Cell {
    match axis {
        SectionAxis::X => Cell { i: neighbour(n, cell.i as int, forward) as usize, ..cell },
        SectionAxis::Y => Cell { j: neighbour(n, cell.j as int, forward) as usize, ..cell },
        SectionAxis::Z => Cell { k: neighbour(n, cell.k as int, forward) as usize, ..cell },
    }
}

fn step_cell(n: usize, cell: Cell, axis: SectionAxis, forward: bool) -> (r: Cell)
    requires
        in_lattice(n as int, cell),
    ensures
        r == stepped(n as int, cell, axis, forward),
        in_lattice(n as int, r),
{
    let at: usize = match axis {
        SectionAxis::X => cell.i,
        SectionAxis::Y => cell.j,
        SectionAxis::Z => cell.k,
    };
    let to: usize = if forward {
        if at < n - 1 {
            at + 1
        } else {
            n - 1
        }
    } else if at > 0 {
        at - 1
    } else {
        0
    };
    match axis {
        SectionAxis::X => Cell { i: to, j: cell.j, k: cell.k },
        SectionAxis::Y => Cell { i: cell.i, j: to, k: cell.k },
        SectionAxis::Z => Cell { i: cell.i, j: cell.j, k: to },
    }
}

/// Where the difference of a velocity component along an axis is taken: ahead,
/// and behind.
pub open spec fn differenced(n: int, component: int, cell: Cell, axis: SectionAxis) -> (int, int) {
    (
        velocity_place(n, component, stepped(n, cell, axis, true)),
        velocity_place(n, component, stepped(n, cell, axis, false)),
    )
}

/// The two places whose difference estimates how a velocity component changes
/// along an axis: the neighbour ahead and the one behind.
pub fn difference_places(n: usize, component: usize, cell: Cell, axis: SectionAxis) -> (r: (
    usize,
    usize,
))
    requires
        in_lattice(n as int, cell),
        component < 3,
        3 * (n * n * n) <= usize::MAX,
    ensures
        r.0 == velocity_place(n as int, component as int, stepped(n as int, cell, axis, true)),
        r.1 == velocity_place(n as int, component as int, stepped(n as int, cell, axis, false)),
        r.0 < 3 * (n * n * n),
        r.1 < 3 * (n * n * n),
        (r.0 as int, r.1 as int) == differenced(n as int, component as int, cell, axis),
{
    let ahead = step_cell(n, cell, axis, true);
    let behind = step_cell(n, cell, axis, false);
    (velocity_index(n, component, ahead), velocity_index(n, component, behind))
}

} // verus!
