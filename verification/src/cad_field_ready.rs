//! Preparation of a completed CAD field for persistence and first paint: the
//! identity that seals its result, and the order of its display volumes.

use crate::json;
use crate::json::{JsonValue, JsonValueView};
use crate::text;
use vstd::arithmetic::div_mod::*;
use vstd::arithmetic::mul::*;
use vstd::prelude::*;

verus! {

/// Identity needed to seal the engineering-result JSON before persistence.
pub struct CadFieldReadyIdentity {
    pub run_id: String,
    pub case_revision_id: String,
}

/// What a result says of its field besides measurements.
pub struct ResultFacts {
    pub schema: String,
    pub field_schema: String,
    pub field_sha256: String,
    pub submitted_request_id: String,
    pub method: String,
    pub grid: u64,
    pub horizon: u32,
    pub solver_stride: u64,
    pub warmup_steps: u64,
    pub moment_origin_mode: String,
    pub coefficient_reference: String,
    pub warnings: Vec<String>,
}

/// The members of a sealed result, its measurements aside. The moment reference
/// is the mode of the moment origin.
pub open spec fn sealed_members(facts: ResultFacts, identity: CadFieldReadyIdentity) -> Map<
    Seq<char>,
    JsonValueView,
> {
    json::no_members().insert("schema"@, JsonValueView::Text(facts.schema@)).insert(
        "field_schema"@,
        JsonValueView::Text(facts.field_schema@),
    ).insert("field_sha256"@, JsonValueView::Text(facts.field_sha256@)).insert(
        "submitted_request_id"@,
        JsonValueView::Text(facts.submitted_request_id@),
    ).insert("run_id"@, JsonValueView::Text(identity.run_id@)).insert(
        "case_revision_id"@,
        JsonValueView::Text(identity.case_revision_id@),
    ).insert("method"@, JsonValueView::Text(facts.method@)).insert(
        "grid"@,
        JsonValueView::Count(facts.grid),
    ).insert("horizon"@, JsonValueView::Count(facts.horizon as u64)).insert(
        "solver_stride"@,
        JsonValueView::Count(facts.solver_stride),
    ).insert("warmup_steps"@, JsonValueView::Count(facts.warmup_steps)).insert(
        "moment_reference"@,
        JsonValueView::Text(facts.moment_origin_mode@),
    ).insert("moment_origin_mode"@, JsonValueView::Text(facts.moment_origin_mode@)).insert(
        "coefficient_reference"@,
        JsonValueView::Text(facts.coefficient_reference@),
    ).insert("warnings"@, JsonValueView::Texts(text::texts(facts.warnings@)))
}

fn set_text(object: &mut serde_json::Map<String, serde_json::Value>, key: &str, text: &String)
    ensures
        json::members(*final(object)) == json::members(*old(object)).insert(
            key@,
            JsonValueView::Text(text@),
        ),
{
    json::set_member(object, key, JsonValue::Text(text.as_str().to_owned()));
}

/// Seals a result under the identity of its run. Its measurements are added by
/// the caller.
pub fn seal_result(facts: &ResultFacts, identity: &CadFieldReadyIdentity) -> (r: serde_json::Map<
    String,
    serde_json::Value,
>)
    ensures
        json::members(r) == sealed_members(*facts, *identity),
{
    let mut warnings: Vec<String> = Vec::new();
    let mut i: usize = 0;
    while i < facts.warnings.len()
        invariant
            i <= facts.warnings@.len(),
            warnings@.len() == i,
            forall|j: int| 0 <= j < i ==> (#[trigger] warnings@[j])@ == facts.warnings@[j]@,
        decreases facts.warnings@.len() - i,
    {
        warnings.push(facts.warnings[i].as_str().to_owned());
        i += 1;
    }
    proof {
        assert(text::texts(warnings@) =~= text::texts(facts.warnings@));
    }
    let mut object = json::empty_object();
    set_text(&mut object, "schema", &facts.schema);
    set_text(&mut object, "field_schema", &facts.field_schema);
    set_text(&mut object, "field_sha256", &facts.field_sha256);
    set_text(&mut object, "submitted_request_id", &facts.submitted_request_id);
    set_text(&mut object, "run_id", &identity.run_id);
    set_text(&mut object, "case_revision_id", &identity.case_revision_id);
    set_text(&mut object, "method", &facts.method);
    json::set_member(&mut object, "grid", JsonValue::Count(facts.grid));
    json::set_member(&mut object, "horizon", JsonValue::Count(facts.horizon as u64));
    json::set_member(&mut object, "solver_stride", JsonValue::Count(facts.solver_stride));
    json::set_member(&mut object, "warmup_steps", JsonValue::Count(facts.warmup_steps));
    set_text(&mut object, "moment_reference", &facts.moment_origin_mode);
    set_text(&mut object, "moment_origin_mode", &facts.moment_origin_mode);
    set_text(&mut object, "coefficient_reference", &facts.coefficient_reference);
    json::set_member(&mut object, "warnings", JsonValue::Texts(warnings));
    object
}

/// Where a cell of an `n`-cube stands in a field: the last axis runs fastest.
pub open spec fn field_index(n: int, i: int, j: int, k: int) -> int {
    i * n * n + j * n + k
}

/// Where a cell of an `n`-cube stands in a display volume: the first axis runs
/// fastest.
pub open spec fn display_index(n: int, i: int, j: int, k: int) -> int {
    (k * n + j) * n + i
}

/// A cell of an `n`-cube.
pub open spec fn in_cube(n: int, i: int, j: int, k: int) -> bool {
    0 <= i < n && 0 <= j < n && 0 <= k < n
}

pub(crate) proof fn lemma_indices_in_cube(n: int, i: int, j: int, k: int)
    requires
        in_cube(n, i, j, k),
    ensures
        0 <= field_index(n, i, j, k) < n * n * n,
        0 <= display_index(n, i, j, k) < n * n * n,
        display_index(n, i, j, k) == field_index(n, k, j, i),
{
    lemma_field_index_bounds(n, i, j, k);
    lemma_field_index_bounds(n, k, j, i);
    assert((k * n + j) * n + i == k * n * n + j * n + i) by (nonlinear_arith);
}

proof fn lemma_field_index_bounds(n: int, i: int, j: int, k: int)
    requires
        in_cube(n, i, j, k),
    ensures
        0 <= i * n * n + j * n + k < n * n * n,
{
    assert(0 <= i * n * n) by (nonlinear_arith)
        requires
            0 <= i,
            0 <= n,
    ;
    assert(0 <= j * n) by (nonlinear_arith)
        requires
            0 <= j,
            0 <= n,
    ;
    assert(i * n * n <= (n - 1) * n * n) by (nonlinear_arith)
        requires
            i <= n - 1,
            0 <= n,
    ;
    assert(j * n <= (n - 1) * n) by (nonlinear_arith)
        requires
            j <= n - 1,
            0 <= n,
    ;
    assert((n - 1) * n * n + (n - 1) * n + (n - 1) == n * n * n - 1) by (nonlinear_arith);
}

/// A place in a display volume belongs to one cell.
proof fn lemma_display_index_injective(n: int, i: int, j: int, k: int, x: int, y: int, z: int)
    requires
        in_cube(n, i, j, k),
        in_cube(n, x, y, z),
        display_index(n, i, j, k) == display_index(n, x, y, z),
    ensures
        i == x && j == y && k == z,
{
    let at = display_index(n, i, j, k);
    lemma_fundamental_div_mod_converse(at, n, k * n + j, i);
    lemma_fundamental_div_mod_converse(at, n, z * n + y, x);
    lemma_fundamental_div_mod_converse(k * n + j, n, k, j);
    lemma_fundamental_div_mod_converse(z * n + y, n, z, y);
}

/// Where a cell of an `n`-cube stands in a field.
pub(crate) fn cell_index(n: usize, i: usize, j: usize, k: usize) -> (r: usize)
    requires
        in_cube(n as int, i as int, j as int, k as int),
        n * n * n <= usize::MAX,
    ensures
        r == field_index(n as int, i as int, j as int, k as int),
        r < n * n * n,
{
    proof {
        lemma_indices_in_cube(n as int, i as int, j as int, k as int);
        assert(0 <= i * n <= i * n * n) by (nonlinear_arith)
            requires
                1 <= n,
        ;
        assert(0 <= j * n) by (nonlinear_arith);
    }
    i * n * n + j * n + k
}

/// The values that have been put in order agree with the field.
spec fn agrees(n: int, field: Seq<u8>, out: Seq<u8>) -> bool {
    forall|i: int, j: int, k: int|
        in_cube(n, i, j, k) && display_index(n, i, j, k) < out.len() ==> out[#[trigger] display_index(
            n,
            i,
            j,
            k,
        )] == field[field_index(n, i, j, k)]
}

proof fn lemma_agrees_step(n: int, field: Seq<u8>, out: Seq<u8>, i: int, j: int, k: int)
    requires
        in_cube(n, i, j, k),
        agrees(n, field, out),
        out.len() == display_index(n, i, j, k),
    ensures
        agrees(n, field, out.push(field[field_index(n, i, j, k)])),
{
    let next = out.push(field[field_index(n, i, j, k)]);
    assert forall|x: int, y: int, z: int|
        in_cube(n, x, y, z) && display_index(n, x, y, z) < next.len() implies next[
        #[trigger] display_index(n, x, y, z)] == field[field_index(n, x, y, z)] by {
        lemma_indices_in_cube(n, x, y, z);
        if display_index(n, x, y, z) == out.len() {
            lemma_display_index_injective(n, i, j, k, x, y, z);
        }
    }
}

/// The values of a field in display order.
pub open spec fn is_display_order(n: int, field: Seq<u8>, volume: Seq<u8>) -> bool {
    &&& volume.len() == n * n * n
    &&& forall|i: int, j: int, k: int|
        in_cube(n, i, j, k) ==> volume[#[trigger] display_index(n, i, j, k)] == field[field_index(
            n,
            i,
            j,
            k,
        )]
}

/// Puts the `n * n * n` values of a field into display order.
pub fn display_order(n: usize, field: &[u8]) -> (r: Vec<u8>)
    requires
        n * n * n <= field@.len(),
    ensures
        is_display_order(n as int, field@, r@),
{
    let size: usize = field.len();
    let mut out: Vec<u8> = Vec::new();
    let mut k: usize = 0;
    while k < n
        invariant
            k <= n,
            n * n * n <= size == field@.len(),
            out@.len() == k * n * n,
            agrees(n as int, field@, out@),
        decreases n - k,
    {
        let mut j: usize = 0;
        while j < n
            invariant
                k < n,
                j <= n,
                n * n * n <= size == field@.len(),
                out@.len() == (k * n + j) * n,
                agrees(n as int, field@, out@),
            decreases n - j,
        {
            let mut i: usize = 0;
            while i < n
                invariant
                    k < n,
                    j < n,
                    i <= n,
                    n * n * n <= size == field@.len(),
                    out@.len() == (k * n + j) * n + i,
                    agrees(n as int, field@, out@),
                decreases n - i,
            {
                let at: usize = cell_index(n, i, j, k);
                proof {
                    lemma_agrees_step(n as int, field@, out@, i as int, j as int, k as int);
                }
                out.push(field[at]);
                i += 1;
            }
            proof {
                assert((k * n + j) * n + n == (k * n + (j + 1)) * n) by (nonlinear_arith);
            }
            j += 1;
        }
        proof {
            assert((k * n + n) * n == (k + 1) * n * n) by (nonlinear_arith);
        }
        k += 1;
    }
    proof {
        assert forall|i: int, j: int, k: int| in_cube(n as int, i, j, k) implies out@[
        #[trigger] display_index(n as int, i, j, k)] == field@[field_index(n as int, i, j, k)] by {
            lemma_indices_in_cube(n as int, i, j, k);
        }
    }
    out
}

/// Every place of a display volume belongs to a cell.
proof fn lemma_display_index_onto(n: int, at: int) -> (cell: (int, int, int))
    requires
        0 <= at < n * n * n,
    ensures
        in_cube(n, cell.0, cell.1, cell.2),
        display_index(n, cell.0, cell.1, cell.2) == at,
{
    assert(0 < n) by (nonlinear_arith)
        requires
            0 < n * n * n,
    ;
    let i = at % n;
    let rest = at / n;
    let j = rest % n;
    let k = rest / n;
    lemma_fundamental_div_mod(at, n);
    lemma_fundamental_div_mod(rest, n);
    lemma_mod_bound(at, n);
    lemma_mod_bound(rest, n);
    assert(0 <= rest < n * n) by (nonlinear_arith)
        requires
            at == n * rest + i,
            0 <= i < n,
            0 <= at < n * n * n,
    ;
    assert(0 <= k < n) by (nonlinear_arith)
        requires
            rest == n * k + j,
            0 <= j < n,
            0 <= rest < n * n,
    ;
    assert((k * n + j) * n + i == at) by (nonlinear_arith)
        requires
            at == n * rest + i,
            rest == n * k + j,
    ;
    (i, j, k)
}

/// Display order is undone by applying it once more.
pub proof fn display_order_is_an_involution(
    n: int,
    field: Seq<u8>,
    volume: Seq<u8>,
    back: Seq<u8>,
)
    requires
        0 <= n,
        field.len() == n * n * n,
        is_display_order(n, field, volume),
        is_display_order(n, volume, back),
    ensures
        back == field,
{
    assert forall|at: int| 0 <= at < n * n * n implies back[at] == field[at] by {
        let (i, j, k) = lemma_display_index_onto(n, at);
        lemma_indices_in_cube(n, i, j, k);
        lemma_indices_in_cube(n, k, j, i);
        assert(back[display_index(n, i, j, k)] == volume[field_index(n, i, j, k)]);
        assert(volume[display_index(n, k, j, i)] == field[field_index(n, k, j, i)]);
    }
    assert(back =~= field);
}

/// Display order moves values and loses none: each stands at the place of its
/// cell, and two cells never share a place.
pub proof fn display_order_keeps_cells_apart(
    n: int,
    i: int,
    j: int,
    k: int,
    x: int,
    y: int,
    z: int,
)
    requires
        in_cube(n, i, j, k),
        in_cube(n, x, y, z),
        (i, j, k) != (x, y, z),
    ensures
        display_index(n, i, j, k) != display_index(n, x, y, z),
        0 <= display_index(n, i, j, k) < n * n * n,
{
    lemma_indices_in_cube(n, i, j, k);
    if display_index(n, i, j, k) == display_index(n, x, y, z) {
        lemma_display_index_injective(n, i, j, k, x, y, z);
    }
}

} // verus!
