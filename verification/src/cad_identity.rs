//! Persistent CAD face and region identity, and what a reimport does to it.
//!
//! Triangle order and heuristic `component-{index}` labels are not stable
//! identity. Boundary assignments that become internal-flow evidence carry a
//! non-heuristic face identity, and an ambiguous remap after a geometry
//! reimport is rejected.

use crate::text;
use vstd::prelude::*;
use vstd::string::*;

verus! {

/// How a region candidate was identified on the imported source.
#[derive(Clone, Copy, Debug, Default, PartialEq, Eq, Structural)]
pub enum FaceIdentityKind {
    /// No face identity was recovered from the source.
    #[default]
    Absent,
    /// Order- or index-based placeholder (for example `component-0`). Not
    /// evidence-safe for boundary conditions.
    HeuristicIndex,
    /// STEP entity id from the Part 21 graph (exporter-local, not CAx-IF persistent).
    StepEntityId,
    /// `ADVANCED_FACE` name attribute when the exporter populated it.
    StepAdvancedFaceName,
    /// Face id emitted by the out-of-process CAD bridge tessellation.
    BridgeFaceId,
}

/// The name under which a kind is recorded.
pub open spec fn kind_name(kind: FaceIdentityKind) -> Seq<char> {
    match kind {
        FaceIdentityKind::Absent => "absent"@,
        FaceIdentityKind::HeuristicIndex => "heuristic_index"@,
        FaceIdentityKind::StepEntityId => "step_entity_id"@,
        FaceIdentityKind::StepAdvancedFaceName => "step_advanced_face_name"@,
        FaceIdentityKind::BridgeFaceId => "bridge_face_id"@,
    }
}

/// The kinds that may back an immutable boundary assignment.
pub open spec fn kind_is_safe(kind: FaceIdentityKind) -> bool {
    kind is StepEntityId || kind is StepAdvancedFaceName || kind is BridgeFaceId
}

impl FaceIdentityKind {
    pub fn as_str(self) -> (r: &'static str)
        ensures
            r@ == kind_name(self),
    {
        match self {
            Self::Absent => "absent",
            Self::HeuristicIndex => "heuristic_index",
            Self::StepEntityId => "step_entity_id",
            Self::StepAdvancedFaceName => "step_advanced_face_name",
            Self::BridgeFaceId => "bridge_face_id",
        }
    }

    /// Identity kinds that may back immutable boundary assignments.
    pub fn is_evidence_safe(self) -> (r: bool)
        ensures
            r == kind_is_safe(self),
    {
        match self {
            Self::StepEntityId | Self::StepAdvancedFaceName | Self::BridgeFaceId => true,
            Self::Absent | Self::HeuristicIndex => false,
        }
    }
}

/// One face or region identity attached to a named assignment or tessellated face.
#[derive(Clone, Debug, PartialEq, Eq)]
pub struct FaceIdentity {
    pub kind: FaceIdentityKind,
    pub stable_id: String,
    pub signature: Option<String>,
}

/// What a [`FaceIdentity`] says.
pub struct FaceIdentityView {
    pub kind: FaceIdentityKind,
    pub stable_id: Seq<char>,
    pub signature: Option<Seq<char>>,
}

pub open spec fn optional_text(text: Option<String>) -> Option<Seq<char>> {
    match text {
        Some(text) => Some(text@),
        None => None,
    }
}

impl View for FaceIdentity {
    type V = FaceIdentityView;

    open spec fn view(&self) -> FaceIdentityView {
        FaceIdentityView {
            kind: self.kind,
            stable_id: self.stable_id@,
            signature: optional_text(self.signature),
        }
    }
}

/// An identity is evidence-safe when its kind is and its id is not blank.
pub open spec fn identity_is_safe(identity: FaceIdentityView) -> bool {
    kind_is_safe(identity.kind) && !text::is_blank(identity.stable_id)
}

/// The identity of a kind with this id, and without a signature.
pub open spec fn plain_identity(kind: FaceIdentityKind, stable_id: Seq<char>) -> FaceIdentityView {
    FaceIdentityView { kind, stable_id, signature: None }
}

/// The identity that a face has by its index alone.
pub open spec fn indexed_identity(index: nat) -> FaceIdentityView {
    plain_identity(FaceIdentityKind::HeuristicIndex, "component-"@ + text::decimal(index))
}

impl FaceIdentity {
    pub fn new(kind: FaceIdentityKind, stable_id: &str) -> (r: Self)
        ensures
            r@ == (FaceIdentityView { kind, stable_id: stable_id@, signature: None }),
            r@ == plain_identity(kind, stable_id@),
    {
        Self { kind, stable_id: stable_id.to_owned(), signature: None }
    }

    pub fn heuristic_index(index: usize) -> (r: Self)
        ensures
            r@ == (FaceIdentityView {
                kind: FaceIdentityKind::HeuristicIndex,
                stable_id: "component-"@ + text::decimal(index as nat),
                signature: None,
            }),
            r@ == indexed_identity(index as nat),
    {
        let mut id = "component-".to_owned();
        id.append(text::decimal_text(index as u64).as_str());
        Self::new(FaceIdentityKind::HeuristicIndex, id.as_str())
    }

    pub fn is_evidence_safe(&self) -> (r: bool)
        ensures
            r == identity_is_safe(self@),
    {
        self.kind.is_evidence_safe() && !text::blank(self.stable_id.as_str())
    }
}

/// Classification of one named region across a reimport.
#[derive(Clone, Copy, Debug, PartialEq, Eq, Structural)]
pub enum RemapClass {
    Preserved,
    Changed,
    Added,
    Removed,
    Ambiguous,
}

#[derive(Clone, Debug, PartialEq, Eq)]
pub struct RegionRemapEntry {
    pub name: String,
    pub role: String,
    pub class: RemapClass,
    pub previous_id: Option<String>,
    pub next_id: Option<String>,
    pub detail: String,
}

/// What a [`RegionRemapEntry`] says.
pub struct RegionRemapEntryView {
    pub name: Seq<char>,
    pub role: Seq<char>,
    pub class: RemapClass,
    pub previous_id: Option<Seq<char>>,
    pub next_id: Option<Seq<char>>,
    pub detail: Seq<char>,
}

impl View for RegionRemapEntry {
    type V = RegionRemapEntryView;

    open spec fn view(&self) -> RegionRemapEntryView {
        RegionRemapEntryView {
            name: self.name@,
            role: self.role@,
            class: self.class,
            previous_id: optional_text(self.previous_id),
            next_id: optional_text(self.next_id),
            detail: self.detail@,
        }
    }
}

#[derive(Clone, Debug, Default, PartialEq, Eq)]
pub struct RegionRemapReport {
    pub entries: Vec<RegionRemapEntry>,
}

impl View for RegionRemapReport {
    type V = Seq<RegionRemapEntryView>;

    open spec fn view(&self) -> Seq<RegionRemapEntryView> {
        self.entries@.map_values(|entry: RegionRemapEntry| entry@)
    }
}

/// An entry for a region with a role that is gone.
pub open spec fn is_removed_assigned(entry: RegionRemapEntryView) -> bool {
    entry.class is Removed && entry.role.len() > 0
}

impl RegionRemapReport {
    pub fn has_ambiguous(&self) -> (r: bool)
        ensures
            r == exists|i: int| 0 <= i < self@.len() && (#[trigger] self@[i]).class is Ambiguous,
    {
        let mut i: usize = 0;
        while i < self.entries.len()
            invariant
                i <= self.entries@.len(),
                forall|j: int| 0 <= j < i ==> !((#[trigger] self@[j]).class is Ambiguous),
            decreases self.entries@.len() - i,
        {
            if self.entries[i].class == RemapClass::Ambiguous {
                proof {
                    assert(self@[i as int].class is Ambiguous);
                }
                return true;
            }
            i += 1;
        }
        false
    }

    pub fn has_removed_assigned(&self) -> (r: bool)
        ensures
            r == exists|i: int| 0 <= i < self@.len() && is_removed_assigned(#[trigger] self@[i]),
    {
        let mut i: usize = 0;
        while i < self.entries.len()
            invariant
                i <= self.entries@.len(),
                forall|j: int| 0 <= j < i ==> !is_removed_assigned(#[trigger] self@[j]),
            decreases self.entries@.len() - i,
        {
            if self.entries[i].class == RemapClass::Removed && !self.entries[i].role.as_str().is_empty() {
                proof {
                    assert(is_removed_assigned(self@[i as int]));
                }
                return true;
            }
            i += 1;
        }
        false
    }
}

#[derive(Clone, Debug, PartialEq, Eq)]
pub struct NamedRegionIdentity {
    pub name: String,
    pub role: String,
    pub identity: FaceIdentity,
}

/// What a [`NamedRegionIdentity`] says.
pub struct NamedRegionView {
    pub name: Seq<char>,
    pub role: Seq<char>,
    pub identity: FaceIdentityView,
}

impl View for NamedRegionIdentity {
    type V = NamedRegionView;

    open spec fn view(&self) -> NamedRegionView {
        NamedRegionView { name: self.name@, role: self.role@, identity: self.identity@ }
    }
}

/// What each region of a list says.
pub open spec fn region_views(regions: Seq<NamedRegionIdentity>) -> Seq<NamedRegionView> {
    regions.map_values(|region: NamedRegionIdentity| region@)
}

/// `candidate` carries the stable id `id` in an evidence-safe way.
pub open spec fn carries(candidate: NamedRegionView, id: Seq<char>) -> bool {
    identity_is_safe(candidate.identity) && candidate.identity.stable_id == id
}

/// The positions in `next` of the regions that carry `id`, in order.
pub open spec fn carriers(next: Seq<NamedRegionView>, id: Seq<char>) -> Seq<int>
    decreases next.len(),
{
    if next.len() == 0 {
        Seq::empty()
    } else {
        let before = carriers(next.drop_last(), id);
        if carries(next.last(), id) {
            before.push(next.len() - 1)
        } else {
            before
        }
    }
}

/// `prior` is followed into `next` at position `k`: it is evidence-safe and
/// `k` alone carries its stable id.
pub open spec fn claims(prior: NamedRegionView, next: Seq<NamedRegionView>, k: int) -> bool {
    identity_is_safe(prior.identity) && carriers(next, prior.identity.stable_id) == seq![k]
}

/// One of the first `p` previous regions is followed to position `k`.
pub open spec fn claimed(
    previous: Seq<NamedRegionView>,
    next: Seq<NamedRegionView>,
    p: int,
    k: int,
) -> bool {
    exists|q: int| 0 <= q < p && claims(#[trigger] previous[q], next, k)
}

/// The class of a previous region that is followed to `candidate`.
pub open spec fn followed_class(prior: NamedRegionView, candidate: NamedRegionView) -> RemapClass {
    if candidate.role == prior.role && candidate.name == prior.name {
        RemapClass::Preserved
    } else {
        RemapClass::Changed
    }
}

pub open spec fn followed_detail(prior: NamedRegionView, candidate: NamedRegionView) -> Seq<char> {
    if followed_class(prior, candidate) is Preserved {
        "stable face identity preserved"@
    } else {
        "stable face identity preserved but label/role changed ("@ + prior.name + " / "@ + prior.role
            + " → "@ + candidate.name + " / "@ + candidate.role + ")"@
    }
}

/// What the report says of the previous region at position `p`.
///
/// A region that is not evidence-safe is ambiguous. A safe one is removed when
/// no region of `next` carries its id, or when the only one that does is
/// already taken by an earlier previous region with the same id. It is
/// ambiguous when several regions carry its id, and otherwise followed.
pub open spec fn prior_entry(
    previous: Seq<NamedRegionView>,
    next: Seq<NamedRegionView>,
    p: int,
) -> RegionRemapEntryView {
    let prior = previous[p];
    let id = prior.identity.stable_id;
    let found = carriers(next, id);
    let entry = RegionRemapEntryView {
        name: prior.name,
        role: prior.role,
        class: RemapClass::Ambiguous,
        previous_id: Some(id),
        next_id: None,
        detail: Seq::empty(),
    };
    if !identity_is_safe(prior.identity) {
        RegionRemapEntryView {
            detail: "previous identity kind "@ + kind_name(prior.identity.kind)
                + " is not evidence-safe; refusing silent remap"@,
            ..entry
        }
    } else if found.len() == 0 || (found.len() == 1 && claimed(previous, next, p, found[0])) {
        RegionRemapEntryView {
            class: RemapClass::Removed,
            detail: "stable face identity is absent after reimport"@,
            ..entry
        }
    } else if found.len() == 1 {
        RegionRemapEntryView {
            class: followed_class(prior, next[found[0]]),
            next_id: Some(next[found[0]].identity.stable_id),
            detail: followed_detail(prior, next[found[0]]),
            ..entry
        }
    } else {
        RegionRemapEntryView {
            detail: text::decimal(found.len()) + " faces share stable id "@ + id
                + "; refusing silent remap"@,
            ..entry
        }
    }
}

/// What the report says of a next region that no previous region is followed to.
pub open spec fn arrival_entry(candidate: NamedRegionView) -> RegionRemapEntryView {
    let safe = identity_is_safe(candidate.identity);
    RegionRemapEntryView {
        name: candidate.name,
        role: candidate.role,
        class: if safe {
            RemapClass::Added
        } else {
            RemapClass::Ambiguous
        },
        previous_id: None,
        next_id: Some(candidate.identity.stable_id),
        detail: if safe {
            "new stable face identity after reimport"@
        } else {
            "new identity kind "@ + kind_name(candidate.identity.kind) + " is not evidence-safe"@
        },
    }
}

/// The entries for those of the first `k` next regions that no previous region
/// is followed to, in order.
pub open spec fn arrivals(
    previous: Seq<NamedRegionView>,
    next: Seq<NamedRegionView>,
    k: int,
) -> Seq<RegionRemapEntryView>
    decreases k,
{
    if k <= 0 {
        Seq::empty()
    } else if claimed(previous, next, previous.len() as int, k - 1) {
        arrivals(previous, next, k - 1)
    } else {
        arrivals(previous, next, k - 1).push(arrival_entry(next[k - 1]))
    }
}

/// The whole report: one entry for each previous region, in order, and then
/// one for each next region that none of them is followed to.
pub open spec fn remap(
    previous: Seq<NamedRegionView>,
    next: Seq<NamedRegionView>,
) -> Seq<RegionRemapEntryView> {
    Seq::new(previous.len(), |p: int| prior_entry(previous, next, p)) + arrivals(
        previous,
        next,
        next.len() as int,
    )
}

pub(crate) proof fn lemma_carriers(next: Seq<NamedRegionView>, id: Seq<char>)
    ensures
        forall|i: int|
            0 <= i < carriers(next, id).len() ==> {
                &&& 0 <= #[trigger] carriers(next, id)[i] < next.len()
                &&& carries(next[carriers(next, id)[i]], id)
            },
        forall|k: int|
            0 <= k < next.len() && carries(#[trigger] next[k], id) ==> carriers(next, id).contains(
                k,
            ),
        forall|i: int, j: int|
            0 <= i < j < carriers(next, id).len() ==> carriers(next, id)[i] < carriers(next, id)[j],
    decreases next.len(),
{
    if next.len() > 0 {
        let rest = next.drop_last();
        lemma_carriers(rest, id);
        let before = carriers(rest, id);
        let all = carriers(next, id);
        assert forall|i: int| 0 <= i < all.len() implies {
            &&& 0 <= #[trigger] all[i] < next.len()
            &&& carries(next[all[i]], id)
        } by {
            if i < before.len() {
                assert(all[i] == before[i]);
                assert(rest[before[i]] == next[before[i]]);
            }
        }
        assert forall|k: int| 0 <= k < next.len() && carries(
            #[trigger] next[k],
            id,
        ) implies all.contains(k) by {
            if k < next.len() - 1 {
                assert(rest[k] == next[k]);
                assert(before.contains(k));
                let i = choose|i: int| 0 <= i < before.len() && before[i] == k;
                assert(all[i] == k);
            } else {
                assert(all[all.len() - 1] == k);
            }
        }
        assert forall|i: int, j: int| 0 <= i < j < all.len() implies all[i] < all[j] by {
            assert(all[i] == before[i]);
            if j < before.len() {
                assert(all[j] == before[j]);
            }
        }
    }
}

/// The positions among the first `upto` of `next` that carry `id` and are
/// still free.
spec fn free_carriers(
    next: Seq<NamedRegionView>,
    taken: Seq<bool>,
    id: Seq<char>,
    upto: int,
) -> Seq<int>
    decreases upto,
{
    if upto <= 0 {
        Seq::empty()
    } else {
        let before = free_carriers(next, taken, id, upto - 1);
        if carries(next[upto - 1], id) && !taken[upto - 1] {
            before.push(upto - 1)
        } else {
            before
        }
    }
}

proof fn lemma_free_carriers_all(
    next: Seq<NamedRegionView>,
    taken: Seq<bool>,
    id: Seq<char>,
    upto: int,
)
    requires
        0 <= upto <= next.len(),
        forall|k: int| 0 <= k < next.len() && carries(#[trigger] next[k], id) ==> !taken[k],
    ensures
        free_carriers(next, taken, id, upto) == carriers(next.take(upto), id),
    decreases upto,
{
    if upto > 0 {
        lemma_free_carriers_all(next, taken, id, upto - 1);
        assert(next.take(upto).drop_last() =~= next.take(upto - 1));
        assert(next.take(upto).last() == next[upto - 1]);
    }
}

proof fn lemma_free_carriers_none(
    next: Seq<NamedRegionView>,
    taken: Seq<bool>,
    id: Seq<char>,
    upto: int,
)
    requires
        0 <= upto <= next.len(),
        forall|k: int| 0 <= k < next.len() && carries(#[trigger] next[k], id) ==> taken[k],
    ensures
        free_carriers(next, taken, id, upto).len() == 0,
    decreases upto,
{
    if upto > 0 {
        lemma_free_carriers_none(next, taken, id, upto - 1);
        assert(carries(next[upto - 1], id) ==> taken[upto - 1]);
    }
}

/// While `taken` records what earlier previous regions were followed to, the
/// free carriers of an id are all its carriers, unless the only one is taken.
proof fn lemma_free_carriers(
    previous: Seq<NamedRegionView>,
    next: Seq<NamedRegionView>,
    taken: Seq<bool>,
    p: int,
    id: Seq<char>,
)
    requires
        taken.len() == next.len(),
        forall|k: int| 0 <= k < next.len() ==> #[trigger] taken[k] == claimed(previous, next, p, k),
    ensures
        free_carriers(next, taken, id, next.len() as int) == (if carriers(next, id).len() == 1
            && claimed(previous, next, p, carriers(next, id)[0]) {
            Seq::<int>::empty()
        } else {
            carriers(next, id)
        }),
{
    let found = carriers(next, id);
    lemma_carriers(next, id);
    assert(next.take(next.len() as int) =~= next);
    if found.len() == 1 && claimed(previous, next, p, found[0]) {
        assert forall|k: int| 0 <= k < next.len() && carries(
            #[trigger] next[k],
            id,
        ) implies taken[k] by {
            assert(found.contains(k));
        }
        lemma_free_carriers_none(next, taken, id, next.len() as int);
        assert(free_carriers(next, taken, id, next.len() as int) =~= Seq::<int>::empty());
    } else {
        assert forall|k: int| 0 <= k < next.len() && carries(
            #[trigger] next[k],
            id,
        ) implies !taken[k] by {
            assert(found.contains(k));
            if taken[k] {
                let q = choose|q: int| 0 <= q < p && claims(#[trigger] previous[q], next, k);
                let held = carriers(next, previous[q].identity.stable_id);
                lemma_carriers(next, previous[q].identity.stable_id);
                assert(held[0] == k);
                assert(carries(next[k], previous[q].identity.stable_id));
                assert(held == found);
                assert(found[0] == k);
            }
        }
        lemma_free_carriers_all(next, taken, id, next.len() as int);
    }
}

/// `before`, `middle` and `after` in one string.
fn surround(before: &str, middle: &str, after: &str) -> (r: String)
    ensures
        r@ == before@ + middle@ + after@,
{
    let mut out = before.to_owned();
    out.append(middle);
    out.append(after);
    out
}

/// The report of a previous region that is followed to `candidate`.
fn followed_text(prior: &NamedRegionIdentity, candidate: &NamedRegionIdentity, kept: bool) -> (r: String)
    requires
        kept == (followed_class(prior@, candidate@) is Preserved),
    ensures
        r@ == followed_detail(prior@, candidate@),
{
    if kept {
        return "stable face identity preserved".to_owned();
    }
    let mut out = "stable face identity preserved but label/role changed (".to_owned();
    out.append(prior.name.as_str());
    out.append(" / ");
    out.append(prior.role.as_str());
    out.append(" → ");
    out.append(candidate.name.as_str());
    out.append(" / ");
    out.append(candidate.role.as_str());
    out.append(")");
    out
}

/// The positions in `next` that carry `id` and are still free.
fn free_matches(next: &[NamedRegionIdentity], taken: &Vec<bool>, id: &String) -> (r: Vec<usize>)
    requires
        taken@.len() == next@.len(),
    ensures
        r@.map_values(|k: usize| k as int) == free_carriers(
            region_views(next@),
            taken@,
            id@,
            next@.len() as int,
        ),
{
    let mut out: Vec<usize> = Vec::new();
    let mut k: usize = 0;
    proof {
        assert(out@.map_values(|k: usize| k as int) =~= Seq::<int>::empty());
    }
    while k < next.len()
        invariant
            k <= next@.len(),
            taken@.len() == next@.len(),
            out@.map_values(|k: usize| k as int) == free_carriers(
                region_views(next@),
                taken@,
                id@,
                k as int,
            ),
        decreases next@.len() - k,
    {
        proof {
            assert(region_views(next@)[k as int] == next@[k as int]@);
        }
        if !taken[k] && next[k].identity.is_evidence_safe() && next[k].identity.stable_id == *id {
            let ghost before = out@;
            out.push(k);
            proof {
                assert(out@.map_values(|k: usize| k as int) =~= before.map_values(
                    |k: usize| k as int,
                ).push(k as int));
            }
        }
        k += 1;
    }
    out
}

/// What the report says of one previous region, given what earlier ones took.
fn follow(
    previous: &[NamedRegionIdentity],
    next: &[NamedRegionIdentity],
    taken: &mut Vec<bool>,
    p: usize,
) -> (r: RegionRemapEntry)
    requires
        p < previous@.len(),
        old(taken)@.len() == next@.len(),
        forall|k: int|
            0 <= k < next@.len() ==> #[trigger] old(taken)@[k] == claimed(
                region_views(previous@),
                region_views(next@),
                p as int,
                k,
            ),
    ensures
        r@ == prior_entry(region_views(previous@), region_views(next@), p as int),
        final(taken)@.len() == next@.len(),
        forall|k: int|
            0 <= k < next@.len() ==> #[trigger] final(taken)@[k] == claimed(
                region_views(previous@),
                region_views(next@),
                p + 1,
                k,
            ),
{
    let ghost before = region_views(previous@);
    let ghost after = region_views(next@);
    let prior = &previous[p];
    proof {
        assert(before[p as int] == prior@);
        assert forall|k: int| 0 <= k < next@.len() implies claimed(before, after, p + 1, k) == (
        claimed(before, after, p as int, k) || claims(prior@, after, k)) by {
            if claims(prior@, after, k) {
                assert(claims(before[p as int], after, k));
            }
        }
    }
    let mut entry = RegionRemapEntry {
        name: prior.name.clone(),
        role: prior.role.clone(),
        class: RemapClass::Ambiguous,
        previous_id: Some(prior.identity.stable_id.clone()),
        next_id: None,
        detail: String::new(),
    };
    if !prior.identity.is_evidence_safe() {
        entry.detail = surround(
            "previous identity kind ",
            prior.identity.kind.as_str(),
            " is not evidence-safe; refusing silent remap",
        );
        return entry;
    }
    let matches = free_matches(next, taken, &prior.identity.stable_id);
    let ghost found = carriers(after, prior@.identity.stable_id);
    proof {
        lemma_free_carriers(before, after, taken@, p as int, prior@.identity.stable_id);
        lemma_carriers(after, prior@.identity.stable_id);
        assert(matches@.map_values(|k: usize| k as int).len() == matches@.len());
    }
    if matches.len() == 0 {
        entry.class = RemapClass::Removed;
        entry.detail = "stable face identity is absent after reimport".to_owned();
        proof {
            if found.len() == 1 {
                assert forall|k: int| 0 <= k < next@.len() && claims(prior@, after, k) implies claimed(
                    before,
                    after,
                    p as int,
                    k,
                ) by {
                    assert(found[0] == k);
                }
            }
        }
        entry
    } else if matches.len() == 1 {
        let index: usize = matches[0];
        proof {
            assert(matches@.map_values(|k: usize| k as int)[0] == index as int);
            assert(found =~= seq![index as int]);
            assert(after[index as int] == next@[index as int]@);
            assert forall|k: int| 0 <= k < next@.len() implies claims(prior@, after, k) == (k
                == index) by {
                if claims(prior@, after, k) {
                    assert(found[0] == k);
                }
            }
        }
        taken.set(index, true);
        let candidate = &next[index];
        let kept: bool = candidate.role == prior.role && candidate.name == prior.name;
        entry.class = if kept {
            RemapClass::Preserved
        } else {
            RemapClass::Changed
        };
        entry.next_id = Some(candidate.identity.stable_id.clone());
        entry.detail = followed_text(prior, candidate, kept);
        entry
    } else {
        let mut detail = text::decimal_text(matches.len() as u64);
        detail.append(" faces share stable id ");
        detail.append(prior.identity.stable_id.as_str());
        detail.append("; refusing silent remap");
        entry.detail = detail;
        entry
    }
}

/// What the report says of a next region that no previous region is followed to.
fn arrival(candidate: &NamedRegionIdentity) -> (r: RegionRemapEntry)
    ensures
        r@ == arrival_entry(candidate@),
{
    let safe: bool = candidate.identity.is_evidence_safe();
    let class = if safe {
        RemapClass::Added
    } else {
        RemapClass::Ambiguous
    };
    let detail = if safe {
        "new stable face identity after reimport".to_owned()
    } else {
        surround(
            "new identity kind ",
            candidate.identity.kind.as_str(),
            " is not evidence-safe",
        )
    };
    RegionRemapEntry {
        name: candidate.name.clone(),
        role: candidate.role.clone(),
        class,
        previous_id: None,
        next_id: Some(candidate.identity.stable_id.clone()),
        detail,
    }
}

/// Diff previous against next named-region identities without using triangle
/// order.
///
/// Matching is by evidence-safe `stable_id` when both sides have one. Heuristic
/// or absent identities never count as preserved across a reimport.
pub fn diff_named_region_identities(
    previous: &[NamedRegionIdentity],
    next: &[NamedRegionIdentity],
) -> (r: RegionRemapReport)
    ensures
        r@ == remap(region_views(previous@), region_views(next@)),
{
    let ghost before = region_views(previous@);
    let ghost after = region_views(next@);
    let mut entries: Vec<RegionRemapEntry> = Vec::new();
    let mut taken: Vec<bool> = Vec::new();
    let mut i: usize = 0;
    while i < next.len()
        invariant
            i <= next@.len(),
            taken@.len() == i,
            forall|k: int| 0 <= k < i ==> !(#[trigger] taken@[k]),
        decreases next@.len() - i,
    {
        taken.push(false);
        i += 1;
    }
    let ghost view = |entry: RegionRemapEntry| entry@;
    let mut p: usize = 0;
    while p < previous.len()
        invariant
            p <= previous@.len(),
            before == region_views(previous@),
            after == region_views(next@),
            taken@.len() == next@.len(),
            forall|k: int|
                0 <= k < next@.len() ==> #[trigger] taken@[k] == claimed(before, after, p as int, k),
            entries@.len() == p,
            forall|q: int| 0 <= q < p ==> (#[trigger] entries@[q])@ == prior_entry(before, after, q),
        decreases previous@.len() - p,
    {
        let entry = follow(previous, next, &mut taken, p);
        entries.push(entry);
        p += 1;
    }
    let ghost head = entries@;
    let mut k: usize = 0;
    while k < next.len()
        invariant
            k <= next@.len(),
            before == region_views(previous@),
            after == region_views(next@),
            taken@.len() == next@.len(),
            forall|j: int|
                0 <= j < next@.len() ==> #[trigger] taken@[j] == claimed(
                    before,
                    after,
                    previous@.len() as int,
                    j,
                ),
            head.len() == previous@.len(),
            forall|q: int|
                0 <= q < head.len() ==> (#[trigger] head[q])@ == prior_entry(before, after, q),
            view == (|entry: RegionRemapEntry| entry@),
            entries@.map_values(view) == head.map_values(view) + arrivals(before, after, k as int),
        decreases next@.len() - k,
    {
        proof {
            assert(after[k as int] == next@[k as int]@);
        }
        if !taken[k] {
            let ghost so_far = entries@;
            entries.push(arrival(&next[k]));
            proof {
                assert(entries@.map_values(view) =~= so_far.map_values(view).push(
                    arrival_entry(after[k as int]),
                ));
                assert(entries@.map_values(view) =~= head.map_values(view) + arrivals(
                    before,
                    after,
                    k + 1,
                ));
            }
        }
        k += 1;
    }
    proof {
        assert(head.map_values(view) =~= Seq::new(
            before.len(),
            |q: int| prior_entry(before, after, q),
        ));
    }
    RegionRemapReport { entries }
}

/// What each ambiguous entry says, in order.
pub open spec fn ambiguous_details(entries: Seq<RegionRemapEntryView>) -> Seq<Seq<char>> {
    entries.filter(|entry: RegionRemapEntryView| entry.class is Ambiguous).map_values(
        |entry: RegionRemapEntryView| entry.detail,
    )
}

/// The names of the regions with a role that are gone, in order.
pub open spec fn lost_names(entries: Seq<RegionRemapEntryView>) -> Seq<Seq<char>> {
    entries.filter(|entry: RegionRemapEntryView| is_removed_assigned(entry)).map_values(
        |entry: RegionRemapEntryView| entry.name,
    )
}

/// Whether a report may become evidence, and what is said when it may not.
pub open spec fn remap_verdict(entries: Seq<RegionRemapEntryView>) -> Result<(), Seq<char>> {
    if exists|i: int| 0 <= i < entries.len() && (#[trigger] entries[i]).class is Ambiguous {
        Err(
            "CAD face identity remap is ambiguous; boundary assignments were not updated ("@
                + text::join(ambiguous_details(entries), "; "@) + ")"@,
        )
    } else if exists|i: int| 0 <= i < entries.len() && is_removed_assigned(#[trigger] entries[i]) {
        Err(
            "CAD face identity for assigned region(s) ["@ + text::join(lost_names(entries), ", "@)
                + "] disappeared on reimport; refuse silent remap"@,
        )
    } else {
        Ok(())
    }
}

/// A verdict with its message as characters.
pub open spec fn verdict_text(verdict: Result<(), String>) -> Result<(), Seq<char>> {
    match verdict {
        Ok(()) => Ok(()),
        Err(message) => Err(message@),
    }
}

fn join_ambiguous_details(report: &RegionRemapReport) -> (r: String)
    ensures
        r@ == text::join(ambiguous_details(report@), "; "@),
{
    let mut out = String::new();
    let mut first: bool = true;
    let mut i: usize = 0;
    proof {
        assert(report@.take(0) =~= Seq::<RegionRemapEntryView>::empty());
        assert(ambiguous_details(report@.take(0)) =~= Seq::<Seq<char>>::empty());
    }
    while i < report.entries.len()
        invariant
            i <= report.entries@.len(),
            out@ == text::join(ambiguous_details(report@.take(i as int)), "; "@),
            first == (ambiguous_details(report@.take(i as int)).len() == 0),
        decreases report.entries@.len() - i,
    {
        let entry = &report.entries[i];
        let ghost written = ambiguous_details(report@.take(i as int));
        proof {
            let taken = report@.take(i + 1);
            assert(taken.drop_last() =~= report@.take(i as int));
            assert(taken.last() == entry@);
            reveal(Seq::filter);
            assert(ambiguous_details(taken) =~= (if entry.class is Ambiguous {
                written.push(entry.detail@)
            } else {
                written
            }));
        }
        if entry.class == RemapClass::Ambiguous {
            text::push_joined(&mut out, entry.detail.as_str(), "; ", first, Ghost(written));
            first = false;
        }
        i += 1;
    }
    proof {
        assert(report@.take(i as int) =~= report@);
    }
    out
}

fn join_lost_names(report: &RegionRemapReport) -> (r: String)
    ensures
        r@ == text::join(lost_names(report@), ", "@),
{
    let mut out = String::new();
    let mut first: bool = true;
    let mut i: usize = 0;
    proof {
        assert(report@.take(0) =~= Seq::<RegionRemapEntryView>::empty());
        assert(lost_names(report@.take(0)) =~= Seq::<Seq<char>>::empty());
    }
    while i < report.entries.len()
        invariant
            i <= report.entries@.len(),
            out@ == text::join(lost_names(report@.take(i as int)), ", "@),
            first == (lost_names(report@.take(i as int)).len() == 0),
        decreases report.entries@.len() - i,
    {
        let entry = &report.entries[i];
        let ghost written = lost_names(report@.take(i as int));
        proof {
            let taken = report@.take(i + 1);
            assert(taken.drop_last() =~= report@.take(i as int));
            assert(taken.last() == entry@);
            reveal(Seq::filter);
            assert(lost_names(taken) =~= (if is_removed_assigned(entry@) {
                written.push(entry.name@)
            } else {
                written
            }));
        }
        if entry.class == RemapClass::Removed && !entry.role.as_str().is_empty() {
            text::push_joined(&mut out, entry.name.as_str(), ", ", first, Ghost(written));
            first = false;
        }
        i += 1;
    }
    proof {
        assert(report@.take(i as int) =~= report@);
    }
    out
}

/// Fail closed when a reimport would silently remap or drop assigned regions.
pub fn validate_region_remap_for_evidence(report: &RegionRemapReport) -> (r: Result<(), String>)
    ensures
        verdict_text(r) == remap_verdict(report@),
{
    if report.has_ambiguous() {
        let detail = join_ambiguous_details(report);
        return Err(
            surround(
                "CAD face identity remap is ambiguous; boundary assignments were not updated (",
                detail.as_str(),
                ")",
            ),
        );
    }
    if report.has_removed_assigned() {
        let names = join_lost_names(report);
        return Err(
            surround(
                "CAD face identity for assigned region(s) [",
                names.as_str(),
                "] disappeared on reimport; refuse silent remap",
            ),
        );
    }
    Ok(())
}

/// Whether a region may be drafted on `identity`, and what is said when not.
pub open spec fn assignment_verdict(identity: FaceIdentityView) -> Result<(), Seq<char>> {
    if identity_is_safe(identity) {
        Ok(())
    } else {
        Err(
            "region assignment requires a persistent CAD face identity; got "@ + kind_name(
                identity.kind,
            ) + " ("@ + (if identity.stable_id.len() == 0 {
                "empty id"@
            } else {
                identity.stable_id
            }) + ")"@,
        )
    }
}

/// Reject drafting an evidence-bound region on a non-stable candidate.
pub fn validate_assignment_identity(identity: &FaceIdentity) -> (r: Result<(), String>)
    ensures
        verdict_text(r) == assignment_verdict(identity@),
{
    if identity.is_evidence_safe() {
        return Ok(());
    }
    let mut message = "region assignment requires a persistent CAD face identity; got ".to_owned();
    message.append(identity.kind.as_str());
    message.append(" (");
    if identity.stable_id.as_str().is_empty() {
        message.append("empty id");
    } else {
        message.append(identity.stable_id.as_str());
    }
    message.append(")");
    Err(message)
}

} // verus!
