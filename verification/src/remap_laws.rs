//! What a reimport reports, region by region, told from the regions themselves.

use crate::cad_identity;
use crate::cad_identity::{
    FaceIdentity, FaceIdentityKind, FaceIdentityView, NamedRegionIdentity, NamedRegionView,
    RegionRemapEntry, RegionRemapEntryView, RegionRemapReport,
};
use crate::text;
use vstd::prelude::*;

verus! {

/// An identity that lasts: a STEP entity, a named face or a bridge face, with an
/// id that is more than white space.
pub open spec fn is_persistent(identity: FaceIdentityView) -> bool {
    &&& match identity.kind {
        FaceIdentityKind::Absent => false,
        FaceIdentityKind::HeuristicIndex => false,
        FaceIdentityKind::StepEntityId => true,
        FaceIdentityKind::StepAdvancedFaceName => true,
        FaceIdentityKind::BridgeFaceId => true,
    }
    &&& exists|i: int|
        0 <= i < identity.stable_id.len() && !text::is_white_space(#[trigger] identity.stable_id[i])
}

/// The region bears the id `id`, and it lasts.
pub open spec fn bears(region: NamedRegionView, id: Seq<char>) -> bool {
    is_persistent(region.identity) && region.identity.stable_id == id
}

/// The region at `k` bears `id`, and no other region of `next` does.
pub open spec fn bears_alone(next: Seq<NamedRegionView>, k: int, id: Seq<char>) -> bool {
    &&& 0 <= k < next.len()
    &&& bears(next[k], id)
    &&& forall|other: int| 0 <= other < next.len() && bears(#[trigger] next[other], id) ==> other == k
}

/// `places` are, in ascending order, all the places below `n` that pass `test`.
pub open spec fn lists(places: Seq<int>, n: nat, test: spec_fn(int) -> bool) -> bool {
    &&& forall|i: int| 0 <= i < places.len() ==> 0 <= #[trigger] places[i] < n && test(places[i])
    &&& forall|k: int| 0 <= k < n && #[trigger] test(k) ==> places.contains(k)
    &&& forall|i: int, j: int| 0 <= i < j < places.len() ==> places[i] < places[j]
}

/// The recorded name of each kind, and which kinds last.
pub proof fn kinds_are_told_apart()
    ensures
        cad_identity::kind_name(FaceIdentityKind::Absent) == "absent"@,
        cad_identity::kind_name(FaceIdentityKind::HeuristicIndex) == "heuristic_index"@,
        cad_identity::kind_name(FaceIdentityKind::StepEntityId) == "step_entity_id"@,
        cad_identity::kind_name(FaceIdentityKind::StepAdvancedFaceName)
            == "step_advanced_face_name"@,
        cad_identity::kind_name(FaceIdentityKind::BridgeFaceId) == "bridge_face_id"@,
        !cad_identity::kind_is_safe(FaceIdentityKind::Absent),
        !cad_identity::kind_is_safe(FaceIdentityKind::HeuristicIndex),
        cad_identity::kind_is_safe(FaceIdentityKind::StepEntityId),
        cad_identity::kind_is_safe(FaceIdentityKind::StepAdvancedFaceName),
        cad_identity::kind_is_safe(FaceIdentityKind::BridgeFaceId),
{
}

/// An identity is evidence-safe exactly where it lasts.
pub proof fn safe_identities_last(identity: FaceIdentityView)
    ensures
        cad_identity::identity_is_safe(identity) <==> is_persistent(identity),
{
}

/// An identity is made of its kind and its id, and has no signature. One that is
/// made of an index alone is told by it and never lasts.
pub proof fn identities_are_made_plainly(kind: FaceIdentityKind, stable_id: Seq<char>, index: nat)
    ensures
        cad_identity::plain_identity(kind, stable_id).kind == kind,
        cad_identity::plain_identity(kind, stable_id).stable_id == stable_id,
        cad_identity::plain_identity(kind, stable_id).signature is None,
        cad_identity::indexed_identity(index).kind == FaceIdentityKind::HeuristicIndex,
        cad_identity::indexed_identity(index).stable_id == "component-"@ + text::decimal(index),
        cad_identity::indexed_identity(index).signature is None,
        !is_persistent(cad_identity::indexed_identity(index)),
{
}

proof fn lemma_bears(region: NamedRegionView, id: Seq<char>)
    ensures
        cad_identity::carries(region, id) <==> bears(region, id),
{
    safe_identities_last(region.identity);
}

/// Two lists of the same places agree.
proof fn lemma_lists_agree(left: Seq<int>, right: Seq<int>)
    requires
        forall|i: int, j: int| 0 <= i < j < left.len() ==> left[i] < left[j],
        forall|i: int, j: int| 0 <= i < j < right.len() ==> right[i] < right[j],
        forall|k: int| #[trigger] left.contains(k) <==> right.contains(k),
    ensures
        left == right,
    decreases left.len(),
{
    if left.len() == 0 {
        if right.len() > 0 {
            assert(right.contains(right[0]));
            assert(left.contains(right[0]));
        }
        assert(left =~= right);
    } else {
        let last = left[left.len() - 1];
        assert(left.contains(last));
        assert(right.contains(last));
        let at = choose|at: int| 0 <= at < right.len() && right[at] == last;
        if at < right.len() - 1 {
            let more = right[right.len() - 1];
            assert(right.contains(more));
            assert(left.contains(more));
            assert(right[at] < more);
        }
        let (a, b) = (left.drop_last(), right.drop_last());
        assert forall|k: int| #[trigger] a.contains(k) <==> b.contains(k) by {
            if a.contains(k) {
                let i = choose|i: int| 0 <= i < a.len() && a[i] == k;
                assert(left[i] == k && k < last);
                assert(left.contains(k));
                let j = choose|j: int| 0 <= j < right.len() && right[j] == k;
                assert(b[j] == k);
            }
            if b.contains(k) {
                let i = choose|i: int| 0 <= i < b.len() && b[i] == k;
                assert(right[i] == k && k < last);
                assert(right.contains(k));
                assert(left.contains(k));
                let j = choose|j: int| 0 <= j < left.len() && left[j] == k;
                assert(a[j] == k);
            }
        }
        lemma_lists_agree(a, b);
        assert(left =~= a.push(last));
        assert(right =~= b.push(last));
    }
}

/// The carriers of an id are the places of the regions that bear it.
proof fn lemma_carriers_are_listed(next: Seq<NamedRegionView>, id: Seq<char>, places: Seq<int>)
    requires
        lists(places, next.len(), |k: int| bears(next[k], id)),
    ensures
        cad_identity::carriers(next, id) == places,
{
    let found = cad_identity::carriers(next, id);
    cad_identity::lemma_carriers(next, id);
    let test = |k: int| bears(next[k], id);
    assert forall|k: int| #[trigger] found.contains(k) <==> places.contains(k) by {
        if found.contains(k) {
            let i = choose|i: int| 0 <= i < found.len() && found[i] == k;
            lemma_bears(next[k], id);
            assert(test(k));
        }
        if places.contains(k) {
            let i = choose|i: int| 0 <= i < places.len() && places[i] == k;
            assert(test(places[i]));
            lemma_bears(next[k], id);
        }
    }
    lemma_lists_agree(found, places);
}

proof fn lemma_claims_alone(prior: NamedRegionView, next: Seq<NamedRegionView>, k: int)
    ensures
        cad_identity::claims(prior, next, k) <==> is_persistent(prior.identity) && bears_alone(
            next,
            k,
            prior.identity.stable_id,
        ),
{
    let id = prior.identity.stable_id;
    safe_identities_last(prior.identity);
    let found = cad_identity::carriers(next, id);
    cad_identity::lemma_carriers(next, id);
    if found == seq![k] {
        assert(found[0] == k);
        lemma_bears(next[k], id);
        assert forall|other: int|
            0 <= other < next.len() && bears(#[trigger] next[other], id) implies other == k by {
            lemma_bears(next[other], id);
            assert(found.contains(other));
        }
    }
    if bears_alone(next, k, id) {
        let places = seq![k];
        let test = |k: int| bears(next[k], id);
        assert forall|j: int| 0 <= j < next.len() && #[trigger] test(j) implies places.contains(
            j,
        ) by {
            assert(bears(next[j], id));
            assert(places[0] == j);
        }
        lemma_carriers_are_listed(next, id, places);
    }
}

/// An earlier region bears the same id.
pub open spec fn is_repeated(previous: Seq<NamedRegionView>, p: int) -> bool {
    exists|q: int| 0 <= q < p && bears(#[trigger] previous[q], previous[p].identity.stable_id)
}

/// What is reported of a previous region.
///
/// It is named as it was. Where its identity does not last, it is ambiguous.
/// Where no region of the new import bears its id, it is removed; so is it where
/// the only one that does has been given to an earlier region with that id.
/// Where exactly one bears it otherwise, it is followed there: it is preserved if
/// and only if its name and its role are those of that region, and changed where
/// either differs, with both labels told. Where several bear it, it is ambiguous,
/// and how many is told.
pub proof fn previous_regions_are_reported(
    previous: Seq<NamedRegionView>,
    next: Seq<NamedRegionView>,
    p: int,
    k: int,
    places: Seq<int>,
)
    requires
        0 <= p < previous.len(),
    ensures
        ({
            let prior = previous[p];
            let id = prior.identity.stable_id;
            let entry = cad_identity::remap(previous, next)[p];
            let persistent = is_persistent(prior.identity);
            let nowhere = forall|j: int| 0 <= j < next.len() ==> !bears(#[trigger] next[j], id);
            &&& cad_identity::remap(previous, next).len() >= previous.len()
            &&& entry.name == prior.name && entry.role == prior.role && entry.previous_id == Some(
                id,
            )
            &&& !persistent ==> entry.class is Ambiguous && entry.next_id is None && entry.detail
                == "previous identity kind "@ + cad_identity::kind_name(prior.identity.kind)
                + " is not evidence-safe; refusing silent remap"@
            &&& persistent && (nowhere || (bears_alone(next, k, id) && is_repeated(previous, p)))
                ==> entry.class is Removed && entry.next_id is None && entry.detail
                == "stable face identity is absent after reimport"@
            &&& persistent && bears_alone(next, k, id) && !is_repeated(previous, p) ==> {
                &&& entry.next_id == Some(id)
                &&& entry.class is Preserved <==> next[k].name == prior.name && next[k].role
                    == prior.role
                &&& entry.class is Changed <==> next[k].name != prior.name || next[k].role
                    != prior.role
                &&& entry.class is Preserved ==> entry.detail == "stable face identity preserved"@
                &&& entry.class is Changed ==> entry.detail
                    == "stable face identity preserved but label/role changed ("@ + prior.name
                    + " / "@ + prior.role + " → "@ + next[k].name + " / "@ + next[k].role + ")"@
            }
            &&& persistent && lists(places, next.len(), |j: int| bears(next[j], id))
                && places.len() >= 2 ==> entry.class is Ambiguous && entry.next_id is None
                && entry.detail == text::decimal(places.len()) + " faces share stable id "@ + id
                + "; refusing silent remap"@
        }),
{
    let prior = previous[p];
    let id = prior.identity.stable_id;
    let found = cad_identity::carriers(next, id);
    safe_identities_last(prior.identity);
    cad_identity::lemma_carriers(next, id);
    assert(cad_identity::remap(previous, next)[p] == cad_identity::prior_entry(previous, next, p));
    if forall|j: int| 0 <= j < next.len() ==> !bears(#[trigger] next[j], id) {
        if found.len() > 0 {
            lemma_bears(next[found[0]], id);
        }
    }
    if is_persistent(prior.identity) && bears_alone(next, k, id) {
        lemma_claims_alone(prior, next, k);
        assert(found =~= seq![k]);
        assert(cad_identity::claimed(previous, next, p, k) <==> is_repeated(previous, p)) by {
            if cad_identity::claimed(previous, next, p, k) {
                let q = choose|q: int|
                    0 <= q < p && cad_identity::claims(#[trigger] previous[q], next, k);
                lemma_claims_alone(previous[q], next, k);
                assert(bears(previous[q], id));
            }
            if is_repeated(previous, p) {
                let q = choose|q: int| 0 <= q < p && bears(#[trigger] previous[q], id);
                lemma_claims_alone(previous[q], next, k);
                assert(cad_identity::claims(previous[q], next, k));
            }
        }
    }
    if lists(places, next.len(), |j: int| bears(next[j], id)) {
        lemma_carriers_are_listed(next, id, places);
    }
}

/// Some region of the previous import is followed to the region at `k`.
pub open spec fn is_followed_to(
    previous: Seq<NamedRegionView>,
    next: Seq<NamedRegionView>,
    k: int,
) -> bool {
    exists|q: int|
        0 <= q < previous.len() && is_persistent((#[trigger] previous[q]).identity) && bears_alone(
            next,
            k,
            previous[q].identity.stable_id,
        )
}

proof fn lemma_claimed_is_followed(
    previous: Seq<NamedRegionView>,
    next: Seq<NamedRegionView>,
    k: int,
)
    ensures
        cad_identity::claimed(previous, next, previous.len() as int, k) <==> is_followed_to(
            previous,
            next,
            k,
        ),
{
    if cad_identity::claimed(previous, next, previous.len() as int, k) {
        let q = choose|q: int|
            0 <= q < previous.len() && cad_identity::claims(#[trigger] previous[q], next, k);
        lemma_claims_alone(previous[q], next, k);
        assert(is_persistent(previous[q].identity));
    }
    if is_followed_to(previous, next, k) {
        let q = choose|q: int|
            0 <= q < previous.len() && is_persistent((#[trigger] previous[q]).identity)
                && bears_alone(next, k, previous[q].identity.stable_id);
        lemma_claims_alone(previous[q], next, k);
        assert(cad_identity::claims(previous[q], next, k));
    }
}

proof fn lemma_arrivals(
    previous: Seq<NamedRegionView>,
    next: Seq<NamedRegionView>,
    n: nat,
    places: Seq<int>,
)
    requires
        n <= next.len(),
        lists(places, n, |k: int| !is_followed_to(previous, next, k)),
    ensures
        cad_identity::arrivals(previous, next, n as int) == Seq::new(
            places.len(),
            |i: int| cad_identity::arrival_entry(next[places[i]]),
        ),
    decreases n,
{
    let test = |k: int| !is_followed_to(previous, next, k);
    let all = cad_identity::arrivals(previous, next, n as int);
    if n == 0 {
        if places.len() > 0 {
            assert(0 <= places[0] < n);
        }
        assert(all =~= Seq::new(
            places.len(),
            |i: int| cad_identity::arrival_entry(next[places[i]]),
        ));
    } else {
        let last = n - 1;
        lemma_claimed_is_followed(previous, next, last);
        if test(last) {
            assert(places.contains(last));
            let at = choose|at: int| 0 <= at < places.len() && places[at] == last;
            if at < places.len() - 1 {
                assert(places[at] < places[places.len() - 1]);
            }
            let rest = places.drop_last();
            assert forall|k: int| 0 <= k < n - 1 && #[trigger] test(k) implies rest.contains(k) by {
                let i = choose|i: int| 0 <= i < places.len() && places[i] == k;
                assert(rest[i] == k);
            }
            assert forall|i: int| 0 <= i < rest.len() implies 0 <= #[trigger] rest[i] < n - 1
                && test(rest[i]) by {
                assert(rest[i] == places[i]);
                assert(places[i] < places[places.len() - 1]);
            }
            lemma_arrivals(previous, next, (n - 1) as nat, rest);
        } else {
            assert forall|i: int| 0 <= i < places.len() implies 0 <= #[trigger] places[i] < n - 1
                && test(places[i]) by {}
            lemma_arrivals(previous, next, (n - 1) as nat, places);
        }
        assert(all =~= Seq::new(
            places.len(),
            |i: int| cad_identity::arrival_entry(next[places[i]]),
        ));
    }
}

/// Behind the previous regions, the regions of the new import that none of them
/// is followed to are reported, each once and in their order: as added where
/// their identity lasts, and as ambiguous where it does not.
pub proof fn new_regions_are_reported(
    previous: Seq<NamedRegionView>,
    next: Seq<NamedRegionView>,
    places: Seq<int>,
    i: int,
)
    requires
        lists(places, next.len(), |k: int| !is_followed_to(previous, next, k)),
    ensures
        cad_identity::remap(previous, next).len() == previous.len() + places.len(),
        0 <= i < places.len() ==> {
            let region = next[places[i]];
            let entry = cad_identity::remap(previous, next)[previous.len() + i];
            &&& entry.name == region.name && entry.role == region.role
            &&& entry.previous_id is None && entry.next_id == Some(region.identity.stable_id)
            &&& is_persistent(region.identity) ==> entry.class is Added && entry.detail
                == "new stable face identity after reimport"@
            &&& !is_persistent(region.identity) ==> entry.class is Ambiguous && entry.detail
                == "new identity kind "@ + cad_identity::kind_name(region.identity.kind)
                + " is not evidence-safe"@
        },
{
    lemma_arrivals(previous, next, next.len(), places);
    if 0 <= i < places.len() {
        safe_identities_last(next[places[i]].identity);
    }
}

/// A filter keeps the items at the places that pass, in order.
proof fn lemma_filter_places<A>(items: Seq<A>, pred: spec_fn(A) -> bool, places: Seq<int>)
    requires
        lists(places, items.len(), |k: int| pred(items[k])),
    ensures
        items.filter(pred) == Seq::new(places.len(), |i: int| items[places[i]]),
    decreases items.len(),
{
    reveal(Seq::filter);
    let test = |k: int| pred(items[k]);
    let kept = Seq::new(places.len(), |i: int| items[places[i]]);
    if items.len() == 0 {
        if places.len() > 0 {
            assert(0 <= places[0] < items.len());
        }
        assert(items.filter(pred) =~= kept);
    } else {
        let rest = items.drop_last();
        let last = items.len() - 1;
        let less = |k: int| pred(rest[k]);
        if test(last) {
            assert(places.contains(last));
            let at = choose|at: int| 0 <= at < places.len() && places[at] == last;
            if at < places.len() - 1 {
                assert(places[at] < places[places.len() - 1]);
            }
            let fewer = places.drop_last();
            assert forall|k: int| 0 <= k < rest.len() && #[trigger] less(k) implies fewer.contains(
                k,
            ) by {
                assert(test(k));
                let i = choose|i: int| 0 <= i < places.len() && places[i] == k;
                assert(fewer[i] == k);
            }
            assert forall|i: int| 0 <= i < fewer.len() implies 0 <= #[trigger] fewer[i] < rest.len()
                && less(fewer[i]) by {
                assert(fewer[i] == places[i]);
                assert(places[i] < places[places.len() - 1]);
                assert(test(places[i]));
            }
            lemma_filter_places(rest, pred, fewer);
            assert(kept =~= Seq::new(fewer.len(), |i: int| rest[fewer[i]]).push(items.last()));
        } else {
            assert forall|i: int| 0 <= i < places.len() implies 0 <= #[trigger] places[i]
                < rest.len() && less(places[i]) by {
                assert(test(places[i]));
                assert(places[i] != last);
            }
            assert forall|k: int| 0 <= k < rest.len() && #[trigger] less(k) implies places.contains(
                k,
            ) by {
                assert(test(k));
            }
            lemma_filter_places(rest, pred, places);
            assert(kept =~= Seq::new(places.len(), |i: int| rest[places[i]]));
        }
    }
}

/// A report passes as evidence exactly where nothing in it is ambiguous and no
/// region with a role is removed. Otherwise the details of what is ambiguous are
/// told, in order; or else the names of the regions with a role that are gone.
pub proof fn evidence_is_refused_for_cause(
    entries: Seq<RegionRemapEntryView>,
    ambiguous: Seq<int>,
    lost: Seq<int>,
)
    requires
        lists(ambiguous, entries.len(), |i: int| entries[i].class is Ambiguous),
        lists(lost, entries.len(), |i: int| entries[i].class is Removed && entries[i].role.len() > 0),
    ensures
        cad_identity::remap_verdict(entries) is Ok <==> ambiguous.len() == 0 && lost.len() == 0,
        ambiguous.len() > 0 ==> cad_identity::remap_verdict(entries) == Err::<(), Seq<char>>(
            "CAD face identity remap is ambiguous; boundary assignments were not updated ("@
                + text::join(
                Seq::new(ambiguous.len(), |i: int| entries[ambiguous[i]].detail),
                "; "@,
            ) + ")"@,
        ),
        ambiguous.len() == 0 && lost.len() > 0 ==> cad_identity::remap_verdict(entries) == Err::<
            (),
            Seq<char>,
        >(
            "CAD face identity for assigned region(s) ["@ + text::join(
                Seq::new(lost.len(), |i: int| entries[lost[i]].name),
                ", "@,
            ) + "] disappeared on reimport; refuse silent remap"@,
        ),
{
    let is_ambiguous = |entry: RegionRemapEntryView| entry.class is Ambiguous;
    let is_lost = |entry: RegionRemapEntryView| cad_identity::is_removed_assigned(entry);
    let test = |i: int| entries[i].class is Ambiguous;
    let gone = |i: int| entries[i].class is Removed && entries[i].role.len() > 0;
    assert(lists(ambiguous, entries.len(), |k: int| is_ambiguous(entries[k]))) by {
        assert forall|k: int| 0 <= k < entries.len() && #[trigger] is_ambiguous(
            entries[k],
        ) implies ambiguous.contains(k) by {
            assert(test(k));
        }
        assert forall|i: int| 0 <= i < ambiguous.len() implies is_ambiguous(
            entries[#[trigger] ambiguous[i]],
        ) by {
            assert(test(ambiguous[i]));
        }
    }
    assert(lists(lost, entries.len(), |k: int| is_lost(entries[k]))) by {
        assert forall|k: int| 0 <= k < entries.len() && #[trigger] is_lost(
            entries[k],
        ) implies lost.contains(k) by {
            assert(gone(k));
        }
        assert forall|i: int| 0 <= i < lost.len() implies is_lost(entries[#[trigger] lost[i]]) by {
            assert(gone(lost[i]));
        }
    }
    lemma_filter_places(entries, is_ambiguous, ambiguous);
    lemma_filter_places(entries, is_lost, lost);
    assert(cad_identity::ambiguous_details(entries) =~= Seq::new(
        ambiguous.len(),
        |i: int| entries[ambiguous[i]].detail,
    ));
    assert(cad_identity::lost_names(entries) =~= Seq::new(
        lost.len(),
        |i: int| entries[lost[i]].name,
    ));
    if ambiguous.len() > 0 {
        assert(test(ambiguous[0]));
        assert(entries[ambiguous[0]].class is Ambiguous);
    } else {
        assert forall|i: int| 0 <= i < entries.len() implies !((#[trigger] entries[i]).class
            is Ambiguous) by {
            assert(!test(i) || ambiguous.contains(i));
        }
        if lost.len() > 0 {
            assert(gone(lost[0]));
            assert(cad_identity::is_removed_assigned(entries[lost[0]]));
        } else {
            assert forall|i: int| 0 <= i < entries.len() implies !cad_identity::is_removed_assigned(
                #[trigger] entries[i],
            ) by {
                assert(!gone(i) || lost.contains(i));
            }
        }
    }
}

/// A region may be drafted exactly on an identity that lasts. Otherwise its kind
/// and its id are told, or that the id is empty.
pub proof fn regions_are_drafted_on_what_lasts(identity: FaceIdentityView)
    ensures
        cad_identity::assignment_verdict(identity) is Ok <==> is_persistent(identity),
        !is_persistent(identity) ==> cad_identity::assignment_verdict(identity) == Err::<
            (),
            Seq<char>,
        >(
            "region assignment requires a persistent CAD face identity; got "@
                + cad_identity::kind_name(identity.kind) + " ("@ + (if identity.stable_id.len()
                == 0 {
                "empty id"@
            } else {
                identity.stable_id
            }) + ")"@,
        ),
{
    safe_identities_last(identity);
}

/// A region with a role that is gone, and no other entry, counts as lost.
pub proof fn lost_regions_had_a_role(entry: RegionRemapEntryView)
    ensures
        cad_identity::is_removed_assigned(entry) <==> entry.class is Removed && entry.role.len()
            > 0,
{
}

/// What is said of identities, regions and entries is what they hold.
pub proof fn identity_views_are_faithful(
    identity: FaceIdentity,
    region: NamedRegionIdentity,
    entry: RegionRemapEntry,
    report: RegionRemapReport,
    regions: Seq<NamedRegionIdentity>,
    i: int,
)
    ensures
        identity@.kind == identity.kind,
        identity@.stable_id == identity.stable_id@,
        identity@.signature is Some <==> identity.signature is Some,
        identity.signature matches Some(text) ==> identity@.signature == Some(text@),
        region@.name == region.name@ && region@.role == region.role@,
        region@.identity == region.identity@,
        entry@.name == entry.name@ && entry@.role == entry.role@ && entry@.class == entry.class,
        entry@.detail == entry.detail@,
        entry@.previous_id is Some <==> entry.previous_id is Some,
        entry.previous_id matches Some(text) ==> entry@.previous_id == Some(text@),
        entry@.next_id is Some <==> entry.next_id is Some,
        entry.next_id matches Some(text) ==> entry@.next_id == Some(text@),
        report@.len() == report.entries@.len(),
        0 <= i < report.entries@.len() ==> report@[i] == report.entries@[i]@,
        cad_identity::region_views(regions).len() == regions.len(),
        0 <= i < regions.len() ==> cad_identity::region_views(regions)[i] == regions[i]@,
        cad_identity::verdict_text(Ok(())) == Ok::<(), Seq<char>>(()),
        forall|message: String| #[trigger]
            cad_identity::verdict_text(Err(message)) == Err::<(), Seq<char>>(message@),
{
}

} // verus!
