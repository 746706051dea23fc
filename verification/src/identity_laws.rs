//! What holds of every reimport, whatever the regions are.

use crate::cad_identity;
use crate::cad_identity::NamedRegionView;
use vstd::prelude::*;

verus! {

proof fn lemma_unclaimed_arrives(
    previous: Seq<NamedRegionView>,
    next: Seq<NamedRegionView>,
    upto: int,
    k: int,
)
    requires
        0 <= k < upto <= next.len(),
        !cad_identity::claimed(previous, next, previous.len() as int, k),
    ensures
        cad_identity::arrivals(previous, next, upto).contains(cad_identity::arrival_entry(next[k])),
    decreases upto,
{
    let all = cad_identity::arrivals(previous, next, upto);
    if k == upto - 1 {
        assert(all[all.len() - 1] == cad_identity::arrival_entry(next[k]));
    } else {
        lemma_unclaimed_arrives(previous, next, upto - 1, k);
        let before = cad_identity::arrivals(previous, next, upto - 1);
        let i = choose|i: int|
            0 <= i < before.len() && before[i] == cad_identity::arrival_entry(next[k]);
        assert(all[i] == before[i]);
    }
}

proof fn lemma_claimed_is_safe(
    previous: Seq<NamedRegionView>,
    next: Seq<NamedRegionView>,
    p: int,
    k: int,
)
    requires
        cad_identity::claimed(previous, next, p, k),
    ensures
        0 <= k < next.len(),
        cad_identity::identity_is_safe(next[k].identity),
{
    let q = choose|q: int| 0 <= q < p && cad_identity::claims(#[trigger] previous[q], next, k);
    let id = previous[q].identity.stable_id;
    cad_identity::lemma_carriers(next, id);
    assert(cad_identity::carriers(next, id)[0] == k);
}

/// A heuristic, absent or blank identity on either side of a reimport is never
/// preserved: it is reported as ambiguous, and the report is refused as
/// evidence.
pub proof fn unsafe_identities_fail_closed(
    previous: Seq<NamedRegionView>,
    next: Seq<NamedRegionView>,
)
    ensures
        forall|p: int|
            0 <= p < previous.len() && !cad_identity::identity_is_safe(
                #[trigger] previous[p].identity,
            ) ==> cad_identity::remap(previous, next)[p].class is Ambiguous,
        (exists|p: int|
            0 <= p < previous.len() && !cad_identity::identity_is_safe(
                #[trigger] previous[p].identity,
            )) ==> cad_identity::remap_verdict(cad_identity::remap(previous, next)) is Err,
        (exists|k: int|
            0 <= k < next.len() && !cad_identity::identity_is_safe(#[trigger] next[k].identity))
            ==> cad_identity::remap_verdict(cad_identity::remap(previous, next)) is Err,
{
    let report = cad_identity::remap(previous, next);
    if exists|p: int|
        0 <= p < previous.len() && !cad_identity::identity_is_safe(#[trigger] previous[p].identity) {
        let p = choose|p: int|
            0 <= p < previous.len() && !cad_identity::identity_is_safe(
                #[trigger] previous[p].identity,
            );
        assert(report[p].class is Ambiguous);
    }
    if exists|k: int|
        0 <= k < next.len() && !cad_identity::identity_is_safe(#[trigger] next[k].identity) {
        let k = choose|k: int|
            0 <= k < next.len() && !cad_identity::identity_is_safe(#[trigger] next[k].identity);
        if cad_identity::claimed(previous, next, previous.len() as int, k) {
            lemma_claimed_is_safe(previous, next, previous.len() as int, k);
        }
        lemma_unclaimed_arrives(previous, next, next.len() as int, k);
        let tail = cad_identity::arrivals(previous, next, next.len() as int);
        let i = choose|i: int| 0 <= i < tail.len() && tail[i] == cad_identity::arrival_entry(next[k]);
        assert(report[previous.len() + i] == tail[i]);
        assert(report[previous.len() + i].class is Ambiguous);
    }
}

/// Two regions of the new import that carry the id of an evidence-safe region
/// make that region ambiguous.
pub proof fn shared_ids_are_ambiguous(
    previous: Seq<NamedRegionView>,
    next: Seq<NamedRegionView>,
    p: int,
    j: int,
    k: int,
)
    requires
        0 <= p < previous.len(),
        cad_identity::identity_is_safe(previous[p].identity),
        0 <= j < k < next.len(),
        cad_identity::carries(next[j], previous[p].identity.stable_id),
        cad_identity::carries(next[k], previous[p].identity.stable_id),
    ensures
        cad_identity::remap(previous, next)[p].class is Ambiguous,
{
    let id = previous[p].identity.stable_id;
    cad_identity::lemma_carriers(next, id);
    let found = cad_identity::carriers(next, id);
    assert(found.contains(j) && found.contains(k));
}

/// A report that passes as evidence has dropped no assigned region: each one is
/// followed to a region of the new import that alone carries its id.
pub proof fn evidence_keeps_assigned_regions(
    previous: Seq<NamedRegionView>,
    next: Seq<NamedRegionView>,
    p: int,
)
    requires
        cad_identity::remap_verdict(cad_identity::remap(previous, next)) is Ok,
        0 <= p < previous.len(),
        previous[p].role.len() > 0,
    ensures
        ({
            let class = cad_identity::remap(previous, next)[p].class;
            class is Preserved || class is Changed
        }),
        exists|k: int| 0 <= k < next.len() && cad_identity::claims(previous[p], next, k),
        cad_identity::remap(previous, next)[p].next_id == Some(previous[p].identity.stable_id),
{
    let report = cad_identity::remap(previous, next);
    let id = previous[p].identity.stable_id;
    let found = cad_identity::carriers(next, id);
    cad_identity::lemma_carriers(next, id);
    assert(report[p] == cad_identity::prior_entry(previous, next, p));
    assert(!(report[p].class is Ambiguous));
    assert(!cad_identity::is_removed_assigned(report[p]));
    assert(found.len() == 1);
    assert(found =~= seq![found[0]]);
    assert(cad_identity::claims(previous[p], next, found[0]));
}

/// No two regions are followed to the same region of the new import.
pub proof fn regions_are_followed_apart(
    previous: Seq<NamedRegionView>,
    next: Seq<NamedRegionView>,
    p: int,
    q: int,
)
    requires
        0 <= p < q < previous.len(),
        ({
            let class = cad_identity::remap(previous, next)[p].class;
            class is Preserved || class is Changed
        }),
        ({
            let class = cad_identity::remap(previous, next)[q].class;
            class is Preserved || class is Changed
        }),
    ensures
        previous[p].identity.stable_id != previous[q].identity.stable_id,
{
    let id = previous[p].identity.stable_id;
    let found = cad_identity::carriers(next, id);
    assert(cad_identity::remap(previous, next)[p] == cad_identity::prior_entry(previous, next, p));
    assert(cad_identity::remap(previous, next)[q] == cad_identity::prior_entry(previous, next, q));
    if previous[q].identity.stable_id == id {
        assert(found =~= seq![found[0]]);
        assert(cad_identity::claims(previous[p], next, found[0]));
        assert(cad_identity::claimed(previous, next, q, found[0]));
    }
}

proof fn lemma_all_claimed_no_arrivals(
    previous: Seq<NamedRegionView>,
    next: Seq<NamedRegionView>,
    upto: int,
)
    requires
        0 <= upto <= next.len(),
        forall|k: int|
            0 <= k < next.len() ==> #[trigger] cad_identity::claimed(
                previous,
                next,
                previous.len() as int,
                k,
            ),
    ensures
        cad_identity::arrivals(previous, next, upto).len() == 0,
    decreases upto,
{
    if upto > 0 {
        lemma_all_claimed_no_arrivals(previous, next, upto - 1);
        assert(cad_identity::claimed(previous, next, previous.len() as int, upto - 1));
    }
}

/// Reimporting the same regions, each evidence-safe and with an id of its own,
/// preserves every one of them and passes as evidence.
pub proof fn unchanged_regions_are_preserved(regions: Seq<NamedRegionView>)
    requires
        forall|i: int|
            0 <= i < regions.len() ==> cad_identity::identity_is_safe(
                #[trigger] regions[i].identity,
            ),
        forall|i: int, j: int|
            0 <= i < j < regions.len() ==> (#[trigger] regions[i]).identity.stable_id != (
            #[trigger] regions[j]).identity.stable_id,
    ensures
        cad_identity::remap(regions, regions).len() == regions.len(),
        forall|p: int|
            0 <= p < regions.len() ==> (#[trigger] cad_identity::remap(
                regions,
                regions,
            )[p]).class is Preserved,
        cad_identity::remap_verdict(cad_identity::remap(regions, regions)) is Ok,
{
    let report = cad_identity::remap(regions, regions);
    assert forall|p: int| 0 <= p < regions.len() implies cad_identity::carriers(
        regions,
        (#[trigger] regions[p]).identity.stable_id,
    ) == seq![p] by {
        let id = regions[p].identity.stable_id;
        let found = cad_identity::carriers(regions, id);
        cad_identity::lemma_carriers(regions, id);
        assert(cad_identity::identity_is_safe(regions[p].identity));
        assert(found.contains(p));
        assert forall|i: int| 0 <= i < found.len() implies found[i] == p by {
            assert(cad_identity::carries(regions[found[i]], id));
        }
        assert(found.len() == 1) by {
            if found.len() > 1 {
                assert(found[0] < found[1]);
            }
        }
        assert(found =~= seq![p]);
    }
    assert forall|p: int| 0 <= p < regions.len() implies (#[trigger] report[p]).class is Preserved by {
        assert(report[p] == cad_identity::prior_entry(regions, regions, p));
        assert(cad_identity::identity_is_safe(regions[p].identity));
        if cad_identity::claimed(regions, regions, p, p) {
            let q = choose|q: int|
                0 <= q < p && cad_identity::claims(#[trigger] regions[q], regions, p);
            assert(cad_identity::carriers(regions, regions[q].identity.stable_id) == seq![q]);
            assert(seq![q][0] == seq![p][0]);
        }
    }
    assert forall|k: int| 0 <= k < regions.len() implies #[trigger] cad_identity::claimed(
        regions,
        regions,
        regions.len() as int,
        k,
    ) by {
        assert(cad_identity::identity_is_safe(regions[k].identity));
        assert(cad_identity::claims(regions[k], regions, k));
    }
    lemma_all_claimed_no_arrivals(regions, regions, regions.len() as int);
    assert(report.len() == regions.len());
}

/// `order` lists every position below `n` once.
pub open spec fn is_rearrangement(order: Seq<int>, n: nat) -> bool {
    &&& order.len() == n
    &&& forall|i: int| 0 <= i < n ==> 0 <= #[trigger] order[i] < n
    &&& forall|i: int, j: int| 0 <= i < j < n ==> order[i] != order[j]
}

/// The regions taken in the given order.
pub open spec fn rearranged(
    regions: Seq<NamedRegionView>,
    order: Seq<int>,
) -> Seq<NamedRegionView> {
    Seq::new(order.len(), |i: int| regions[order[i]])
}

proof fn lemma_rearrangement_reaches(order: Seq<int>, n: nat, k: int)
    requires
        is_rearrangement(order, n),
        0 <= k < n,
    ensures
        order.contains(k),
{
    let all = Set::new(|i: int| 0 <= i < n);
    let reached = order.to_set();
    assert(order.no_duplicates());
    order.unique_seq_to_set();
    assert(reached.len() == n);
    vstd::set_lib::lemma_int_range(0, n as int);
    assert(all =~= vstd::set_lib::set_int_range(0, n as int));
    assert(reached.subset_of(all)) by {
        assert forall|x: int| reached.contains(x) implies all.contains(x) by {
            let i = choose|i: int| 0 <= i < order.len() && order[i] == x;
            assert(0 <= order[i] < n);
        }
    }
    vstd::set_lib::lemma_subset_equality(reached, all);
    assert(reached.contains(k));
}

/// Rearranging the new import moves the carriers of an id with it.
proof fn lemma_rearranged_carriers(next: Seq<NamedRegionView>, order: Seq<int>, id: Seq<char>)
    requires
        is_rearrangement(order, next.len()),
    ensures
        cad_identity::carriers(rearranged(next, order), id).len() == cad_identity::carriers(
            next,
            id,
        ).len(),
        forall|i: int|
            0 <= i < cad_identity::carriers(rearranged(next, order), id).len()
                ==> cad_identity::carriers(next, id).contains(
                order[#[trigger] cad_identity::carriers(rearranged(next, order), id)[i]],
            ),
{
    let moved = rearranged(next, order);
    let here = cad_identity::carriers(next, id);
    let there = cad_identity::carriers(moved, id);
    cad_identity::lemma_carriers(next, id);
    cad_identity::lemma_carriers(moved, id);
    let image = there.map_values(|i: int| order[i]);
    assert forall|i: int| 0 <= i < there.len() implies here.contains(order[#[trigger] there[i]]) by {
        assert(moved[there[i]] == next[order[there[i]]]);
    }
    assert(here.no_duplicates());
    assert(image.no_duplicates()) by {
        assert forall|i: int, j: int| 0 <= i < image.len() && 0 <= j < image.len() && i != j implies image[i]
            != image[j] by {
            if i < j {
                assert(there[i] < there[j]);
            } else {
                assert(there[j] < there[i]);
            }
        }
    }
    assert(image.to_set() =~= here.to_set()) by {
        assert forall|x: int| image.to_set().contains(x) implies here.to_set().contains(x) by {
            let i = choose|i: int| 0 <= i < image.len() && image[i] == x;
            assert(here.contains(order[there[i]]));
        }
        assert forall|x: int| here.to_set().contains(x) implies image.to_set().contains(x) by {
            assert(here.contains(x));
            let h = choose|h: int| 0 <= h < here.len() && here[h] == x;
            assert(0 <= here[h] < next.len());
            lemma_rearrangement_reaches(order, next.len(), x);
            let j = choose|j: int| 0 <= j < order.len() && order[j] == x;
            assert(moved[j] == next[x]);
            assert(cad_identity::carries(moved[j], id));
            assert(there.contains(j));
            let i = choose|i: int| 0 <= i < there.len() && there[i] == j;
            assert(image[i] == x);
        }
    }
    image.unique_seq_to_set();
    here.unique_seq_to_set();
}

/// The order in which the new import lists its regions does not change what is
/// reported of the previous ones.
pub proof fn report_ignores_region_order(
    previous: Seq<NamedRegionView>,
    next: Seq<NamedRegionView>,
    order: Seq<int>,
    p: int,
)
    requires
        is_rearrangement(order, next.len()),
        0 <= p < previous.len(),
    ensures
        cad_identity::remap(previous, rearranged(next, order))[p] == cad_identity::remap(
            previous,
            next,
        )[p],
{
    let moved = rearranged(next, order);
    let id = previous[p].identity.stable_id;
    let here = cad_identity::carriers(next, id);
    let there = cad_identity::carriers(moved, id);
    lemma_rearranged_carriers(next, order, id);
    cad_identity::lemma_carriers(next, id);
    cad_identity::lemma_carriers(moved, id);
    if there.len() == 1 {
        assert(here.contains(order[there[0]]));
        assert(order[there[0]] == here[0]);
        assert(moved[there[0]] == next[here[0]]);
        assert(cad_identity::claimed(previous, moved, p, there[0]) == cad_identity::claimed(
            previous,
            next,
            p,
            here[0],
        )) by {
            if cad_identity::claimed(previous, moved, p, there[0]) {
                let q = choose|q: int|
                    0 <= q < p && cad_identity::claims(#[trigger] previous[q], moved, there[0]);
                lemma_claims_same_id(previous[q], moved, there[0]);
                assert(here =~= seq![here[0]]);
                assert(cad_identity::claims(previous[q], next, here[0]));
            }
            if cad_identity::claimed(previous, next, p, here[0]) {
                let q = choose|q: int|
                    0 <= q < p && cad_identity::claims(#[trigger] previous[q], next, here[0]);
                lemma_claims_same_id(previous[q], next, here[0]);
                assert(there =~= seq![there[0]]);
                assert(cad_identity::claims(previous[q], moved, there[0]));
            }
        }
    }
    assert(cad_identity::remap(previous, moved)[p] == cad_identity::prior_entry(previous, moved, p));
    assert(cad_identity::remap(previous, next)[p] == cad_identity::prior_entry(previous, next, p));
}

proof fn lemma_claims_same_id(prior: NamedRegionView, next: Seq<NamedRegionView>, k: int)
    requires
        cad_identity::claims(prior, next, k),
    ensures
        0 <= k < next.len(),
        next[k].identity.stable_id == prior.identity.stable_id,
{
    cad_identity::lemma_carriers(next, prior.identity.stable_id);
    assert(cad_identity::carriers(next, prior.identity.stable_id)[0] == k);
}

} // verus!
