//! What holds of the store's operations.
use crate::consistency::lemma_mark_updated;
use crate::consistency::lemma_merge_tags;
use crate::consistency::lemma_upsert_result;
use crate::levels::Level;
use crate::model::BlobRecord;
use crate::model::ListingRecord;
use crate::model::ListingView;
use crate::model::Store;
use crate::model::exempt;
use crate::model::outranks;
use crate::model::revised;
use crate::seqs::lemma_filter_len_but_one;
use crate::seqs::lemma_filter_len_union;
use crate::seqs::lemma_filter_origin;
use crate::seqs::lemma_filter_twice_len;
use crate::seqs::origin;
use vstd::prelude::*;

verus! {

/// A sweep keeps exactly the survivors: a stored listing is there afterwards,
/// unchanged, if and only if it survives, and nothing else is there.
pub proof fn sweep_keeps_exactly_the_survivors(s: Store, levels: Seq<Level>, capacity: int)
    ensures
        forall|i: int|
            0 <= i < s.listings.len() ==> (s.sweep(levels, capacity).listings.contains(
                #[trigger] s.listings[i],
            ) <==> s.survives(levels, capacity, s.listings[i])),
        forall|a: int|
            0 <= a < s.sweep(levels, capacity).listings.len() ==> s.listings.contains(
                #[trigger] s.sweep(levels, capacity).listings[a],
            ),
{
    let p = |l: ListingRecord| s.survives(levels, capacity, l);
    let kept = s.listings.filter(p);
    lemma_filter_origin(s.listings, p);
    assert forall|a: int| 0 <= a < kept.len() implies s.listings.contains(#[trigger] kept[a]) by {
        assert(s.listings[origin(s.listings, p, a)] == kept[a]);
    }
}

/// A listing that no level admits outlasts every sweep, whatever the capacity
/// and however long ago it was seen.
pub proof fn exempt_listing_survives(s: Store, levels: Seq<Level>, capacity: int, i: int)
    requires
        0 <= i < s.listings.len(),
        exempt(levels, s.listings[i]),
    ensures
        s.sweep(levels, capacity).listings.contains(s.listings[i]),
{
    sweep_keeps_exactly_the_survivors(s, levels, capacity);
}

/// A listing that one level ranks inside the capacity outlasts the sweep,
/// whatever rank the other levels that admit it give it.
pub proof fn kept_by_one_level_survives(
    s: Store,
    levels: Seq<Level>,
    capacity: int,
    i: int,
    k: int,
)
    requires
        0 <= i < s.listings.len(),
        0 <= k < levels.len(),
        s.kept_by(levels[k], capacity, s.listings[i]),
    ensures
        s.sweep(levels, capacity).listings.contains(s.listings[i]),
{
    sweep_keeps_exactly_the_survivors(s, levels, capacity);
}

/// A listing that some level admits and no admitting level ranks inside the
/// capacity is gone after the sweep.
pub proof fn ranked_out_everywhere_is_evicted(s: Store, levels: Seq<Level>, capacity: int, i: int)
    requires
        0 <= i < s.listings.len(),
        !exempt(levels, s.listings[i]),
        forall|k: int|
            0 <= k < levels.len() ==> !s.kept_by(#[trigger] levels[k], capacity, s.listings[i]),
    ensures
        !s.sweep(levels, capacity).listings.contains(s.listings[i]),
{
    sweep_keeps_exactly_the_survivors(s, levels, capacity);
}

/// After a sweep no blob is an orphan, and a blob is still there if and only
/// if a surviving listing refers to it.
pub proof fn sweep_leaves_no_orphan(s: Store, levels: Seq<Level>, capacity: int)
    ensures
        forall|a: int|
            0 <= a < s.sweep(levels, capacity).blobs.len() ==> s.sweep(
                levels,
                capacity,
            ).is_referenced((#[trigger] s.sweep(levels, capacity).blobs[a]).id),
        forall|k: int|
            0 <= k < s.blobs.len() ==> (s.sweep(levels, capacity).blobs.contains(
                #[trigger] s.blobs[k],
            ) <==> s.sweep(levels, capacity).is_referenced(s.blobs[k].id)),
{
}

/// Storing a listing again, under the same key and with the same image, adds
/// no listing and no blob and moves nothing: the one row under that key is
/// revised where it stands, every other row is as it was, and the row's tags
/// afterwards are those it had after the first call together with those
/// passed in the second. The tags passed in the first call are among them.
pub proof fn upsert_again_adds_no_row(
    s: Store,
    first: ListingView,
    second: ListingView,
    t1: int,
    t2: int,
)
    requires
        s.wf(),
        first.website == second.website,
        first.website_id == second.website_id,
        first.image_data == second.image_data,
    ensures
        ({
            let once = s.upsert(first, t1);
            let twice = once.upsert(second, t2);
            let i = once.listing_index(first.website, first.website_id);
            &&& once.has_listing(first.website, first.website_id)
            &&& twice.has_listing(first.website, first.website_id)
            &&& twice.listing_index(first.website, first.website_id) == i
            &&& twice.listings.len() == once.listings.len()
            &&& twice.blobs == once.blobs
            &&& twice.listings == once.listings.update(
                i,
                revised(once.listings[i], second, once.listings[i].image_blob, t2),
            )
            &&& forall|tag: Seq<char>|
                first.categories.contains(tag) ==> once.listings[i].categories.contains(tag)
            &&& forall|tag: Seq<char>|
                twice.listings[i].categories.contains(tag) <==> once.listings[i].categories.contains(
                    tag,
                ) || second.categories.contains(tag)
        }),
{
    let once = s.upsert(first, t1);
    let i = once.listing_index(first.website, first.website_id);
    lemma_upsert_result(s, first, t1);
    if s.has_listing(first.website, first.website_id) {
        lemma_merge_tags(s.listings[i].categories, first.categories);
    } else {
        lemma_merge_tags(Seq::empty(), first.categories);
    }
    lemma_merge_tags(once.listings[i].categories, second.categories);
}

/// Storing a listing twice in an empty store, under the same key and with the
/// same image, leaves exactly one listing and one blob, and the listing's tags
/// are those passed in either call, none of them twice.
pub proof fn upsert_twice_from_empty(first: ListingView, second: ListingView, t1: int, t2: int)
    requires
        first.website == second.website,
        first.website_id == second.website_id,
        first.image_data == second.image_data,
    ensures
        ({
            let twice = Store::empty().upsert(first, t1).upsert(second, t2);
            &&& twice.listings.len() == 1
            &&& twice.blobs.len() == 1
            &&& twice.listings[0].image_blob == twice.blobs[0].id
            &&& twice.blobs[0].data == first.image_data
            &&& twice.listings[0].categories.no_duplicates()
            &&& forall|tag: Seq<char>|
                twice.listings[0].categories.contains(tag) <==> first.categories.contains(tag)
                    || second.categories.contains(tag)
        }),
{
    let s = Store::empty();
    let once = s.upsert(first, t1);
    upsert_again_adds_no_row(s, first, second, t1, t2);
    lemma_merge_tags(Seq::empty(), first.categories);
    lemma_merge_tags(once.listings[0].categories, second.categories);
}

/// Two listings with the same image bytes refer to the same blob: after both
/// are stored, under different keys, their rows name one blob, and the second
/// call added none.
pub proof fn same_image_shares_blob(s: Store, a: ListingView, b: ListingView, t1: int, t2: int)
    requires
        s.wf(),
        a.image_data == b.image_data,
        !(a.website == b.website && a.website_id == b.website_id),
    ensures
        ({
            let once = s.upsert(a, t1);
            let twice = once.upsert(b, t2);
            let ia = twice.listing_index(a.website, a.website_id);
            let ib = twice.listing_index(b.website, b.website_id);
            &&& twice.has_listing(a.website, a.website_id)
            &&& twice.has_listing(b.website, b.website_id)
            &&& ia != ib
            &&& twice.listings[ia].image_blob == twice.listings[ib].image_blob
            &&& twice.blobs.len() <= once.blobs.len()
        }),
{
    let once = s.upsert(a, t1);
    let twice = once.upsert(b, t2);
    lemma_upsert_result(s, a, t1);
    lemma_upsert_result(once, b, t2);
    let i1 = once.listing_index(a.website, a.website_id);
    let ia = twice.listing_index(a.website, a.website_id);
    assert(ia == i1) by {
        if ia < i1 {
            assert(!(twice.listings[ia].website == twice.listings[i1].website
                && twice.listings[ia].website_id == twice.listings[i1].website_id));
        } else if i1 < ia {
            assert(!(twice.listings[i1].website == twice.listings[ia].website
                && twice.listings[i1].website_id == twice.listings[ia].website_id));
        }
    }
}

/// Among the first `n` listings, one that passes `kept` and that every other
/// one passing `kept` is ahead of in retention order.
proof fn lemma_last_kept(s: Store, kept: spec_fn(ListingRecord) -> bool, n: int) -> (last: int)
    requires
        s.wf(),
        0 <= n <= s.listings.len(),
        exists|i: int| 0 <= i < n && kept(#[trigger] s.listings[i]),
    ensures
        0 <= last < n,
        kept(s.listings[last]),
        forall|i: int|
            0 <= i < n && i != last && kept(#[trigger] s.listings[i]) ==> outranks(
                s.listings[i],
                s.listings[last],
            ),
    decreases n,
{
    let rows = s.listings;
    if exists|i: int| 0 <= i < n - 1 && kept(#[trigger] rows[i]) {
        let inner = lemma_last_kept(s, kept, n - 1);
        if kept(rows[n - 1]) && !outranks(rows[n - 1], rows[inner]) {
            n - 1
        } else {
            inner
        }
    } else {
        n - 1
    }
}

/// A level keeps no more listings than the capacity: of the listings that a
/// level admits, at most `capacity` rank inside it.
pub proof fn level_keeps_at_most_capacity(s: Store, level: Level, capacity: int)
    requires
        s.wf(),
        0 <= capacity,
    ensures
        s.listings.filter(|l: ListingRecord| s.kept_by(level, capacity, l)).len() <= capacity,
{
    let rows = s.listings;
    let kept = |l: ListingRecord| s.kept_by(level, capacity, l);
    let winners = rows.filter(kept);
    if winners.len() > 0 {
        lemma_filter_origin(rows, kept);
        assert(kept(rows[origin(rows, kept, 0)]));
        let last = lemma_last_kept(s, kept, rows.len() as int);
        let target = rows[last];
        let ahead = |m: ListingRecord|
            level.admits(m.website, m.categories) && outranks(m, target);
        lemma_filter_len_but_one(rows, kept, ahead, last, rows.len() as int);
        assert(rows.take(rows.len() as int) =~= rows);
    }
}

/// A level that shares its listings with no other level holds at most the
/// capacity after a sweep. Where levels overlap, a listing that another level
/// keeps stays although this level ranks it out, so that a level may then
/// hold more.
pub proof fn sweep_bounds_a_level_apart(s: Store, levels: Seq<Level>, capacity: int, k: int)
    requires
        s.wf(),
        0 <= capacity,
        0 <= k < levels.len(),
        forall|i: int, j: int|
            0 <= i < s.listings.len() && 0 <= j < levels.len() && j != k && levels[k].admits(
                (#[trigger] s.listings[i]).website,
                s.listings[i].categories,
            ) ==> !(#[trigger] levels[j]).admits(s.listings[i].website, s.listings[i].categories),
    ensures
        s.sweep(levels, capacity).listings.filter(
            |l: ListingRecord| levels[k].admits(l.website, l.categories),
        ).len() <= capacity,
{
    let rows = s.listings;
    let level = levels[k];
    let survivor = |l: ListingRecord| s.survives(levels, capacity, l);
    let admitted = |l: ListingRecord| level.admits(l.website, l.categories);
    let kept = |l: ListingRecord| s.kept_by(level, capacity, l);
    assert forall|i: int|
        0 <= i < rows.len() && survivor(#[trigger] rows[i]) && admitted(rows[i]) implies kept(
        rows[i],
    ) by {
        assert(!exempt(levels, rows[i]));
        let j = choose|j: int|
            0 <= j < levels.len() && s.kept_by(#[trigger] levels[j], capacity, rows[i]);
        assert(j == k);
    }
    lemma_filter_twice_len(rows, survivor, admitted, kept);
    level_keeps_at_most_capacity(s, level, capacity);
}

/// Whether one of the first `k` levels keeps `l`.
pub open spec fn kept_by_first(
    s: Store,
    levels: Seq<Level>,
    capacity: int,
    k: int,
) -> spec_fn(ListingRecord) -> bool {
    |l: ListingRecord| exists|j: int| 0 <= j < k && s.kept_by(#[trigger] levels[j], capacity, l)
}

/// The first `k` levels together keep at most `k` times the capacity.
proof fn lemma_levels_keep(s: Store, levels: Seq<Level>, capacity: int, k: int)
    requires
        s.wf(),
        0 <= capacity,
        0 <= k <= levels.len(),
    ensures
        s.listings.filter(kept_by_first(s, levels, capacity, k)).len() <= k * capacity,
    decreases k,
{
    let rows = s.listings;
    let upto = kept_by_first(s, levels, capacity, k);
    if k == 0 {
        rows.lemma_all_neg_filter_empty(upto);
    } else {
        let before = kept_by_first(s, levels, capacity, k - 1);
        let level = levels[k - 1];
        let here = |l: ListingRecord| s.kept_by(level, capacity, l);
        lemma_levels_keep(s, levels, capacity, k - 1);
        level_keeps_at_most_capacity(s, level, capacity);
        lemma_filter_len_union(rows, upto, before, here);
        assert(k * capacity == (k - 1) * capacity + capacity) by (nonlinear_arith);
    }
}

/// A sweep bounds what the levels hold: afterwards the listings that some
/// level admits number at most the capacity for each level. Listings that no
/// level admits are not counted and not bounded.
pub proof fn sweep_bounds_admitted_listings(s: Store, levels: Seq<Level>, capacity: int)
    requires
        s.wf(),
        0 <= capacity,
    ensures
        s.sweep(levels, capacity).listings.filter(|l: ListingRecord| !exempt(levels, l)).len()
            <= levels.len() * capacity,
{
    let rows = s.listings;
    let survivor = |l: ListingRecord| s.survives(levels, capacity, l);
    let admitted = |l: ListingRecord| !exempt(levels, l);
    let kept = kept_by_first(s, levels, capacity, levels.len() as int);
    lemma_filter_twice_len(rows, survivor, admitted, kept);
    lemma_levels_keep(s, levels, capacity, levels.len() as int);
}

/// A source that was polled is not due again until more than the interval
/// has passed, and is due from then on.
pub proof fn polled_source_rests(s: Store, source: Seq<char>, now: int, interval: int, later: int)
    requires
        s.wf(),
    ensures
        s.mark_updated(source, now).is_due(source, interval, later) <==> now + interval < later,
{
    lemma_mark_updated(s, source, now);
}

} // verus!
