//! Every operation keeps the store consistent.
use crate::hash::blob_hash;
use crate::levels::Level;
use crate::model::BlobRecord;
use crate::model::ListingRecord;
use crate::model::ListingView;
use crate::model::SourceRecord;
use crate::model::Store;
use crate::model::created;
use crate::model::merge_tags;
use crate::model::revised;
use crate::seqs::lemma_filter_drops_one;
use crate::seqs::lemma_filter_has;
use crate::seqs::lemma_filter_keeps_all;
use crate::seqs::lemma_filter_origin;
use crate::seqs::origin;
use vstd::prelude::*;

verus! {

/// Storing a blob keeps the store consistent, keeps every blob that was
/// there, and leaves a blob under the content address of the data.
pub proof fn lemma_put_wf(s: Store, data: Seq<u8>)
    requires
        s.wf(),
    ensures
        s.put(data).wf(),
        s.put(data).knows_hash(blob_hash(data)),
        s.put(data).has_blob(s.put(data).blob_id_for(data)),
        s.put(data).listings == s.listings,
        s.put(data).sources == s.sources,
        forall|id: int| s.has_blob(id) ==> s.put(data).has_blob(id),
{
    let t = s.put(data);
    let h = blob_hash(data);
    if !s.knows_hash(h) {
        let n = s.blobs.len() as int;
        assert(t.blobs[n].hash == h);
        assert forall|id: int| s.has_blob(id) implies t.has_blob(id) by {
            let k = choose|k: int| 0 <= k < s.blobs.len() && s.blobs[k].id == id;
            assert(t.blobs[k].id == id);
        }
    }
}

/// Deleting the blob at position `k`, which no listing refers to, is what
/// collecting its identifier does, and keeps the store consistent.
pub proof fn lemma_collect_removes(s: Store, k: int)
    requires
        s.wf(),
        0 <= k < s.blobs.len(),
        !s.is_referenced(s.blobs[k].id),
    ensures
        s.collect(s.blobs[k].id) == (Store { blobs: s.blobs.remove(k), ..s }),
        s.collect(s.blobs[k].id).wf(),
{
    let id = s.blobs[k].id;
    let p = |b: BlobRecord| b.id != id;
    lemma_filter_drops_one(s.blobs, p, k);
    let t = s.collect(id);
    assert forall|i: int| 0 <= i < t.listings.len() implies t.has_blob(
        (#[trigger] t.listings[i]).image_blob,
    ) by {
        let b = s.listings[i].image_blob;
        let m = choose|m: int| 0 <= m < s.blobs.len() && s.blobs[m].id == b;
        if m < k {
            assert(t.blobs[m].id == b);
        } else {
            assert(t.blobs[m - 1].id == b);
        }
    }
}

/// Collecting an identifier under which no blob is stored changes nothing.
pub proof fn lemma_collect_absent(s: Store, blob_id: int)
    requires
        !s.has_blob(blob_id),
    ensures
        s.collect(blob_id) == s,
{
    let p = |b: BlobRecord| b.id != blob_id;
    lemma_filter_keeps_all(s.blobs, p);
}

/// Collecting a blob keeps the store consistent.
pub proof fn lemma_collect_wf(s: Store, blob_id: int)
    requires
        s.wf(),
    ensures
        s.collect(blob_id).wf(),
{
    if !s.is_referenced(blob_id) {
        if s.has_blob(blob_id) {
            let k = choose|k: int| 0 <= k < s.blobs.len() && s.blobs[k].id == blob_id;
            lemma_collect_removes(s, k);
        } else {
            lemma_collect_absent(s, blob_id);
        }
    }
}

/// Merging tags keeps what was there in place, adds each new tag once, and
/// repeats nothing.
pub proof fn lemma_merge_tags(tags: Seq<Seq<char>>, added: Seq<Seq<char>>)
    requires
        tags.no_duplicates(),
    ensures
        merge_tags(tags, added).no_duplicates(),
        tags.len() <= merge_tags(tags, added).len(),
        forall|i: int| 0 <= i < tags.len() ==> merge_tags(tags, added)[i] == tags[i],
        forall|t: Seq<char>|
            merge_tags(tags, added).contains(t) <==> tags.contains(t) || added.contains(t),
    decreases added.len(),
{
    let merged = merge_tags(tags, added);
    if added.len() > 0 {
        let rest = added.drop_last();
        let inner = merge_tags(tags, rest);
        lemma_merge_tags(tags, rest);
        assert forall|t: Seq<char>| merged.contains(t) <==> tags.contains(t) || added.contains(
            t,
        ) by {
            if added.contains(t) {
                let k = choose|k: int| 0 <= k < added.len() && added[k] == t;
                if k < added.len() - 1 {
                    assert(rest[k] == t);
                }
            }
            if rest.contains(t) {
                let k = choose|k: int| 0 <= k < rest.len() && rest[k] == t;
            }
            if inner.contains(t) {
                let k = choose|k: int| 0 <= k < inner.len() && inner[k] == t;
                assert(merged[k] == t);
            }
            if !inner.contains(added.last()) {
                assert(merged[inner.len() as int] == added.last());
            }
        }
    }
}

/// Storing a listing keeps the store consistent.
pub proof fn lemma_upsert_wf(s: Store, l: ListingView, now: int)
    requires
        s.wf(),
    ensures
        s.upsert(l, now).wf(),
        s.upsert(l, now).has_listing(l.website, l.website_id),
        s.upsert(l, now).sources == s.sources,
{
    lemma_put_wf(s, l.image_data);
    let stored = s.put(l.image_data);
    let blob = stored.blob_id_for(l.image_data);
    if stored.has_listing(l.website, l.website_id) {
        let i = stored.listing_index(l.website, l.website_id);
        lemma_revise_wf(stored, i, l, blob, now);
        let mid = Store {
            listings: stored.listings.update(i, revised(stored.listings[i], l, blob, now)),
            ..stored
        };
        lemma_collect_wf(mid, stored.listings[i].image_blob);
        assert(mid.listings[i].website == l.website);
    } else {
        lemma_append_wf(stored, l, blob, now);
        let t = s.upsert(l, now);
        assert(t.listings[stored.listings.len() as int].website == l.website);
    }
}

/// Revising the listing at position `i` keeps the store consistent.
pub proof fn lemma_revise_wf(s: Store, i: int, l: ListingView, blob: int, now: int)
    requires
        s.wf(),
        0 <= i < s.listings.len(),
        s.has_blob(blob),
    ensures
        (Store { listings: s.listings.update(i, revised(s.listings[i], l, blob, now)), ..s }).wf(),
{
    let after = revised(s.listings[i], l, blob, now);
    let t = Store { listings: s.listings.update(i, after), ..s };
    lemma_merge_tags(s.listings[i].categories, l.categories);
    assert forall|a: int| 0 <= a < t.listings.len() implies t.has_blob(
        (#[trigger] t.listings[a]).image_blob,
    ) by {
        let b = t.listings[a].image_blob;
        let k = choose|k: int| 0 <= k < s.blobs.len() && s.blobs[k].id == b;
        assert(t.blobs[k].id == b);
    }
}

/// Adding a listing under a key that is not yet stored keeps the store
/// consistent.
pub proof fn lemma_append_wf(s: Store, l: ListingView, blob: int, now: int)
    requires
        s.wf(),
        !s.has_listing(l.website, l.website_id),
        s.has_blob(blob),
    ensures
        (Store {
            listings: s.listings.push(created(s.next_listing_id(), l, blob, now)),
            ..s
        }).wf(),
{
    let row = created(s.next_listing_id(), l, blob, now);
    let t = Store { listings: s.listings.push(row), ..s };
    lemma_merge_tags(Seq::empty(), l.categories);
    assert forall|a: int| 0 <= a < t.listings.len() implies t.has_blob(
        (#[trigger] t.listings[a]).image_blob,
    ) by {
        let b = t.listings[a].image_blob;
        let k = choose|k: int| 0 <= k < s.blobs.len() && s.blobs[k].id == b;
        assert(t.blobs[k].id == b);
    }
}

/// Deleting listings, whichever they are, keeps the store consistent.
pub proof fn lemma_evict_wf(s: Store, p: spec_fn(ListingRecord) -> bool)
    requires
        s.wf(),
    ensures
        (Store { listings: s.listings.filter(p), ..s }).wf(),
{
    let kept = s.listings.filter(p);
    let t = Store { listings: kept, ..s };
    lemma_filter_origin(s.listings, p);
    assert forall|a: int| 0 <= a < kept.len() implies 1 <= (#[trigger] kept[a]).id
        && kept[a].categories.no_duplicates() && t.has_blob(kept[a].image_blob) by {
        assert(s.listings[origin(s.listings, p, a)] == kept[a]);
        let k = choose|k: int| 0 <= k < s.blobs.len() && s.blobs[k].id == kept[a].image_blob;
        assert(t.blobs[k].id == kept[a].image_blob);
    }
    assert forall|a: int, b: int| 0 <= a < b < kept.len() implies (#[trigger] kept[a]).id < (
    #[trigger] kept[b]).id && !(kept[a].website == kept[b].website && kept[a].website_id
        == kept[b].website_id) by {
        assert(s.listings[origin(s.listings, p, a)] == kept[a]);
        assert(s.listings[origin(s.listings, p, b)] == kept[b]);
    }
}

/// Deleting the blobs that no listing refers to keeps the store consistent.
pub proof fn lemma_orphans_wf(s: Store)
    requires
        s.wf(),
    ensures
        s.without_orphans().wf(),
{
    let p = |b: BlobRecord| s.is_referenced(b.id);
    let kept = s.blobs.filter(p);
    let t = s.without_orphans();
    lemma_filter_origin(s.blobs, p);
    assert forall|a: int, b: int| 0 <= a < b < kept.len() implies (#[trigger] kept[a]).id < (
    #[trigger] kept[b]).id && kept[a].hash != kept[b].hash by {
        assert(s.blobs[origin(s.blobs, p, a)] == kept[a]);
        assert(s.blobs[origin(s.blobs, p, b)] == kept[b]);
    }
    assert forall|i: int| 0 <= i < t.listings.len() implies t.has_blob(
        (#[trigger] t.listings[i]).image_blob,
    ) by {
        let b = s.listings[i].image_blob;
        let k = choose|k: int| 0 <= k < s.blobs.len() && s.blobs[k].id == b;
        let a = lemma_filter_has(s.blobs, p, k);
        assert(t.blobs[a].id == b);
    }
}

/// A sweep keeps the store consistent and leaves the polling status alone.
pub proof fn lemma_sweep_wf(s: Store, levels: Seq<Level>, capacity: int)
    requires
        s.wf(),
    ensures
        s.sweep(levels, capacity).wf(),
        s.sweep(levels, capacity).sources == s.sources,
{
    lemma_evict_wf(s, |l: ListingRecord| s.survives(levels, capacity, l));
    lemma_orphans_wf(s.without_evicted(levels, capacity));
}

/// Recording a poll keeps the store consistent, leaves listings and blobs
/// alone, and makes the source not due until `max_seconds` have passed.
pub proof fn lemma_mark_updated(s: Store, source: Seq<char>, now: int)
    requires
        s.wf(),
    ensures
        s.mark_updated(source, now).wf(),
        s.mark_updated(source, now).listings == s.listings,
        s.mark_updated(source, now).blobs == s.blobs,
        s.mark_updated(source, now).has_source(source),
        s.mark_updated(source, now).sources[s.mark_updated(source, now).source_index(
            source,
        )].last_updated == now,
        forall|other: Seq<char>|
            other != source ==> (s.mark_updated(source, now).has_source(other) <==> s.has_source(
                other,
            )),
        forall|other: Seq<char>|
            other != source && s.has_source(other) ==> s.mark_updated(source, now).sources[s.mark_updated(
                source,
                now,
            ).source_index(other)] == s.sources[s.source_index(other)],
{
    let t = s.mark_updated(source, now);
    let row = SourceRecord { source_id: source, last_updated: now };
    let at = if s.has_source(source) {
        s.source_index(source)
    } else {
        s.sources.len() as int
    };
    assert(t.sources[at] == row);
    assert forall|i: int| 0 <= i < t.listings.len() implies t.has_blob(
        (#[trigger] t.listings[i]).image_blob,
    ) by {
        let b = s.listings[i].image_blob;
        let k = choose|k: int| 0 <= k < s.blobs.len() && s.blobs[k].id == b;
        assert(t.blobs[k].id == b);
    }
    assert forall|other: Seq<char>| other != source implies (t.has_source(other) <==> s.has_source(
        other,
    )) by {
        if s.has_source(other) {
            let i = s.source_index(other);
            assert(t.sources[i].source_id == other);
        }
    }
}

/// What storing a listing does, row by row: the listing stands under its key,
/// revised in place if it was known and appended if it was not, and refers to
/// the blob under the content address of its image; every other listing is as
/// it was; no blob appears but that one, and no blob that a listing refers to
/// disappears.
pub proof fn lemma_upsert_result(s: Store, l: ListingView, now: int)
    requires
        s.wf(),
    ensures
        ({
            let t = s.upsert(l, now);
            let stored = s.put(l.image_data);
            let i = t.listing_index(l.website, l.website_id);
            let blob = t.blob_id_for(l.image_data);
            &&& t.wf()
            &&& t.sources == s.sources
            &&& t.has_listing(l.website, l.website_id)
            &&& t.knows_hash(blob_hash(l.image_data))
            &&& t.has_blob(blob)
            &&& blob == stored.blob_id_for(l.image_data)
            &&& if s.has_listing(l.website, l.website_id) {
                &&& i == s.listing_index(l.website, l.website_id)
                &&& t.listings == s.listings.update(i, revised(s.listings[i], l, blob, now))
            } else {
                &&& i == s.listings.len()
                &&& t.listings == s.listings.push(created(s.next_listing_id(), l, blob, now))
            }
            &&& forall|r: BlobRecord| #[trigger] t.blobs.contains(r) ==> stored.blobs.contains(r)
            &&& forall|r: BlobRecord|
                #[trigger] stored.blobs.contains(r) && t.is_referenced(r.id) ==> t.blobs.contains(
                    r,
                )
        }),
{
    let t = s.upsert(l, now);
    let h = blob_hash(l.image_data);
    lemma_put_wf(s, l.image_data);
    lemma_upsert_wf(s, l, now);
    let stored = s.put(l.image_data);
    let blob0 = stored.blob_id_for(l.image_data);
    let c0 = stored.hash_index(h);
    let r0 = stored.blobs[c0];
    assert(stored.blobs.contains(r0));
    if stored.has_listing(l.website, l.website_id) {
        let i0 = stored.listing_index(l.website, l.website_id);
        let before = stored.listings[i0];
        let mid = Store { listings: stored.listings.update(i0, revised(before, l, blob0, now)), ..stored };
        let prev = before.image_blob;
        let p = |b: BlobRecord| b.id != prev;
        if !mid.is_referenced(prev) {
            lemma_filter_origin(mid.blobs, p);
            assert forall|r: BlobRecord| #[trigger] t.blobs.contains(r) implies stored.blobs.contains(
                r,
            ) by {
                let a = choose|a: int| 0 <= a < t.blobs.len() && t.blobs[a] == r;
                assert(mid.blobs[origin(mid.blobs, p, a)] == r);
            }
            assert forall|r: BlobRecord| #[trigger]
                stored.blobs.contains(r) && t.is_referenced(r.id) implies t.blobs.contains(r) by {}
        }
    }
}

} // verus!
