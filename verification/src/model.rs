//! The mathematical model of the store: what it holds and what each
//! operation does to it.
use crate::hash::blob_hash;
use crate::levels::Level;
use vstd::prelude::*;

verus! {

/// A stored blob: binary content under its content address.
pub struct BlobRecord {
    pub id: int,
    pub hash: Seq<char>,
    pub data: Seq<u8>,
}

/// A stored listing. The two ratings are bit patterns of double-precision
/// values, which the store carries and never reads.
pub struct ListingRecord {
    pub id: int,
    pub created: int,
    pub last_seen: int,
    pub website: Seq<char>,
    pub website_id: Seq<char>,
    pub price: int,
    pub title: Seq<char>,
    pub image_blob: int,
    pub categories: Seq<Seq<char>>,
    pub star_rating: Option<u64>,
    pub max_stars: Option<u64>,
    pub num_reviews: Option<i64>,
}

/// When a source was last polled.
pub struct SourceRecord {
    pub source_id: Seq<char>,
    pub last_updated: int,
}

/// A scraped listing as a source hands it over.
pub struct ListingView {
    pub website: Seq<char>,
    pub website_id: Seq<char>,
    pub price: int,
    pub title: Seq<char>,
    pub image_data: Seq<u8>,
    pub categories: Seq<Seq<char>>,
    pub star_rating: Option<u64>,
    pub max_stars: Option<u64>,
    pub num_reviews: Option<i64>,
}

/// Everything the store holds.
pub struct Store {
    pub listings: Seq<ListingRecord>,
    pub blobs: Seq<BlobRecord>,
    pub sources: Seq<SourceRecord>,
}

/// `tags` followed by those of `added` that are not yet present, in order.
pub open spec fn merge_tags(tags: Seq<Seq<char>>, added: Seq<Seq<char>>) -> Seq<Seq<char>>
    decreases added.len(),
{
    if added.len() == 0 {
        tags
    } else {
        let merged = merge_tags(tags, added.drop_last());
        if merged.contains(added.last()) {
            merged
        } else {
            merged.push(added.last())
        }
    }
}

/// The record of a known listing after it was seen again as `l` at `now`, with
/// its image in the blob `blob`.
pub open spec fn revised(before: ListingRecord, l: ListingView, blob: int, now: int) -> ListingRecord {
    ListingRecord {
        price: l.price,
        title: l.title,
        image_blob: blob,
        last_seen: now,
        categories: merge_tags(before.categories, l.categories),
        ..before
    }
}

/// The record of a listing first seen as `l` at `now`, with its image in the
/// blob `blob`.
pub open spec fn created(id: int, l: ListingView, blob: int, now: int) -> ListingRecord {
    ListingRecord {
        id,
        created: now,
        last_seen: now,
        website: l.website,
        website_id: l.website_id,
        price: l.price,
        title: l.title,
        image_blob: blob,
        categories: merge_tags(Seq::empty(), l.categories),
        star_rating: l.star_rating,
        max_stars: l.max_stars,
        num_reviews: l.num_reviews,
    }
}

/// Whether `id` is one of the identifiers in `excluded`.
pub open spec fn is_excluded(excluded: Seq<i64>, id: int) -> bool {
    exists|k: int| 0 <= k < excluded.len() && excluded[k] == id
}

/// Whether `a` is ahead of `b` in retention order: seen more recently, or
/// seen at the same time and stored earlier.
pub open spec fn outranks(a: ListingRecord, b: ListingRecord) -> bool {
    a.last_seen > b.last_seen || (a.last_seen == b.last_seen && a.id < b.id)
}

/// Whether a listing with `rank` listings ahead of it is inside `capacity`.
/// A negative capacity sets no bound.
pub open spec fn within(rank: nat, capacity: int) -> bool {
    capacity < 0 || rank < capacity
}

/// Whether no level of `levels` admits `l`.
pub open spec fn exempt(levels: Seq<Level>, l: ListingRecord) -> bool {
    forall|k: int| 0 <= k < levels.len() ==> !(#[trigger] levels[k]).admits(l.website, l.categories)
}

impl Store {
    /// The store with nothing in it.
    pub open spec fn empty() -> Store {
        Store { listings: Seq::empty(), blobs: Seq::empty(), sources: Seq::empty() }
    }

    /// Whether a blob with identifier `id` is stored.
    pub open spec fn has_blob(self, id: int) -> bool {
        exists|k: int| 0 <= k < self.blobs.len() && self.blobs[k].id == id
    }

    /// Whether a blob with content address `hash` is stored.
    pub open spec fn knows_hash(self, hash: Seq<char>) -> bool {
        exists|k: int| 0 <= k < self.blobs.len() && self.blobs[k].hash == hash
    }

    /// Position of the blob with content address `hash`.
    pub open spec fn hash_index(self, hash: Seq<char>) -> int {
        choose|k: int| 0 <= k < self.blobs.len() && self.blobs[k].hash == hash
    }

    /// Position of the blob with identifier `id`.
    pub open spec fn blob_index(self, id: int) -> int {
        choose|k: int| 0 <= k < self.blobs.len() && self.blobs[k].id == id
    }

    /// Whether a listing is stored under `(website, website_id)`.
    pub open spec fn has_listing(self, website: Seq<char>, website_id: Seq<char>) -> bool {
        exists|i: int|
            0 <= i < self.listings.len() && self.listings[i].website == website
                && self.listings[i].website_id == website_id
    }

    /// Position of the listing stored under `(website, website_id)`.
    pub open spec fn listing_index(self, website: Seq<char>, website_id: Seq<char>) -> int {
        choose|i: int|
            0 <= i < self.listings.len() && self.listings[i].website == website
                && self.listings[i].website_id == website_id
    }

    /// Whether some listing refers to the blob `blob_id`.
    pub open spec fn is_referenced(self, blob_id: int) -> bool {
        exists|i: int| 0 <= i < self.listings.len() && self.listings[i].image_blob == blob_id
    }

    /// Whether a status row exists for `source`.
    pub open spec fn has_source(self, source: Seq<char>) -> bool {
        exists|i: int| 0 <= i < self.sources.len() && self.sources[i].source_id == source
    }

    /// Position of the status row of `source`.
    pub open spec fn source_index(self, source: Seq<char>) -> int {
        choose|i: int| 0 <= i < self.sources.len() && self.sources[i].source_id == source
    }

    /// The consistency that every operation keeps: identifiers grow along each
    /// table, keys and content addresses are unique, category tags are not
    /// repeated, and every listing refers to a stored blob.
    pub open spec fn wf(self) -> bool {
        &&& forall|i: int| 0 <= i < self.listings.len() ==> 1 <= (#[trigger] self.listings[i]).id
        &&& forall|i: int, j: int|
            0 <= i < j < self.listings.len() ==> (#[trigger] self.listings[i]).id < (
            #[trigger] self.listings[j]).id
        &&& forall|i: int, j: int|
            0 <= i < j < self.listings.len() ==> !((#[trigger] self.listings[i]).website
                == (#[trigger] self.listings[j]).website && self.listings[i].website_id
                == self.listings[j].website_id)
        &&& forall|i: int|
            0 <= i < self.listings.len() ==> (#[trigger] self.listings[i]).categories.no_duplicates()
        &&& forall|i: int|
            0 <= i < self.listings.len() ==> self.has_blob((#[trigger] self.listings[i]).image_blob)
        &&& forall|k: int| 0 <= k < self.blobs.len() ==> 1 <= (#[trigger] self.blobs[k]).id
        &&& forall|k: int, m: int|
            0 <= k < m < self.blobs.len() ==> (#[trigger] self.blobs[k]).id < (
            #[trigger] self.blobs[m]).id
        &&& forall|k: int, m: int|
            0 <= k < m < self.blobs.len() ==> (#[trigger] self.blobs[k]).hash != (
            #[trigger] self.blobs[m]).hash
        &&& forall|i: int, j: int|
            0 <= i < j < self.sources.len() ==> (#[trigger] self.sources[i]).source_id != (
            #[trigger] self.sources[j]).source_id
    }

    /// The identifier that the next new blob gets.
    pub open spec fn next_blob_id(self) -> int {
        if self.blobs.len() == 0 {
            1
        } else {
            self.blobs.last().id + 1
        }
    }

    /// The identifier that the next new listing gets.
    pub open spec fn next_listing_id(self) -> int {
        if self.listings.len() == 0 {
            1
        } else {
            self.listings.last().id + 1
        }
    }

    /// Stores `data` unless a blob with its content address is already there.
    pub open spec fn put(self, data: Seq<u8>) -> Store {
        if self.knows_hash(blob_hash(data)) {
            self
        } else {
            Store {
                blobs: self.blobs.push(
                    BlobRecord { id: self.next_blob_id(), hash: blob_hash(data), data },
                ),
                ..self
            }
        }
    }

    /// Identifier of the blob stored under the content address of `data`.
    pub open spec fn blob_id_for(self, data: Seq<u8>) -> int {
        self.blobs[self.hash_index(blob_hash(data))].id
    }

    /// Deletes the blob `blob_id` unless a listing refers to it.
    pub open spec fn collect(self, blob_id: int) -> Store {
        if self.is_referenced(blob_id) {
            self
        } else {
            Store { blobs: self.blobs.filter(|b: BlobRecord| b.id != blob_id), ..self }
        }
    }

    /// Whether the identifiers that storing `l` would allot are representable.
    pub open spec fn has_room(self, l: ListingView) -> bool {
        &&& !self.knows_hash(blob_hash(l.image_data)) ==> self.next_blob_id() <= i64::MAX
        &&& !self.has_listing(l.website, l.website_id) ==> self.next_listing_id() <= i64::MAX
    }

    /// Stores `l` at time `now`: a listing already known by its key gets the
    /// new price, title, image and time of sighting, keeps its other fields and
    /// gains the new category tags, and the image it had before is collected;
    /// an unknown one is added.
    pub open spec fn upsert(self, l: ListingView, now: int) -> Store {
        let stored = self.put(l.image_data);
        let blob = stored.blob_id_for(l.image_data);
        if stored.has_listing(l.website, l.website_id) {
            let i = stored.listing_index(l.website, l.website_id);
            let before = stored.listings[i];
            Store { listings: stored.listings.update(i, revised(before, l, blob, now)), ..stored }.collect(
                before.image_blob,
            )
        } else {
            Store {
                listings: stored.listings.push(created(stored.next_listing_id(), l, blob, now)),
                ..stored
            }
        }
    }

    /// The listings that `level` admits and `excluded` does not name, in
    /// stored order.
    pub open spec fn eligible(self, excluded: Seq<i64>, level: Level) -> Seq<ListingRecord> {
        self.listings.filter(
            |l: ListingRecord| level.admits(l.website, l.categories) && !is_excluded(excluded, l.id),
        )
    }

    /// The bytes of the blob `blob_id`.
    pub open spec fn blob_data(self, blob_id: int) -> Seq<u8> {
        self.blobs[self.blob_index(blob_id)].data
    }

    /// A stored listing in the shape in which sources deliver listings, with
    /// its image bytes.
    pub open spec fn listing_of(self, l: ListingRecord) -> ListingView {
        ListingView {
            website: l.website,
            website_id: l.website_id,
            price: l.price,
            title: l.title,
            image_data: self.blob_data(l.image_blob),
            categories: l.categories,
            star_rating: l.star_rating,
            max_stars: l.max_stars,
            num_reviews: l.num_reviews,
        }
    }

    /// Whether `t` is when a listing of `level` was last seen: some listing of
    /// the level was seen at `t` and none later.
    pub open spec fn is_last_seen(self, level: Level, t: int) -> bool {
        &&& exists|i: int|
            0 <= i < self.listings.len() && level.admits(
                (#[trigger] self.listings[i]).website,
                self.listings[i].categories,
            ) && self.listings[i].last_seen == t
        &&& forall|i: int|
            0 <= i < self.listings.len() && level.admits(
                (#[trigger] self.listings[i]).website,
                self.listings[i].categories,
            ) ==> self.listings[i].last_seen <= t
    }

    /// Whether `level` admits no listing.
    pub open spec fn is_vacant(self, level: Level) -> bool {
        forall|i: int|
            0 <= i < self.listings.len() ==> !level.admits(
                (#[trigger] self.listings[i]).website,
                self.listings[i].categories,
            )
    }

    /// How many listings of `level` are ahead of `l` in retention order.
    pub open spec fn rank(self, level: Level, l: ListingRecord) -> nat {
        self.listings.filter(
            |m: ListingRecord| level.admits(m.website, m.categories) && outranks(m, l),
        ).len()
    }

    /// Whether `level` admits `l` and ranks it inside `capacity`.
    pub open spec fn kept_by(self, level: Level, capacity: int, l: ListingRecord) -> bool {
        level.admits(l.website, l.categories) && within(self.rank(level, l), capacity)
    }

    /// Whether `l` outlasts a sweep: no level admits it, or some level keeps it.
    pub open spec fn survives(self, levels: Seq<Level>, capacity: int, l: ListingRecord) -> bool {
        exempt(levels, l) || exists|k: int|
            0 <= k < levels.len() && self.kept_by(#[trigger] levels[k], capacity, l)
    }

    /// The store after the listings that do not survive are deleted.
    pub open spec fn without_evicted(self, levels: Seq<Level>, capacity: int) -> Store {
        Store {
            listings: self.listings.filter(|l: ListingRecord| self.survives(levels, capacity, l)),
            ..self
        }
    }

    /// The store after every blob that no listing refers to is deleted.
    pub open spec fn without_orphans(self) -> Store {
        Store { blobs: self.blobs.filter(|b: BlobRecord| self.is_referenced(b.id)), ..self }
    }

    /// One retention sweep: evict, then collect the orphaned blobs.
    pub open spec fn sweep(self, levels: Seq<Level>, capacity: int) -> Store {
        self.without_evicted(levels, capacity).without_orphans()
    }

    /// Whether `source` is due for polling at `now`: never polled, or polled
    /// more than `max_seconds` ago.
    pub open spec fn is_due(self, source: Seq<char>, max_seconds: int, now: int) -> bool {
        !self.has_source(source) || self.sources[self.source_index(source)].last_updated
            + max_seconds < now
    }

    /// Records that `source` was polled at `now`.
    pub open spec fn mark_updated(self, source: Seq<char>, now: int) -> Store {
        let row = SourceRecord { source_id: source, last_updated: now };
        if self.has_source(source) {
            Store { sources: self.sources.update(self.source_index(source), row), ..self }
        } else {
            Store { sources: self.sources.push(row), ..self }
        }
    }
}

} // verus!
