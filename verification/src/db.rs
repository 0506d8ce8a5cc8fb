//! The store: listings, the blobs they refer to, and the polling status of
//! each source, with the operations that keep them consistent.
use crate::hash::blob_hash;
use crate::hash::hash_blob;
use crate::levels::levels;
use crate::levels::Level;
use crate::model::is_excluded;
use crate::model::merge_tags;
use crate::model::outranks;
use crate::model::BlobRecord;
use crate::model::ListingRecord;
use crate::model::ListingView;
use crate::model::SourceRecord;
use crate::model::Store;
use crate::consistency::lemma_collect_absent;
use crate::consistency::lemma_collect_removes;
use crate::consistency::lemma_append_wf;
use crate::consistency::lemma_evict_wf;
use crate::consistency::lemma_orphans_wf;
use crate::consistency::lemma_mark_updated;
use crate::consistency::lemma_put_wf;
use crate::consistency::lemma_revise_wf;
use crate::levels::has_tag;
use crate::model::created;
use crate::model::revised;
use crate::random::random_below;
use crate::seqs::lemma_filter_step;
use crate::seqs::lemma_picked_is_filter;
use crate::seqs::retain_flagged;
use crate::seqs::lemma_filter_prefix;
use std::collections::HashSet;
use vstd::prelude::*;

verus! {

/// Why the store refused an operation.
#[derive(Clone, Copy, Debug, PartialEq, Eq, Structural)]
pub enum StoreError {
    /// No identifier is left for a new row.
    Full,
}

/// A scraped listing as a source hands it over. The two ratings are carried
/// as the bit patterns of their IEEE 754 double-precision values.
#[derive(Debug)]
pub struct Listing {
    pub website: String,
    pub website_id: String,
    pub price: i64,
    pub title: String,
    pub image_data: Vec<u8>,
    pub categories: Vec<String>,
    pub star_rating: Option<u64>,
    pub max_stars: Option<u64>,
    pub num_reviews: Option<i64>,
}

impl View for Listing {
    type V = ListingView;

    open spec fn view(&self) -> ListingView {
        ListingView {
            website: self.website@,
            website_id: self.website_id@,
            price: self.price as int,
            title: self.title@,
            image_data: self.image_data@,
            categories: self.categories.deep_view(),
            star_rating: self.star_rating,
            max_stars: self.max_stars,
            num_reviews: self.num_reviews,
        }
    }
}

/// A row of the blob table.
#[derive(Debug)]
pub struct BlobRow {
    pub id: i64,
    pub hash: String,
    pub data: Vec<u8>,
}

impl View for BlobRow {
    type V = BlobRecord;

    open spec fn view(&self) -> BlobRecord {
        BlobRecord { id: self.id as int, hash: self.hash@, data: self.data@ }
    }
}

/// A row of the listing table, with the listing's category tags.
#[derive(Debug)]
pub struct ListingRow {
    pub id: i64,
    pub created: i64,
    pub last_seen: i64,
    pub website: String,
    pub website_id: String,
    pub price: i64,
    pub title: String,
    pub image_blob: i64,
    pub categories: Vec<String>,
    pub star_rating: Option<u64>,
    pub max_stars: Option<u64>,
    pub num_reviews: Option<i64>,
}

impl View for ListingRow {
    type V = ListingRecord;

    open spec fn view(&self) -> ListingRecord {
        ListingRecord {
            id: self.id as int,
            created: self.created as int,
            last_seen: self.last_seen as int,
            website: self.website@,
            website_id: self.website_id@,
            price: self.price as int,
            title: self.title@,
            image_blob: self.image_blob as int,
            categories: self.categories.deep_view(),
            star_rating: self.star_rating,
            max_stars: self.max_stars,
            num_reviews: self.num_reviews,
        }
    }
}

/// A row of the source status table.
#[derive(Debug)]
pub struct SourceStatus {
    pub source_id: String,
    pub last_updated: i64,
}

impl View for SourceStatus {
    type V = SourceRecord;

    open spec fn view(&self) -> SourceRecord {
        SourceRecord { source_id: self.source_id@, last_updated: self.last_updated as int }
    }
}

/// The records that a vector of blob rows stands for.
pub open spec fn blob_records(rows: Seq<BlobRow>) -> Seq<BlobRecord> {
    rows.map_values(|r: BlobRow| r@)
}

/// The records that a vector of listing rows stands for.
pub open spec fn listing_records(rows: Seq<ListingRow>) -> Seq<ListingRecord> {
    rows.map_values(|r: ListingRow| r@)
}

/// The records that a vector of status rows stands for.
pub open spec fn source_records(rows: Seq<SourceStatus>) -> Seq<SourceRecord> {
    rows.map_values(|r: SourceStatus| r@)
}

/// The texts of a sequence of strings.
pub open spec fn texts(strings: Seq<String>) -> Seq<Seq<char>> {
    Seq::new(strings.len(), |i: int| strings[i]@)
}

/// Appends to `tags` each tag of `added` that it does not hold yet.
pub fn add_tags(tags: &mut Vec<String>, added: Vec<String>)
    ensures
        final(tags).deep_view() == merge_tags(old(tags).deep_view(), added.deep_view()),
{
    let ghost before = tags.deep_view();
    let ghost all = added@;
    let mut at: usize = 0;
    assert(all.len() == added.len());
    for tag in it: added
        invariant
            at == it.index(),
            it.seq() == all,
            all.len() <= usize::MAX,
            tags.deep_view() == merge_tags(before, texts(all).take(at as int)),
    {
        proof {
            let upto = texts(all).take(at as int + 1);
            assert(upto.drop_last() =~= texts(all).take(at as int));
        }
        if !has_tag(tags, tag.as_str()) {
            tags.push(tag);
        }
        at += 1;
    }
    assert(texts(all).take(all.len() as int) =~= added.deep_view());
}

/// Whether one of the first `k` levels admits `l`.
pub open spec fn admitted_upto(levels: Seq<Level>, l: ListingRecord, k: int) -> bool {
    exists|j: int| 0 <= j < k && (#[trigger] levels[j]).admits(l.website, l.categories)
}

/// Whether one of the first `k` levels keeps `l`.
pub open spec fn kept_upto(
    s: Store,
    levels: Seq<Level>,
    capacity: int,
    l: ListingRecord,
    k: int,
) -> bool {
    exists|j: int| 0 <= j < k && s.kept_by(#[trigger] levels[j], capacity, l)
}

/// A copy of `tags`.
pub fn copy_tags(tags: &Vec<String>) -> (copy: Vec<String>)
    ensures
        copy.deep_view() == tags.deep_view(),
{
    let mut copy: Vec<String> = Vec::new();
    let mut i: usize = 0;
    while i < tags.len()
        invariant
            i <= tags.len(),
            copy.len() == i,
            forall|j: int| 0 <= j < i ==> copy[j]@ == tags[j]@,
        decreases tags.len() - i,
    {
        copy.push(tags[i].clone());
        i += 1;
    }
    copy
}

/// The identifiers of `excluded` as a set, for constant-time lookup.
fn exclusion_set(excluded: &Vec<i64>) -> (set: HashSet<i64>)
    ensures
        forall|id: i64| set@.contains(id) <==> is_excluded(excluded@, id as int),
{
    broadcast use vstd::std_specs::hash::group_hash_axioms;

    let mut set: HashSet<i64> = HashSet::new();
    let mut k: usize = 0;
    while k < excluded.len()
        invariant
            k <= excluded.len(),
            forall|id: i64|
                set@.contains(id) <==> exists|m: int| 0 <= m < k && excluded@[m] == id,
        decreases excluded.len() - k,
    {
        let id = excluded[k];
        set.insert(id);
        k += 1;
    }
    set
}

/// A level with the number of its listings that a client has not seen yet.
#[derive(Clone, Copy, Debug)]
pub struct LevelCount {
    pub level: Level,
    pub count: usize,
}

/// The three tables, with the operations on them. The operations ask for
/// consistent tables and leave them consistent.
struct Tables {
    listings: Vec<ListingRow>,
    blobs: Vec<BlobRow>,
    sources: Vec<SourceStatus>,
}

impl View for Tables {
    type V = Store;

    closed spec fn view(&self) -> Store {
        Store {
            listings: listing_records(self.listings@),
            blobs: blob_records(self.blobs@),
            sources: source_records(self.sources@),
        }
    }
}

impl Tables {
    /// A new, empty store.
    fn open_in_memory() -> (db: Tables)
        ensures
            db@ == Store::empty(),
            db@.wf(),
    {
        let db = Tables { listings: Vec::new(), blobs: Vec::new(), sources: Vec::new() };
        assert(db@ =~= Store::empty()) by {
            assert(db@.listings =~= Seq::empty());
            assert(db@.blobs =~= Seq::empty());
            assert(db@.sources =~= Seq::empty());
        }
        db
    }

    /// The listing rows, in the order of their identifiers.
    fn listings(&self) -> (rows: &Vec<ListingRow>)
        ensures
            listing_records(rows@) == self@.listings,
    {
        &self.listings
    }

    /// The blob rows, in the order of their identifiers.
    fn blobs(&self) -> (rows: &Vec<BlobRow>)
        ensures
            blob_records(rows@) == self@.blobs,
    {
        &self.blobs
    }

    /// The status rows of the sources.
    fn sources(&self) -> (rows: &Vec<SourceStatus>)
        ensures
            source_records(rows@) == self@.sources,
    {
        &self.sources
    }

    /// Position of the blob stored under `hash`.
    fn find_hash(&self, hash: &String) -> (found: Option<usize>)
        requires
            self@.wf(),
        ensures
            match found {
                Some(k) => k < self@.blobs.len() && self@.blobs[k as int].hash == hash@ && k
                    == self@.hash_index(hash@) && self@.knows_hash(hash@),
                None => !self@.knows_hash(hash@),
            },
    {
        let mut k: usize = 0;
        while k < self.blobs.len()
            invariant
                k <= self.blobs.len(),
                self@.wf(),
                self@.blobs.len() == self.blobs.len(),
                forall|m: int| 0 <= m < k ==> self@.blobs[m].hash != hash@,
            decreases self.blobs.len() - k,
        {
            if self.blobs[k].hash == *hash {
                assert(self@.blobs[k as int].hash == hash@);
                return Some(k);
            }
            k += 1;
        }
        None
    }

    /// Position of the blob with identifier `id`.
    fn find_blob(&self, id: i64) -> (found: Option<usize>)
        requires
            self@.wf(),
        ensures
            match found {
                Some(k) => k < self@.blobs.len() && self@.blobs[k as int].id == id && k
                    == self@.blob_index(id as int) && self@.has_blob(id as int),
                None => !self@.has_blob(id as int),
            },
    {
        let mut k: usize = 0;
        while k < self.blobs.len()
            invariant
                k <= self.blobs.len(),
                self@.wf(),
                self@.blobs.len() == self.blobs.len(),
                forall|m: int| 0 <= m < k ==> self@.blobs[m].id != id,
            decreases self.blobs.len() - k,
        {
            if self.blobs[k].id == id {
                assert(self@.blobs[k as int].id == id);
                return Some(k);
            }
            k += 1;
        }
        None
    }

    /// Position of the listing stored under `(website, website_id)`.
    fn find_listing(&self, website: &String, website_id: &String) -> (found: Option<usize>)
        requires
            self@.wf(),
        ensures
            match found {
                Some(i) => i < self@.listings.len() && self@.listings[i as int].website == website@
                    && self@.listings[i as int].website_id == website_id@ && i
                    == self@.listing_index(website@, website_id@) && self@.has_listing(
                    website@,
                    website_id@,
                ),
                None => !self@.has_listing(website@, website_id@),
            },
    {
        let mut i: usize = 0;
        while i < self.listings.len()
            invariant
                i <= self.listings.len(),
                self@.wf(),
                self@.listings.len() == self.listings.len(),
                forall|j: int|
                    0 <= j < i ==> !(self@.listings[j].website == website@
                        && self@.listings[j].website_id == website_id@),
            decreases self.listings.len() - i,
        {
            if self.listings[i].website == *website && self.listings[i].website_id == *website_id {
                return Some(i);
            }
            i += 1;
        }
        None
    }

    /// Whether some listing refers to the blob `blob_id`.
    fn references(&self, blob_id: i64) -> (referenced: bool)
        ensures
            referenced == self@.is_referenced(blob_id as int),
    {
        let mut i: usize = 0;
        while i < self.listings.len()
            invariant
                i <= self.listings.len(),
                self@.listings.len() == self.listings.len(),
                forall|j: int| 0 <= j < i ==> self@.listings[j].image_blob != blob_id,
            decreases self.listings.len() - i,
        {
            if self.listings[i].image_blob == blob_id {
                assert(self@.listings[i as int].image_blob == blob_id);
                return true;
            }
            i += 1;
        }
        false
    }

    /// Stores `data` in the blob table unless a blob with the same content
    /// address is there already, and returns the identifier of the blob under
    /// that address. Fails, changing nothing, when a new blob is needed and no
    /// identifier is left.
    fn insert_blob(&mut self, data: &[u8]) -> (stored: Result<i64, StoreError>)
        requires
            old(self)@.wf(),
        ensures
            final(self)@.wf(),
            match stored {
                Ok(id) => {
                    &&& old(self)@.knows_hash(blob_hash(data@)) || old(self)@.next_blob_id()
                        <= i64::MAX
                    &&& final(self)@ == old(self)@.put(data@)
                    &&& id == final(self)@.blob_id_for(data@)
                },
                Err(e) => {
                    &&& e == StoreError::Full
                    &&& !old(self)@.knows_hash(blob_hash(data@))
                    &&& old(self)@.next_blob_id() > i64::MAX
                    &&& final(self)@ == old(self)@
                },
            },
    {
        proof {
            lemma_put_wf(self@, data@);
        }
        let hash = hash_blob(data);
        match self.find_hash(&hash) {
            Some(k) => Ok(self.blobs[k].id),
            None => {
                let n = self.blobs.len();
                let id: i64 = if n == 0 {
                    1
                } else {
                    let last = self.blobs[n - 1].id;
                    if last == i64::MAX {
                        return Err(StoreError::Full);
                    }
                    last + 1
                };
                let row = BlobRow { id, hash, data: vstd::slice::slice_to_vec(data) };
                assert(blob_records(self.blobs@.push(row)) =~= self@.blobs.push(row@));
                self.blobs.push(row);
                Ok(id)
            },
        }
    }

    /// Deletes the blob `id` if no listing refers to it; does nothing
    /// otherwise, or when no such blob is stored.
    fn garbage_collect_blob(&mut self, id: i64)
        requires
            old(self)@.wf(),
        ensures
            final(self)@.wf(),
            final(self)@ == old(self)@.collect(id as int),
    {
        if self.references(id) {
            return;
        }
        match self.find_blob(id) {
            Some(k) => {
                proof {
                    lemma_collect_removes(self@, k as int);
                    assert(blob_records(self.blobs@.remove(k as int)) =~= self@.blobs.remove(
                        k as int,
                    ));
                }
                self.blobs.remove(k);
            },
            None => {
                proof {
                    lemma_collect_absent(self@, id as int);
                }
            },
        }
    }

    /// Stores a scraped listing at time `now`. A listing already stored under
    /// the same `(website, website_id)` is brought up to date in place: it gets
    /// the new price, title, image and time of sighting and gains the new
    /// category tags, and the image it had before is collected if nothing
    /// refers to it any more. An unknown listing is added. Fails, changing
    /// nothing, when a new row is needed and no identifier is left for it.
    fn insert_or_update(&mut self, listing: Listing, now: i64) -> (done: Result<
        (),
        StoreError,
    >)
        requires
            old(self)@.wf(),
        ensures
            final(self)@.wf(),
            match done {
                Ok(_) => {
                    &&& old(self)@.has_room(listing@)
                    &&& final(self)@ == old(self)@.upsert(listing@, now as int)
                },
                Err(e) => {
                    &&& e == StoreError::Full
                    &&& !old(self)@.has_room(listing@)
                    &&& final(self)@ == old(self)@
                },
            },
    {
        let found = self.find_listing(&listing.website, &listing.website_id);
        let n = self.listings.len();
        if found.is_none() && n > 0 {
            if self.listings[n - 1].id == i64::MAX {
                return Err(StoreError::Full);
            }
        }
        proof {
            lemma_put_wf(self@, listing.image_data@);
        }
        let blob = match self.insert_blob(listing.image_data.as_slice()) {
            Ok(id) => id,
            Err(e) => {
                return Err(e);
            },
        };
        let ghost stored = self@;
        match found {
            Some(i) => {
                let ghost before = stored.listings[i as int];
                let ghost after = revised(before, listing@, blob as int, now as int);
                proof {
                    lemma_revise_wf(stored, i as int, listing@, blob as int, now as int);
                }
                let previous = self.listings[i].image_blob;
                self.listings[i].price = listing.price;
                self.listings[i].title = listing.title;
                self.listings[i].image_blob = blob;
                self.listings[i].last_seen = now;
                add_tags(&mut self.listings[i].categories, listing.categories);
                assert(self@.listings =~= stored.listings.update(i as int, after));
                self.garbage_collect_blob(previous);
                Ok(())
            },
            None => {
                let id: i64 = if n == 0 {
                    1
                } else {
                    self.listings[n - 1].id + 1
                };
                let ghost fresh = created(id as int, listing@, blob as int, now as int);
                proof {
                    lemma_append_wf(stored, listing@, blob as int, now as int);
                }
                let mut categories: Vec<String> = Vec::new();
                assert(categories.deep_view() =~= Seq::empty());
                add_tags(&mut categories, listing.categories);
                let row = ListingRow {
                    id,
                    created: now,
                    last_seen: now,
                    website: listing.website,
                    website_id: listing.website_id,
                    price: listing.price,
                    title: listing.title,
                    image_blob: blob,
                    categories,
                    star_rating: listing.star_rating,
                    max_stars: listing.max_stars,
                    num_reviews: listing.num_reviews,
                };
                assert(listing_records(self.listings@.push(row)) =~= stored.listings.push(fresh));
                self.listings.push(row);
                Ok(())
            },
        }
    }

    /// For each listing, whether `level` admits it.
    fn members(&self, level: &Level) -> (flags: Vec<bool>)
        ensures
            flags.len() == self@.listings.len(),
            forall|i: int|
                0 <= i < flags.len() ==> flags[i] == level.admits(
                    (#[trigger] self@.listings[i]).website,
                    self@.listings[i].categories,
                ),
    {
        let mut flags: Vec<bool> = Vec::new();
        let mut i: usize = 0;
        while i < self.listings.len()
            invariant
                i <= self.listings.len(),
                self@.listings.len() == self.listings.len(),
                flags.len() == i,
                forall|j: int|
                    0 <= j < i ==> flags[j] == level.admits(
                        (#[trigger] self@.listings[j]).website,
                        self@.listings[j].categories,
                    ),
            decreases self.listings.len() - i,
        {
            let row = &self.listings[i];
            flags.push(level.query.matches(row.website.as_str(), &row.categories));
            i += 1;
        }
        flags
    }

    /// How many listings of `level` are ahead of listing `i` in retention
    /// order, given the level's membership flags.
    fn rank_of(&self, level: &Level, members: &Vec<bool>, i: usize) -> (rank: usize)
        requires
            i < self@.listings.len(),
            members.len() == self@.listings.len(),
            forall|j: int|
                0 <= j < members.len() ==> members[j] == level.admits(
                    (#[trigger] self@.listings[j]).website,
                    self@.listings[j].categories,
                ),
        ensures
            rank == self@.rank(*level, self@.listings[i as int]),
    {
        let ghost rows = self@.listings;
        let ghost target = rows[i as int];
        let ghost ahead = |m: ListingRecord|
            level.admits(m.website, m.categories) && outranks(m, target);
        let seen = self.listings[i].last_seen;
        let id = self.listings[i].id;
        let mut rank: usize = 0;
        let mut j: usize = 0;
        while j < self.listings.len()
            invariant
                j <= self.listings.len(),
                rows == self@.listings,
                rows.len() == self.listings.len(),
                members.len() == rows.len(),
                i < rows.len(),
                target == rows[i as int],
                seen == target.last_seen,
                id == target.id,
                ahead == |m: ListingRecord|
                    level.admits(m.website, m.categories) && outranks(m, target),
                forall|k: int|
                    0 <= k < members.len() ==> members[k] == level.admits(
                        (#[trigger] rows[k]).website,
                        rows[k].categories,
                    ),
                rank <= j,
                rank == rows.take(j as int).filter(ahead).len(),
            decreases self.listings.len() - j,
        {
            proof {
                lemma_filter_step(rows, ahead, j as int);
            }
            let row = &self.listings[j];
            if members[j] && (row.last_seen > seen || (row.last_seen == seen && row.id < id)) {
                rank += 1;
            }
            j += 1;
        }
        assert(rows.take(rows.len() as int) =~= rows);
        rank
    }

    /// For each listing, whether it outlasts a sweep with these levels and
    /// this capacity.
    fn survivors(&self, levels: &Vec<Level>, capacity: i64) -> (flags: Vec<bool>)
        ensures
            flags.len() == self@.listings.len(),
            forall|i: int|
                0 <= i < flags.len() ==> flags[i] == self@.survives(
                    levels@,
                    capacity as int,
                    #[trigger] self@.listings[i],
                ),
    {
        let ghost rows = self@.listings;
        let n = self.listings.len();
        let mut membership: Vec<Vec<bool>> = Vec::new();
        let mut k: usize = 0;
        while k < levels.len()
            invariant
                k <= levels.len(),
                rows == self@.listings,
                membership.len() == k,
                forall|a: int|
                    0 <= a < k ==> (#[trigger] membership[a]).len() == rows.len(),
                forall|a: int, j: int|
                    0 <= a < k && 0 <= j < rows.len() ==> (#[trigger] membership[a])[j]
                        == levels[a].admits((#[trigger] rows[j]).website, rows[j].categories),
            decreases levels.len() - k,
        {
            let flags = self.members(&levels[k]);
            membership.push(flags);
            k += 1;
        }
        let mut flags: Vec<bool> = Vec::new();
        let mut i: usize = 0;
        while i < n
            invariant
                i <= n,
                n == rows.len(),
                rows == self@.listings,
                membership.len() == levels.len(),
                forall|a: int|
                    0 <= a < levels.len() ==> (#[trigger] membership[a]).len() == rows.len(),
                forall|a: int, j: int|
                    0 <= a < levels.len() && 0 <= j < rows.len() ==> (#[trigger] membership[a])[j]
                        == levels[a].admits((#[trigger] rows[j]).website, rows[j].categories),
                flags.len() == i,
                forall|j: int|
                    0 <= j < i ==> flags[j] == self@.survives(
                        levels@,
                        capacity as int,
                        #[trigger] rows[j],
                    ),
            decreases n - i,
        {
            let ghost l = rows[i as int];
            let mut admitted = false;
            let mut kept = false;
            let mut a: usize = 0;
            while a < levels.len() && !kept
                invariant
                    a <= levels.len(),
                    i < n,
                    n == rows.len(),
                    rows == self@.listings,
                    l == rows[i as int],
                    membership.len() == levels.len(),
                    forall|b: int|
                        0 <= b < levels.len() ==> (#[trigger] membership[b]).len() == rows.len(),
                    forall|b: int, j: int|
                        0 <= b < levels.len() && 0 <= j < rows.len() ==> (
                        #[trigger] membership[b])[j] == levels[b].admits(
                            (#[trigger] rows[j]).website,
                            rows[j].categories,
                        ),
                    admitted == admitted_upto(levels@, l, a as int),
                    kept == kept_upto(self@, levels@, capacity as int, l, a as int),
                decreases levels.len() - a,
            {
                let mut keeps = false;
                if membership[a][i] {
                    admitted = true;
                    if capacity < 0 {
                        keeps = true;
                    } else {
                        let rank = self.rank_of(&levels[a], &membership[a], i);
                        keeps = (rank as u64) < (capacity as u64);
                    }
                }
                if keeps {
                    kept = true;
                }
                a += 1;
            }
            proof {
                if kept {
                    let j = choose|j: int|
                        0 <= j < a as int && self@.kept_by(#[trigger] levels@[j], capacity as int, l);
                } else {
                    if admitted {
                        let j = choose|j: int|
                            0 <= j < a as int && (#[trigger] levels@[j]).admits(
                                l.website,
                                l.categories,
                            );
                    }
                }
            }
            flags.push(kept || !admitted);
            i += 1;
        }
        flags
    }

    /// For each blob, whether some listing refers to it.
    fn referenced(&self) -> (flags: Vec<bool>)
        ensures
            flags.len() == self@.blobs.len(),
            forall|k: int|
                0 <= k < flags.len() ==> flags[k] == self@.is_referenced(
                    (#[trigger] self@.blobs[k]).id,
                ),
    {
        let mut flags: Vec<bool> = Vec::new();
        let mut k: usize = 0;
        while k < self.blobs.len()
            invariant
                k <= self.blobs.len(),
                self@.blobs.len() == self.blobs.len(),
                flags.len() == k,
                forall|m: int|
                    0 <= m < k ==> flags[m] == self@.is_referenced((#[trigger] self@.blobs[m]).id),
            decreases self.blobs.len() - k,
        {
            let id = self.blobs[k].id;
            flags.push(self.references(id));
            k += 1;
        }
        flags
    }

    /// One retention sweep. Every listing that some level of `levels` admits
    /// is deleted unless one of the levels that admit it ranks it, most
    /// recently seen first, inside `capacity`; listings that no level admits
    /// stay. Then every blob that no remaining listing refers to is deleted.
    /// A negative capacity sets no bound. Returns the numbers of listings and
    /// of blobs deleted.
    fn sweep(&mut self, levels: &Vec<Level>, capacity: i64) -> (deleted: (usize, usize))
        requires
            old(self)@.wf(),
        ensures
            final(self)@.wf(),
            final(self)@ == old(self)@.sweep(levels@, capacity as int),
            deleted.0 == old(self)@.listings.len() - final(self)@.listings.len(),
            deleted.1 == old(self)@.blobs.len() - final(self)@.blobs.len(),
    {
        let ghost before = self@;
        let ghost survivor = |l: ListingRecord| before.survives(levels@, capacity as int, l);
        let keep = self.survivors(levels, capacity);
        let mut rows: Vec<ListingRow> = Vec::new();
        std::mem::swap(&mut self.listings, &mut rows);
        let listings_before = rows.len();
        proof {
            assert forall|i: int| 0 <= i < rows@.len() implies keep@[i] == survivor(
                (#[trigger] rows@[i])@,
            ) by {
                assert(before.listings[i] == rows@[i]@);
            }
            lemma_picked_is_filter(
                rows@,
                keep@,
                |r: ListingRow| r@,
                survivor,
                rows@.len(),
            );
            assert(before.listings.take(rows@.len() as int) =~= before.listings);
            before.listings.lemma_filter_len(survivor);
            lemma_evict_wf(before, survivor);
        }
        self.listings = retain_flagged(rows, &keep);
        let ghost evicted = self@;
        let ghost in_use = |b: BlobRecord| evicted.is_referenced(b.id);
        let used = self.referenced();
        let mut blobs: Vec<BlobRow> = Vec::new();
        std::mem::swap(&mut self.blobs, &mut blobs);
        let blobs_before = blobs.len();
        proof {
            assert forall|k: int| 0 <= k < blobs@.len() implies used@[k] == in_use(
                (#[trigger] blobs@[k])@,
            ) by {
                assert(evicted.blobs[k] == blobs@[k]@);
            }
            lemma_picked_is_filter(blobs@, used@, |r: BlobRow| r@, in_use, blobs@.len());
            assert(evicted.blobs.take(blobs@.len() as int) =~= evicted.blobs);
            evicted.blobs.lemma_filter_len(in_use);
            lemma_orphans_wf(evicted);
        }
        self.blobs = retain_flagged(blobs, &used);
        (listings_before - self.listings.len(), blobs_before - self.blobs.len())
    }

    /// One retention sweep over the configured levels.
    fn delete_old_listings(&mut self, category_capacity: i64) -> (deleted: (usize, usize))
        requires
            old(self)@.wf(),
        ensures
            final(self)@.wf(),
            final(self)@ == old(self)@.sweep(crate::levels::level_table(), category_capacity as int),
            deleted.0 == old(self)@.listings.len() - final(self)@.listings.len(),
            deleted.1 == old(self)@.blobs.len() - final(self)@.blobs.len(),
    {
        let table = levels();
        self.sweep(&table, category_capacity)
    }

    /// For each listing, whether `level` admits it and `excluded` does not
    /// name it.
    fn eligibility(&self, excluded: &Vec<i64>, level: &Level) -> (flags: Vec<bool>)
        ensures
            flags.len() == self@.listings.len(),
            forall|i: int|
                0 <= i < flags.len() ==> flags[i] == (level.admits(
                    (#[trigger] self@.listings[i]).website,
                    self@.listings[i].categories,
                ) && !is_excluded(excluded@, self@.listings[i].id)),
    {
        broadcast use vstd::std_specs::hash::group_hash_axioms;

        let set = exclusion_set(excluded);
        let mut flags: Vec<bool> = Vec::new();
        let mut i: usize = 0;
        while i < self.listings.len()
            invariant
                i <= self.listings.len(),
                self@.listings.len() == self.listings.len(),
                forall|id: i64| set@.contains(id) <==> is_excluded(excluded@, id as int),
                flags.len() == i,
                forall|j: int|
                    0 <= j < i ==> flags[j] == (level.admits(
                        (#[trigger] self@.listings[j]).website,
                        self@.listings[j].categories,
                    ) && !is_excluded(excluded@, self@.listings[j].id)),
            decreases self.listings.len() - i,
        {
            let row = &self.listings[i];
            let hit = !set.contains(&row.id) && level.query.matches(
                row.website.as_str(),
                &row.categories,
            );
            flags.push(hit);
            i += 1;
        }
        flags
    }

    /// How many listings `level` admits, not counting those that `blacklist`
    /// names.
    fn level_count(&self, blacklist: &Vec<i64>, level: &Level) -> (count: usize)
        ensures
            count == self@.eligible(blacklist@, *level).len(),
    {
        let ghost rows = self@.listings;
        let ghost wanted = |l: ListingRecord|
            level.admits(l.website, l.categories) && !is_excluded(blacklist@, l.id);
        let flags = self.eligibility(blacklist, level);
        let mut count: usize = 0;
        let mut i: usize = 0;
        while i < flags.len()
            invariant
                i <= flags.len(),
                flags.len() == rows.len(),
                wanted == |l: ListingRecord|
                    level.admits(l.website, l.categories) && !is_excluded(blacklist@, l.id),
                forall|j: int|
                    0 <= j < flags.len() ==> flags[j] == wanted(#[trigger] rows[j]),
                count <= i,
                count == rows.take(i as int).filter(wanted).len(),
            decreases flags.len() - i,
        {
            proof {
                lemma_filter_step(rows, wanted, i as int);
            }
            if flags[i] {
                count += 1;
            }
            i += 1;
        }
        assert(rows.take(rows.len() as int) =~= rows);
        count
    }

    /// The listing at place `pick` among those that `level` admits and
    /// `blacklist` does not name, in stored order, with its image bytes and its
    /// identifier; `None` when there are no more than `pick` of them.
    fn sample_listing_at(&self, blacklist: &Vec<i64>, level: &Level, pick: usize) -> (sample:
        Option<(Listing, i64)>)
        requires
            self@.wf(),
        ensures
            match sample {
                Some((listing, id)) => {
                    &&& pick < self@.eligible(blacklist@, *level).len()
                    &&& id == self@.eligible(blacklist@, *level)[pick as int].id
                    &&& listing@ == self@.listing_of(self@.eligible(blacklist@, *level)[pick as int])
                },
                None => self@.eligible(blacklist@, *level).len() <= pick,
            },
    {
        let ghost rows = self@.listings;
        let ghost wanted = |l: ListingRecord|
            level.admits(l.website, l.categories) && !is_excluded(blacklist@, l.id);
        let flags = self.eligibility(blacklist, level);
        let mut count: usize = 0;
        let mut i: usize = 0;
        while i < flags.len()
            invariant
                i <= flags.len(),
                self@.wf(),
                rows == self@.listings,
                flags.len() == rows.len(),
                wanted == |l: ListingRecord|
                    level.admits(l.website, l.categories) && !is_excluded(blacklist@, l.id),
                forall|j: int|
                    0 <= j < flags.len() ==> flags[j] == wanted(#[trigger] rows[j]),
                count <= i,
                count <= pick,
                count == rows.take(i as int).filter(wanted).len(),
            decreases flags.len() - i,
        {
            proof {
                lemma_filter_step(rows, wanted, i as int);
                lemma_filter_prefix(rows, wanted, i as int + 1);
            }
            if flags[i] {
                if count == pick {
                    let row = &self.listings[i];
                    assert(rows.filter(wanted)[pick as int] == rows[i as int]) by {
                        let upto = rows.take(i as int + 1).filter(wanted);
                        assert(rows.filter(wanted).take(upto.len() as int)[pick as int]
                            == upto[pick as int]);
                    }
                    let image_data = match self.find_blob(row.image_blob) {
                        Some(k) => vstd::slice::slice_to_vec(self.blobs[k].data.as_slice()),
                        None => Vec::new(),
                    };
                    let listing = Listing {
                        website: row.website.clone(),
                        website_id: row.website_id.clone(),
                        price: row.price,
                        title: row.title.clone(),
                        image_data,
                        categories: copy_tags(&row.categories),
                        star_rating: row.star_rating,
                        max_stars: row.max_stars,
                        num_reviews: row.num_reviews,
                    };
                    return Some((listing, row.id));
                }
                count += 1;
            }
            i += 1;
        }
        assert(rows.take(rows.len() as int) =~= rows);
        None
    }

    /// The configured levels that still have a listing for a client who has
    /// seen the listings that `seen` names, in display order, each with the
    /// number of such listings.
    fn non_empty_levels(&self, seen: &Vec<i64>) -> (found: Vec<LevelCount>)
        ensures
            found@.map_values(|e: LevelCount| e.level) == crate::levels::level_table().filter(
                |level: Level| self@.eligible(seen@, level).len() > 0,
            ),
            forall|i: int|
                0 <= i < found.len() ==> (#[trigger] found[i]).count == self@.eligible(
                    seen@,
                    found[i].level,
                ).len(),
    {
        let table = levels();
        let ghost open = |level: Level| self@.eligible(seen@, level).len() > 0;
        let ghost level_of = |e: LevelCount| e.level;
        let mut found: Vec<LevelCount> = Vec::new();
        let mut k: usize = 0;
        while k < table.len()
            invariant
                k <= table.len(),
                table@ == crate::levels::level_table(),
                open == |level: Level| self@.eligible(seen@, level).len() > 0,
                level_of == |e: LevelCount| e.level,
                found@.map_values(level_of) == table@.take(k as int).filter(open),
                forall|i: int|
                    0 <= i < found.len() ==> (#[trigger] found[i]).count == self@.eligible(
                        seen@,
                        found[i].level,
                    ).len(),
            decreases table.len() - k,
        {
            proof {
                lemma_filter_step(table@, open, k as int);
            }
            let level = table[k];
            let count = self.level_count(seen, &level);
            if count > 0 {
                let entry = LevelCount { level, count };
                found.push(entry);
            }
            k += 1;
        }
        assert(table@.take(table.len() as int) =~= table@);
        found
    }

    /// When a listing of `level` was last seen; `None` if the level has no
    /// listing.
    fn level_last_seen(&self, level: &Level) -> (seen: Option<i64>)
        ensures
            match seen {
                Some(t) => self@.is_last_seen(*level, t as int),
                None => self@.is_vacant(*level),
            },
    {
        let mut seen: Option<i64> = None;
        let mut i: usize = 0;
        while i < self.listings.len()
            invariant
                i <= self.listings.len(),
                self@.listings.len() == self.listings.len(),
                match seen {
                    Some(t) => {
                        &&& exists|j: int|
                            0 <= j < i && level.admits(
                                (#[trigger] self@.listings[j]).website,
                                self@.listings[j].categories,
                            ) && self@.listings[j].last_seen == t
                        &&& forall|j: int|
                            0 <= j < i && level.admits(
                                (#[trigger] self@.listings[j]).website,
                                self@.listings[j].categories,
                            ) ==> self@.listings[j].last_seen <= t
                    },
                    None => forall|j: int|
                        0 <= j < i ==> !level.admits(
                            (#[trigger] self@.listings[j]).website,
                            self@.listings[j].categories,
                        ),
                },
            decreases self.listings.len() - i,
        {
            let row = &self.listings[i];
            assert(self@.listings[i as int] == row@);
            if level.query.matches(row.website.as_str(), &row.categories) {
                let later = match seen {
                    Some(t) => row.last_seen > t,
                    None => true,
                };
                if later {
                    seen = Some(row.last_seen);
                }
            }
            i += 1;
        }
        seen
    }

    /// Position of the status row of `source`.
    fn find_source(&self, source: &String) -> (found: Option<usize>)
        requires
            self@.wf(),
        ensures
            match found {
                Some(i) => i < self@.sources.len() && self@.sources[i as int].source_id == source@
                    && i == self@.source_index(source@) && self@.has_source(source@),
                None => !self@.has_source(source@),
            },
    {
        let mut i: usize = 0;
        while i < self.sources.len()
            invariant
                i <= self.sources.len(),
                self@.wf(),
                self@.sources.len() == self.sources.len(),
                forall|j: int| 0 <= j < i ==> self@.sources[j].source_id != source@,
            decreases self.sources.len() - i,
        {
            if self.sources[i].source_id == *source {
                assert(self@.sources[i as int].source_id == source@);
                return Some(i);
            }
            i += 1;
        }
        None
    }

    /// Whether `source` is due for polling at `now`: it was never polled, or
    /// more than `max_seconds` have passed since it was.
    fn should_update_source(&self, source: String, max_seconds: i64, now: i64) -> (due: bool)
        requires
            self@.wf(),
        ensures
            due == self@.is_due(source@, max_seconds as int, now as int),
    {
        match self.find_source(&source) {
            Some(i) => {
                let last = self.sources[i].last_updated;
                (last as i128) + (max_seconds as i128) < (now as i128)
            },
            None => true,
        }
    }

    /// Records that `source` was polled at `now`.
    fn updated_source(&mut self, source: String, now: i64)
        requires
            old(self)@.wf(),
        ensures
            final(self)@.wf(),
            final(self)@ == old(self)@.mark_updated(source@, now as int),
    {
        proof {
            lemma_mark_updated(self@, source@, now as int);
        }
        let ghost row = SourceRecord { source_id: source@, last_updated: now as int };
        match self.find_source(&source) {
            Some(i) => {
                self.sources[i].last_updated = now;
                assert(self@.sources =~= old(self)@.sources.update(i as int, row));
            },
            None => {
                let status = SourceStatus { source_id: source, last_updated: now };
                assert(source_records(self.sources@.push(status)) =~= self@.sources.push(row));
                self.sources.push(status);
            },
        }
    }

    /// Whether the listing identifiers are positive and grow along the table.
    fn listing_ids_ascend(&self) -> (ok: bool)
        ensures
            ok == ((forall|i: int|
                0 <= i < self@.listings.len() ==> 1 <= (#[trigger] self@.listings[i]).id)
                && (forall|i: int, j: int|
                0 <= i < j < self@.listings.len() ==> (#[trigger] self@.listings[i]).id < (
                #[trigger] self@.listings[j]).id)),
    {
        let n = self.listings.len();
        if n == 0 {
            return true;
        }
        assert(self@.listings[0].id == self.listings[0].id);
        if self.listings[0].id < 1 {
            return false;
        }
        let mut i: usize = 1;
        while i < n
            invariant
                1 <= i <= n,
                n == self.listings.len(),
                n == self@.listings.len(),
                forall|a: int| 0 <= a < i ==> 1 <= (#[trigger] self@.listings[a]).id,
                forall|a: int, b: int|
                    0 <= a < b < i ==> (#[trigger] self@.listings[a]).id < (
                    #[trigger] self@.listings[b]).id,
            decreases n - i,
        {
            assert(self@.listings[i as int].id == self.listings[i as int].id);
            assert(self@.listings[i - 1].id == self.listings[i - 1].id);
            if self.listings[i - 1].id >= self.listings[i].id {
                return false;
            }
            i += 1;
        }
        true
    }

    /// Whether the blob identifiers are positive and grow along the table.
    fn blob_ids_ascend(&self) -> (ok: bool)
        ensures
            ok == ((forall|k: int| 0 <= k < self@.blobs.len() ==> 1 <= (#[trigger] self@.blobs[k]).id)
                && (forall|k: int, m: int|
                0 <= k < m < self@.blobs.len() ==> (#[trigger] self@.blobs[k]).id < (
                #[trigger] self@.blobs[m]).id)),
    {
        let n = self.blobs.len();
        if n == 0 {
            return true;
        }
        assert(self@.blobs[0].id == self.blobs[0].id);
        if self.blobs[0].id < 1 {
            return false;
        }
        let mut i: usize = 1;
        while i < n
            invariant
                1 <= i <= n,
                n == self.blobs.len(),
                n == self@.blobs.len(),
                forall|a: int| 0 <= a < i ==> 1 <= (#[trigger] self@.blobs[a]).id,
                forall|a: int, b: int|
                    0 <= a < b < i ==> (#[trigger] self@.blobs[a]).id < (#[trigger] self@.blobs[b]).id,
            decreases n - i,
        {
            assert(self@.blobs[i as int].id == self.blobs[i as int].id);
            assert(self@.blobs[i - 1].id == self.blobs[i - 1].id);
            if self.blobs[i - 1].id >= self.blobs[i].id {
                return false;
            }
            i += 1;
        }
        true
    }

    /// Whether no two listings have the same key.
    fn keys_differ(&self) -> (ok: bool)
        ensures
            ok == (forall|i: int, j: int|
                0 <= i < j < self@.listings.len() ==> !((#[trigger] self@.listings[i]).website
                    == (#[trigger] self@.listings[j]).website && self@.listings[i].website_id
                    == self@.listings[j].website_id)),
    {
        let n = self.listings.len();
        let mut j: usize = 0;
        while j < n
            invariant
                j <= n,
                n == self.listings.len(),
                n == self@.listings.len(),
                forall|a: int, b: int|
                    0 <= a < b < j ==> !((#[trigger] self@.listings[a]).website == (
                    #[trigger] self@.listings[b]).website && self@.listings[a].website_id
                        == self@.listings[b].website_id),
            decreases n - j,
        {
            let mut i: usize = 0;
            while i < j
                invariant
                    i <= j < n,
                    n == self.listings.len(),
                    n == self@.listings.len(),
                    forall|a: int|
                        0 <= a < i ==> !((#[trigger] self@.listings[a]).website
                            == self@.listings[j as int].website && self@.listings[a].website_id
                            == self@.listings[j as int].website_id),
                decreases j - i,
            {
                assert(self@.listings[i as int] == self.listings[i as int]@);
                if self.listings[i].website == self.listings[j].website
                    && self.listings[i].website_id == self.listings[j].website_id {
                    return false;
                }
                i += 1;
            }
            j += 1;
        }
        true
    }

    /// Whether no two blobs have the same content address.
    fn hashes_differ(&self) -> (ok: bool)
        ensures
            ok == (forall|k: int, m: int|
                0 <= k < m < self@.blobs.len() ==> (#[trigger] self@.blobs[k]).hash != (
                #[trigger] self@.blobs[m]).hash),
    {
        let n = self.blobs.len();
        let mut j: usize = 0;
        while j < n
            invariant
                j <= n,
                n == self.blobs.len(),
                n == self@.blobs.len(),
                forall|a: int, b: int|
                    0 <= a < b < j ==> (#[trigger] self@.blobs[a]).hash != (
                    #[trigger] self@.blobs[b]).hash,
            decreases n - j,
        {
            let mut i: usize = 0;
            while i < j
                invariant
                    i <= j < n,
                    n == self.blobs.len(),
                    n == self@.blobs.len(),
                    forall|a: int|
                        0 <= a < i ==> (#[trigger] self@.blobs[a]).hash != self@.blobs[j as int].hash,
                decreases j - i,
            {
                assert(self@.blobs[i as int] == self.blobs[i as int]@);
                assert(self@.blobs[j as int] == self.blobs[j as int]@);
                if self.blobs[i].hash == self.blobs[j].hash {
                    return false;
                }
                i += 1;
            }
            j += 1;
        }
        true
    }

    /// Whether no two status rows are for the same source.
    fn sources_differ(&self) -> (ok: bool)
        ensures
            ok == (forall|i: int, j: int|
                0 <= i < j < self@.sources.len() ==> (#[trigger] self@.sources[i]).source_id != (
                #[trigger] self@.sources[j]).source_id),
    {
        let n = self.sources.len();
        let mut j: usize = 0;
        while j < n
            invariant
                j <= n,
                n == self.sources.len(),
                n == self@.sources.len(),
                forall|a: int, b: int|
                    0 <= a < b < j ==> (#[trigger] self@.sources[a]).source_id != (
                    #[trigger] self@.sources[b]).source_id,
            decreases n - j,
        {
            let mut i: usize = 0;
            while i < j
                invariant
                    i <= j < n,
                    n == self.sources.len(),
                    n == self@.sources.len(),
                    forall|a: int|
                        0 <= a < i ==> (#[trigger] self@.sources[a]).source_id
                            != self@.sources[j as int].source_id,
                decreases j - i,
            {
                assert(self@.sources[i as int] == self.sources[i as int]@);
                assert(self@.sources[j as int] == self.sources[j as int]@);
                if self.sources[i].source_id == self.sources[j].source_id {
                    return false;
                }
                i += 1;
            }
            j += 1;
        }
        true
    }

    /// Whether every listing refers to a stored blob and repeats none of its
    /// category tags.
    fn rows_sound(&self) -> (ok: bool)
        ensures
            ok == ((forall|i: int|
                0 <= i < self@.listings.len() ==> (
                #[trigger] self@.listings[i]).categories.no_duplicates()) && (forall|i: int|
                0 <= i < self@.listings.len() ==> self@.has_blob(
                    (#[trigger] self@.listings[i]).image_blob,
                ))),
    {
        let n = self.listings.len();
        let mut i: usize = 0;
        while i < n
            invariant
                i <= n,
                n == self.listings.len(),
                n == self@.listings.len(),
                forall|a: int|
                    0 <= a < i ==> (#[trigger] self@.listings[a]).categories.no_duplicates(),
                forall|a: int|
                    0 <= a < i ==> self@.has_blob((#[trigger] self@.listings[a]).image_blob),
            decreases n - i,
        {
            let row = &self.listings[i];
            assert(self@.listings[i as int] == row@);
            if !tags_differ(&row.categories) {
                return false;
            }
            let mut found = false;
            let mut k: usize = 0;
            while k < self.blobs.len() && !found
                invariant
                    k <= self.blobs.len(),
                    self@.blobs.len() == self.blobs.len(),
                    found ==> self@.has_blob(row.image_blob as int),
                    !found ==> forall|m: int| 0 <= m < k ==> self@.blobs[m].id != row.image_blob,
                decreases self.blobs.len() - k,
            {
                if self.blobs[k].id == row.image_blob {
                    assert(self@.blobs[k as int].id == row.image_blob);
                    found = true;
                }
                k += 1;
            }
            if !found {
                return false;
            }
            i += 1;
        }
        true
    }

    /// Whether the rows are consistent, as [`Store::wf`] says.
    fn is_consistent(&self) -> (ok: bool)
        ensures
            ok == self@.wf(),
    {
        self.listing_ids_ascend() && self.keys_differ() && self.rows_sound()
            && self.blob_ids_ascend() && self.hashes_differ() && self.sources_differ()
    }

    /// The store that holds the given rows, if they are consistent.
    fn from_rows(listings: Vec<ListingRow>, blobs: Vec<BlobRow>, sources: Vec<SourceStatus>) -> (db:
        Option<Tables>)
        ensures
            match db {
                Some(db) => {
                    &&& db@.wf()
                    &&& db@.listings == listing_records(listings@)
                    &&& db@.blobs == blob_records(blobs@)
                    &&& db@.sources == source_records(sources@)
                },
                None => !(Store {
                    listings: listing_records(listings@),
                    blobs: blob_records(blobs@),
                    sources: source_records(sources@),
                }).wf(),
            },
    {
        let db = Tables { listings, blobs, sources };
        if db.is_consistent() {
            Some(db)
        } else {
            None
        }
    }
}

/// The store. It is built empty or from rows that are checked, its rows are
/// only reachable through its operations, and every operation leaves it
/// consistent, as [`Store::wf`] says.
pub struct Database {
    tables: Tables,
}

impl View for Database {
    type V = Store;

    closed spec fn view(&self) -> Store {
        self.tables@
    }
}

impl Database {
    #[verifier::type_invariant]
    spec fn consistent(&self) -> bool {
        self.tables@.wf()
    }

    /// Hands the tables out for an operation and leaves the store empty until
    /// they are put back.
    fn take(&mut self) -> (tables: Tables)
        ensures
            tables@ == old(self)@,
            tables@.wf(),
            final(self)@ == Store::empty(),
    {
        proof {
            use_type_invariant(&*self);
        }
        let mut tables = Tables::open_in_memory();
        std::mem::swap(&mut self.tables, &mut tables);
        tables
    }

    /// A new, empty store.
    pub fn open_in_memory() -> (db: Database)
        ensures
            db@ == Store::empty(),
            db@.wf(),
    {
        Database { tables: Tables::open_in_memory() }
    }

    /// The store that holds the given rows, if they are consistent.
    pub fn from_rows(listings: Vec<ListingRow>, blobs: Vec<BlobRow>, sources: Vec<SourceStatus>) -> (db:
        Option<Database>)
        ensures
            match db {
                Some(db) => {
                    &&& db@.wf()
                    &&& db@.listings == listing_records(listings@)
                    &&& db@.blobs == blob_records(blobs@)
                    &&& db@.sources == source_records(sources@)
                },
                None => !(Store {
                    listings: listing_records(listings@),
                    blobs: blob_records(blobs@),
                    sources: source_records(sources@),
                }).wf(),
            },
    {
        match Tables::from_rows(listings, blobs, sources) {
            Some(tables) => Some(Database { tables }),
            None => None,
        }
    }

    /// Does nothing; tells a verified caller that the store is consistent.
    pub fn consistency(&self)
        ensures
            self@.wf(),
    {
        proof {
            use_type_invariant(self);
        }
    }

    /// The listing rows, in the order of their identifiers.
    pub fn listings(&self) -> (rows: &Vec<ListingRow>)
        ensures
            listing_records(rows@) == self@.listings,
            self@.wf(),
    {
        proof {
            use_type_invariant(self);
        }
        self.tables.listings()
    }

    /// The blob rows, in the order of their identifiers.
    pub fn blobs(&self) -> (rows: &Vec<BlobRow>)
        ensures
            blob_records(rows@) == self@.blobs,
            self@.wf(),
    {
        proof {
            use_type_invariant(self);
        }
        self.tables.blobs()
    }

    /// The status rows of the sources.
    pub fn sources(&self) -> (rows: &Vec<SourceStatus>)
        ensures
            source_records(rows@) == self@.sources,
            self@.wf(),
    {
        proof {
            use_type_invariant(self);
        }
        self.tables.sources()
    }

    /// Stores `data` in the blob table unless a blob with the same content
    /// address is there already, and returns the identifier of the blob under
    /// that address. Fails, changing nothing, when a new blob is needed and no
    /// identifier is left.
    pub fn insert_blob(&mut self, data: &[u8]) -> (stored: Result<i64, StoreError>)
        ensures
            final(self)@.wf(),
            match stored {
                Ok(id) => {
                    &&& old(self)@.knows_hash(blob_hash(data@)) || old(self)@.next_blob_id()
                        <= i64::MAX
                    &&& final(self)@ == old(self)@.put(data@)
                    &&& id == final(self)@.blob_id_for(data@)
                },
                Err(e) => {
                    &&& e == StoreError::Full
                    &&& !old(self)@.knows_hash(blob_hash(data@))
                    &&& old(self)@.next_blob_id() > i64::MAX
                    &&& final(self)@ == old(self)@
                },
            },
    {
        let mut tables = self.take();
        let stored = tables.insert_blob(data);
        self.tables = tables;
        stored
    }

    /// Deletes the blob `id` if no listing refers to it; does nothing
    /// otherwise, or when no such blob is stored.
    pub fn garbage_collect_blob(&mut self, id: i64)
        ensures
            final(self)@.wf(),
            final(self)@ == old(self)@.collect(id as int),
    {
        let mut tables = self.take();
        tables.garbage_collect_blob(id);
        self.tables = tables;
    }

    /// Stores a scraped listing at time `now`. A listing already stored under
    /// the same `(website, website_id)` is brought up to date in place: it gets
    /// the new price, title, image and time of sighting and gains the new
    /// category tags, and the image it had before is collected if nothing
    /// refers to it any more. An unknown listing is added. Fails, changing
    /// nothing, when a new row is needed and no identifier is left for it.
    pub fn insert_or_update(&mut self, listing: Listing, now: i64) -> (done: Result<
        (),
        StoreError,
    >)
        ensures
            final(self)@.wf(),
            match done {
                Ok(_) => {
                    &&& old(self)@.has_room(listing@)
                    &&& final(self)@ == old(self)@.upsert(listing@, now as int)
                },
                Err(e) => {
                    &&& e == StoreError::Full
                    &&& !old(self)@.has_room(listing@)
                    &&& final(self)@ == old(self)@
                },
            },
    {
        let mut tables = self.take();
        let done = tables.insert_or_update(listing, now);
        self.tables = tables;
        done
    }

    /// One retention sweep. Every listing that some level of `levels` admits
    /// is deleted unless one of the levels that admit it ranks it, most
    /// recently seen first, inside `capacity`; listings that no level admits
    /// stay. Then every blob that no remaining listing refers to is deleted.
    /// A negative capacity sets no bound. Returns the numbers of listings and
    /// of blobs deleted.
    pub fn sweep(&mut self, levels: &Vec<Level>, capacity: i64) -> (deleted: (usize, usize))
        ensures
            final(self)@.wf(),
            final(self)@ == old(self)@.sweep(levels@, capacity as int),
            deleted.0 == old(self)@.listings.len() - final(self)@.listings.len(),
            deleted.1 == old(self)@.blobs.len() - final(self)@.blobs.len(),
    {
        let mut tables = self.take();
        let deleted = tables.sweep(levels, capacity);
        self.tables = tables;
        deleted
    }

    /// One retention sweep over the configured levels.
    pub fn delete_old_listings(&mut self, category_capacity: i64) -> (deleted: (usize, usize))
        ensures
            final(self)@.wf(),
            final(self)@ == old(self)@.sweep(crate::levels::level_table(), category_capacity as int),
            deleted.0 == old(self)@.listings.len() - final(self)@.listings.len(),
            deleted.1 == old(self)@.blobs.len() - final(self)@.blobs.len(),
    {
        let mut tables = self.take();
        let deleted = tables.delete_old_listings(category_capacity);
        self.tables = tables;
        deleted
    }

    /// How many listings `level` admits, not counting those that `blacklist`
    /// names.
    pub fn level_count(&self, blacklist: &Vec<i64>, level: &Level) -> (count: usize)
        ensures
            count == self@.eligible(blacklist@, *level).len(),
    {
        self.tables.level_count(blacklist, level)
    }

    /// The configured levels that still have a listing for a client who has
    /// seen the listings that `seen` names, in display order, each with the
    /// number of such listings.
    pub fn non_empty_levels(&self, seen: &Vec<i64>) -> (found: Vec<LevelCount>)
        ensures
            found@.map_values(|e: LevelCount| e.level) == crate::levels::level_table().filter(
                |level: Level| self@.eligible(seen@, level).len() > 0,
            ),
            forall|i: int|
                0 <= i < found.len() ==> (#[trigger] found[i]).count == self@.eligible(
                    seen@,
                    found[i].level,
                ).len(),
    {
        self.tables.non_empty_levels(seen)
    }

    /// When a listing of `level` was last seen; `None` if the level has no
    /// listing.
    pub fn level_last_seen(&self, level: &Level) -> (seen: Option<i64>)
        ensures
            match seen {
                Some(t) => self@.is_last_seen(*level, t as int),
                None => self@.is_vacant(*level),
            },
    {
        self.tables.level_last_seen(level)
    }

    /// The listing at place `pick` among those that `level` admits and
    /// `blacklist` does not name, in stored order, with its image bytes and its
    /// identifier; `None` when there are no more than `pick` of them.
    pub fn sample_listing_at(&self, blacklist: &Vec<i64>, level: &Level, pick: usize) -> (sample:
        Option<(Listing, i64)>)
        ensures
            match sample {
                Some((listing, id)) => {
                    &&& pick < self@.eligible(blacklist@, *level).len()
                    &&& id == self@.eligible(blacklist@, *level)[pick as int].id
                    &&& listing@ == self@.listing_of(self@.eligible(blacklist@, *level)[pick as int])
                },
                None => self@.eligible(blacklist@, *level).len() <= pick,
            },
    {
        proof {
            use_type_invariant(self);
        }
        self.tables.sample_listing_at(blacklist, level, pick)
    }

    /// One listing among those that `level` admits and `blacklist` does not
    /// name, drawn at random, with its image bytes and its identifier; `None`
    /// exactly when there is none to draw from.
    pub fn sample_listing(&self, blacklist: &Vec<i64>, level: &Level) -> (sample: Option<
        (Listing, i64),
    >)
        ensures
            match sample {
                Some((listing, id)) => exists|pick: int|
                    {
                        &&& 0 <= pick < self@.eligible(blacklist@, *level).len()
                        &&& id == (#[trigger] self@.eligible(blacklist@, *level)[pick]).id
                        &&& listing@ == self@.listing_of(self@.eligible(blacklist@, *level)[pick])
                    },
                None => self@.eligible(blacklist@, *level).len() == 0,
            },
    {
        let count = self.level_count(blacklist, level);
        if count == 0 {
            return None;
        }
        let pick = random_below(count);
        self.sample_listing_at(blacklist, level, pick)
    }

    /// Whether `source` is due for polling at `now`: it was never polled, or
    /// more than `max_seconds` have passed since it was.
    pub fn should_update_source(&self, source: String, max_seconds: i64, now: i64) -> (due: bool)
        ensures
            due == self@.is_due(source@, max_seconds as int, now as int),
    {
        proof {
            use_type_invariant(self);
        }
        self.tables.should_update_source(source, max_seconds, now)
    }

    /// Records that `source` was polled at `now`.
    pub fn updated_source(&mut self, source: String, now: i64)
        ensures
            final(self)@.wf(),
            final(self)@ == old(self)@.mark_updated(source@, now as int),
    {
        let mut tables = self.take();
        tables.updated_source(source, now);
        self.tables = tables;
    }
}

/// Whether no tag occurs twice in `tags`.
pub fn tags_differ(tags: &Vec<String>) -> (ok: bool)
    ensures
        ok == tags.deep_view().no_duplicates(),
{
    let n = tags.len();
    let mut j: usize = 0;
    while j < n
        invariant
            j <= n,
            n == tags.len(),
            tags.deep_view().len() == n,
            forall|a: int, b: int|
                0 <= a < j && 0 <= b < j && a != b ==> tags.deep_view()[a] != tags.deep_view()[b],
        decreases n - j,
    {
        let mut i: usize = 0;
        while i < j
            invariant
                i <= j < n,
                n == tags.len(),
                tags.deep_view().len() == n,
                forall|a: int| 0 <= a < i ==> tags.deep_view()[a] != tags.deep_view()[j as int],
            decreases j - i,
        {
            if tags[i] == tags[j] {
                assert(tags.deep_view()[i as int] == tags.deep_view()[j as int]);
                return false;
            }
            i += 1;
        }
        j += 1;
    }
    true
}

} // verus!
