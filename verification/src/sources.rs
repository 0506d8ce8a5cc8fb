//! The sources of listings and the scheduler that polls them.
use crate::db::Database;
use crate::db::Listing;
use crate::consistency::lemma_mark_updated;
use crate::consistency::lemma_sweep_wf;
use crate::levels::level_table;
use crate::model::ListingView;
use crate::model::Store;
use vstd::prelude::*;

verus! {

/// Seconds between two looks at which sources are due. This is not the
/// interval at which a source is polled.
pub const LOOP_CHECK_INTERVAL_SECS: u64 = 60;

/// How many listings a level keeps through a sweep.
pub const MAX_LISTINGS_PER_LEVEL: i64 = 4096;

/// How many listings one poll of an Amazon category may store.
pub const AMAZON_RESULT_LIMIT: i64 = 50;

/// How many listings one poll of a Target category may store.
pub const TARGET_RESULT_LIMIT: i64 = 50;

/// The website that a source scrapes.
#[derive(Clone, Copy, Debug, PartialEq, Eq, Structural)]
pub enum Provider {
    Amazon,
    Target,
}

/// A source of listings: one category of one website, polled as a stream of
/// search results.
#[derive(Clone, Copy, Debug)]
pub struct StreamingSearchSource {
    pub provider: Provider,
    pub prefix: &'static str,
    pub category: &'static str,
    pub max_items: i64,
}

/// The text of a source's identifier: prefix, a slash, category.
pub open spec fn identifier_of(prefix: Seq<char>, category: Seq<char>) -> Seq<char> {
    prefix + seq!['/'] + category
}

impl StreamingSearchSource {
    /// The identifier under which the source's polling status is kept.
    pub open spec fn id(&self) -> Seq<char> {
        identifier_of(self.prefix@, self.category@)
    }

    /// The identifier under which the source's polling status is kept. It
    /// names the website and the category, so that each category of a website
    /// is scheduled by itself.
    pub fn identifier(&self) -> (id: String)
        ensures
            id@ == self.id(),
    {
        proof {
            reveal_strlit("/");
        }
        let mut id = self.prefix.to_owned();
        id.append("/");
        id.append(self.category);
        id
    }
}

/// The source for one Amazon category.
pub fn amazon_source(category: &'static str) -> (source: StreamingSearchSource)
    ensures
        source == (StreamingSearchSource {
            provider: Provider::Amazon,
            prefix: "azn",
            category,
            max_items: AMAZON_RESULT_LIMIT,
        }),
{
    StreamingSearchSource {
        provider: Provider::Amazon,
        prefix: "azn",
        category,
        max_items: AMAZON_RESULT_LIMIT,
    }
}

/// The source for one Target category.
pub fn target_source(category: &'static str) -> (source: StreamingSearchSource)
    ensures
        source == (StreamingSearchSource {
            provider: Provider::Target,
            prefix: "tgt",
            category,
            max_items: TARGET_RESULT_LIMIT,
        }),
{
    StreamingSearchSource {
        provider: Provider::Target,
        prefix: "tgt",
        category,
        max_items: TARGET_RESULT_LIMIT,
    }
}

/// The sources that are polled by default.
pub open spec fn default_source_table() -> Seq<StreamingSearchSource> {
    seq![
        StreamingSearchSource {
            provider: Provider::Amazon,
            prefix: "azn",
            category: "interesting-finds",
            max_items: AMAZON_RESULT_LIMIT,
        },
        StreamingSearchSource {
            provider: Provider::Amazon,
            prefix: "azn",
            category: "hgg-hol-hi",
            max_items: AMAZON_RESULT_LIMIT,
        },
        StreamingSearchSource {
            provider: Provider::Amazon,
            prefix: "azn",
            category: "EGGHOL22-Hub",
            max_items: AMAZON_RESULT_LIMIT,
        },
        StreamingSearchSource {
            provider: Provider::Target,
            prefix: "tgt",
            category: "rdihz",
            max_items: TARGET_RESULT_LIMIT,
        },
        StreamingSearchSource {
            provider: Provider::Target,
            prefix: "tgt",
            category: "5xt85",
            max_items: TARGET_RESULT_LIMIT,
        },
    ]
}

/// The sources that are polled by default.
pub fn default_sources() -> (sources: Vec<StreamingSearchSource>)
    ensures
        sources@ == default_source_table(),
{
    let mut sources = vec![
        amazon_source("interesting-finds"),
        amazon_source("hgg-hol-hi"),
        amazon_source("EGGHOL22-Hub"),
    ];
    sources.push(target_source("rdihz"));
    sources.push(target_source("5xt85"));
    sources
}

/// What the scheduler is doing while its driver is at work. Looking which
/// sources are due and sweeping need nothing from outside: they happen
/// within a step, between these stages.
#[derive(Clone, Copy, Debug, PartialEq, Eq, Structural)]
pub enum Stage {
    /// Waiting for the next look at the sources.
    Sleeping,
    /// Storing what the source at `source` delivers; `stored` listings of this
    /// poll are stored so far.
    Updating { source: usize, stored: i64 },
}

/// What the driver of the scheduler reports.
#[derive(Debug)]
pub enum Event {
    /// The wait is over, or the scheduler was just started.
    Wake,
    /// The source being polled delivered a listing.
    Item(Listing),
    /// The source being polled failed.
    Failed,
    /// The source being polled has no more listings.
    Exhausted,
}

/// An event as the model sees it.
pub enum EventView {
    Wake,
    Item(ListingView),
    Failed,
    Exhausted,
}

impl View for Event {
    type V = EventView;

    open spec fn view(&self) -> EventView {
        match self {
            Event::Wake => EventView::Wake,
            Event::Item(listing) => EventView::Item(listing@),
            Event::Failed => EventView::Failed,
            Event::Exhausted => EventView::Exhausted,
        }
    }
}

/// How the poll of a source ended.
#[derive(Clone, Copy, Debug, PartialEq, Eq, Structural)]
pub enum Ended {
    /// The source had no more listings, or the poll reached its limit.
    Updated,
    /// The source failed.
    SourceFailed,
    /// The store refused a listing.
    StoreFull,
}

/// What a step of the scheduler hands back.
#[derive(Clone, Copy, Debug, PartialEq, Eq, Structural)]
pub struct Report {
    /// What the driver does next.
    pub action: Action,
    /// How the poll that was under way ended, if this step ended it.
    pub ended: Option<Ended>,
}

/// How much a sweep deleted.
#[derive(Clone, Copy, Debug, PartialEq, Eq, Structural)]
pub struct Deleted {
    pub listings: usize,
    pub blobs: usize,
}

/// What the driver of the scheduler does next.
#[derive(Clone, Copy, Debug, PartialEq, Eq, Structural)]
pub enum Action {
    /// Fetch the next listing of the source at this position and report it.
    /// When the position differs from the one before, the poll of the earlier
    /// source is over and its stream is dropped.
    Pull(usize),
    /// Wait this many seconds, then report `Wake`. `swept` says how much the
    /// sweep at the end of the pass deleted, if there was a sweep.
    Sleep { secs: u64, swept: Option<Deleted> },
}

/// The scheduler as the model sees it.
pub struct SchedulerModel {
    pub sources: Seq<StreamingSearchSource>,
    pub update_interval: int,
    pub capacity: int,
    pub stage: Stage,
    pub updated_any: bool,
}

impl SchedulerModel {
    /// What holds of every scheduler: the source being polled is one of its
    /// sources, and its poll has not reached the source's limit.
    pub open spec fn wf(self) -> bool {
        match self.stage {
            Stage::Sleeping => !self.updated_any,
            Stage::Updating { source, stored } => {
                &&& source < self.sources.len()
                &&& 0 <= stored
                &&& stored == 0 || stored < self.sources[source as int].max_items
            },
        }
    }

    /// Position of the first source from `from` on that is due at `now`, or
    /// the number of sources if none is.
    pub open spec fn next_due(self, db: Store, from: int, now: int) -> int
        decreases self.sources.len() - from,
    {
        if from < 0 || from >= self.sources.len() {
            self.sources.len() as int
        } else if db.is_due(self.sources[from].id(), self.update_interval, now) {
            from
        } else {
            self.next_due(db, from + 1, now)
        }
    }

    /// Goes on with the pass at position `from`: polls the next source that is
    /// due, or ends the pass when none is left. A pass in which a source was
    /// polled ends with a sweep.
    pub open spec fn proceed(self, db: Store, from: int, now: int) -> (SchedulerModel, Store, Action) {
        let next = self.next_due(db, from, now);
        if next < self.sources.len() {
            (
                SchedulerModel { stage: Stage::Updating { source: next as usize, stored: 0 }, ..self },
                db,
                Action::Pull(next as usize),
            )
        } else if self.updated_any {
            let swept = db.sweep(level_table(), self.capacity);
            (
                SchedulerModel { stage: Stage::Sleeping, updated_any: false, ..self },
                swept,
                Action::Sleep {
                    secs: LOOP_CHECK_INTERVAL_SECS,
                    swept: Some(
                        Deleted {
                            listings: (db.listings.len() - swept.listings.len()) as usize,
                            blobs: (db.blobs.len() - swept.blobs.len()) as usize,
                        },
                    ),
                },
            )
        } else {
            (
                SchedulerModel { stage: Stage::Sleeping, ..self },
                db,
                Action::Sleep { secs: LOOP_CHECK_INTERVAL_SECS, swept: None },
            )
        }
    }

    /// Ends the poll of the source at `source`, however it went: the source
    /// counts as polled at `now`, and the pass goes on behind it.
    pub open spec fn finish(self, db: Store, source: int, now: int) -> (
        SchedulerModel,
        Store,
        Action,
    ) {
        (SchedulerModel { updated_any: true, ..self }).proceed(
            db.mark_updated(self.sources[source].id(), now),
            source + 1,
            now,
        )
    }

    /// How the poll that is under way ends with `event`, if it ends with it.
    pub open spec fn ending(self, db: Store, event: EventView) -> Option<Ended> {
        match self.stage {
            Stage::Sleeping => None,
            Stage::Updating { source, stored } => match event {
                EventView::Wake => None,
                EventView::Failed => Some(Ended::SourceFailed),
                EventView::Exhausted => Some(Ended::Updated),
                EventView::Item(listing) => if !db.has_room(listing) {
                    Some(Ended::StoreFull)
                } else if stored + 1 >= self.sources[source as int].max_items {
                    Some(Ended::Updated)
                } else {
                    None
                },
            },
        }
    }

    /// One step of the scheduler: the scheduler and the store after `event`
    /// at time `now`, and what the driver does next.
    pub open spec fn step(self, db: Store, event: EventView, now: int) -> (
        SchedulerModel,
        Store,
        Action,
    ) {
        match self.stage {
            Stage::Sleeping => match event {
                EventView::Wake => self.proceed(db, 0, now),
                _ => (self, db, Action::Sleep { secs: LOOP_CHECK_INTERVAL_SECS, swept: None }),
            },
            Stage::Updating { source, stored } => match event {
                EventView::Wake => (self, db, Action::Pull(source)),
                EventView::Failed => self.finish(db, source as int, now),
                EventView::Exhausted => self.finish(db, source as int, now),
                EventView::Item(listing) => if !db.has_room(listing) {
                    self.finish(db, source as int, now)
                } else if stored + 1 >= self.sources[source as int].max_items {
                    self.finish(db.upsert(listing, now), source as int, now)
                } else {
                    (
                        SchedulerModel {
                            stage: Stage::Updating { source, stored: (stored + 1) as i64 },
                            ..self
                        },
                        db.upsert(listing, now),
                        Action::Pull(source),
                    )
                },
            },
        }
    }
}

/// The scheduler: which sources there are, how often each is polled, how many
/// listings a level keeps, and where the current pass stands.
pub struct Scheduler {
    sources: Vec<StreamingSearchSource>,
    update_interval: i64,
    capacity: i64,
    stage: Stage,
    updated_any: bool,
}

impl View for Scheduler {
    type V = SchedulerModel;

    closed spec fn view(&self) -> SchedulerModel {
        SchedulerModel {
            sources: self.sources@,
            update_interval: self.update_interval as int,
            capacity: self.capacity as int,
            stage: self.stage,
            updated_any: self.updated_any,
        }
    }
}

impl Scheduler {
    #[verifier::type_invariant]
    spec fn consistent(&self) -> bool {
        self@.wf()
    }

    /// A scheduler that polls each of `sources` every `update_interval`
    /// seconds and lets each level keep `capacity` listings. It starts asleep.
    pub fn new(sources: Vec<StreamingSearchSource>, update_interval: i64, capacity: i64) -> (scheduler:
        Scheduler)
        ensures
            scheduler@ == (SchedulerModel {
                sources: sources@,
                update_interval: update_interval as int,
                capacity: capacity as int,
                stage: Stage::Sleeping,
                updated_any: false,
            }),
            scheduler@.wf(),
    {
        Scheduler { sources, update_interval, capacity, stage: Stage::Sleeping, updated_any: false }
    }

    /// What the scheduler is doing.
    pub fn stage(&self) -> (stage: Stage)
        ensures
            stage == self@.stage,
    {
        self.stage
    }

    /// The sources that the scheduler polls.
    pub fn sources(&self) -> (sources: &Vec<StreamingSearchSource>)
        ensures
            sources@ == self@.sources,
    {
        &self.sources
    }

    /// Position of the first source from `from` on that is due at `now`.
    fn find_due(&self, db: &Database, from: usize, now: i64) -> (next: usize)
        requires
            from <= self@.sources.len(),
        ensures
            next == self@.next_due(db@, from as int, now as int),
            from <= next <= self@.sources.len(),
        decreases self@.sources.len() - from,
    {
        if from >= self.sources.len() {
            return self.sources.len();
        }
        let id = self.sources[from].identifier();
        if db.should_update_source(id, self.update_interval, now) {
            from
        } else {
            self.find_due(db, from + 1, now)
        }
    }

    /// Goes on with the pass at position `from`.
    fn proceed(&mut self, db: &mut Database, from: usize, now: i64) -> (action: Action)
        requires
            from <= old(self)@.sources.len(),
            old(self)@.updated_any || old(self)@.stage == Stage::Sleeping,
        ensures
            final(db)@.wf(),
            (final(self)@, final(db)@, action) == old(self)@.proceed(
                old(db)@,
                from as int,
                now as int,
            ),
    {
        proof {
            use_type_invariant(&*self);
        }
        db.consistency();
        let next = self.find_due(db, from, now);
        if next < self.sources.len() {
            self.stage = Stage::Updating { source: next, stored: 0 };
            Action::Pull(next)
        } else if self.updated_any {
            let (listings, blobs) = db.delete_old_listings(self.capacity);
            self.updated_any = false;
            self.stage = Stage::Sleeping;
            Action::Sleep { secs: LOOP_CHECK_INTERVAL_SECS, swept: Some(Deleted { listings, blobs }) }
        } else {
            self.stage = Stage::Sleeping;
            Action::Sleep { secs: LOOP_CHECK_INTERVAL_SECS, swept: None }
        }
    }

    /// Ends the poll of the source at `source`.
    fn finish(&mut self, db: &mut Database, source: usize, now: i64) -> (action: Action)
        requires
            old(self)@.stage is Updating,
            source < old(self)@.sources.len(),
        ensures
            final(db)@.wf(),
            (final(self)@, final(db)@, action) == old(self)@.finish(
                old(db)@,
                source as int,
                now as int,
            ),
    {
        proof {
            use_type_invariant(&*self);
        }
        let id = self.sources[source].identifier();
        db.updated_source(id, now);
        self.updated_any = true;
        assert(source < self.sources.len());
        self.proceed(db, source + 1, now)
    }

    /// One step of the scheduler. The driver reports what happened and does
    /// what the action in the report says. A listing that a source delivers is
    /// stored; a poll ends when its source fails or has no more listings, when
    /// the store refuses a listing, or when the poll has stored as many
    /// listings as its source allows. However a poll ends, its source counts
    /// as polled at `now`. A pass ends when no further source is due; if any
    /// source was polled in it, the pass ends with a sweep. Events that do not
    /// fit the stage change nothing.
    pub fn step(&mut self, db: &mut Database, event: Event, now: i64) -> (report: Report)
        ensures
            final(db)@.wf(),
            final(self)@.wf(),
            (final(self)@, final(db)@, report.action) == old(self)@.step(
                old(db)@,
                event@,
                now as int,
            ),
            report.ended == old(self)@.ending(old(db)@, event@),
    {
        proof {
            use_type_invariant(&*self);
        }
        db.consistency();
        let report = match self.stage {
            Stage::Sleeping => match event {
                Event::Wake => Report { action: self.proceed(db, 0, now), ended: None },
                _ => Report {
                    action: Action::Sleep { secs: LOOP_CHECK_INTERVAL_SECS, swept: None },
                    ended: None,
                },
            },
            Stage::Updating { source, stored } => match event {
                Event::Wake => Report { action: Action::Pull(source), ended: None },
                Event::Failed => Report {
                    action: self.finish(db, source, now),
                    ended: Some(Ended::SourceFailed),
                },
                Event::Exhausted => Report {
                    action: self.finish(db, source, now),
                    ended: Some(Ended::Updated),
                },
                Event::Item(listing) => {
                    match db.insert_or_update(listing, now) {
                        Err(_) => Report {
                            action: self.finish(db, source, now),
                            ended: Some(Ended::StoreFull),
                        },
                        Ok(_) => {
                            if stored + 1 >= self.sources[source].max_items {
                                Report {
                                    action: self.finish(db, source, now),
                                    ended: Some(Ended::Updated),
                                }
                            } else {
                                self.stage = Stage::Updating { source, stored: stored + 1 };
                                Report { action: Action::Pull(source), ended: None }
                            }
                        },
                    }
                },
            },
        };
        proof {
            use_type_invariant(&*self);
        }
        report
    }
}

/// Wherever the pass goes on from, the next source polled stands at or behind
/// that position and is due.
pub proof fn lemma_next_due(m: SchedulerModel, db: Store, from: int, now: int)
    requires
        0 <= from <= m.sources.len(),
    ensures
        from <= m.next_due(db, from, now) <= m.sources.len(),
        m.next_due(db, from, now) < m.sources.len() ==> db.is_due(
            m.sources[m.next_due(db, from, now)].id(),
            m.update_interval,
            now,
        ),
        forall|k: int|
            from <= k < m.next_due(db, from, now) ==> !db.is_due(
                (#[trigger] m.sources[k]).id(),
                m.update_interval,
                now,
            ),
    decreases m.sources.len() - from,
{
    if from < m.sources.len() && !db.is_due(m.sources[from].id(), m.update_interval, now) {
        lemma_next_due(m, db, from + 1, now);
    }
}

/// Which source is polled next depends on the sources and the interval alone.
pub proof fn lemma_next_due_same(a: SchedulerModel, b: SchedulerModel, db: Store, from: int, now: int)
    requires
        a.sources == b.sources,
        a.update_interval == b.update_interval,
    ensures
        a.next_due(db, from, now) == b.next_due(db, from, now),
    decreases a.sources.len() - from,
{
    if 0 <= from < a.sources.len() && !db.is_due(a.sources[from].id(), a.update_interval, now) {
        lemma_next_due_same(a, b, db, from + 1, now);
    }
}

/// A source that fails is set aside without harm to the rest: it counts as
/// polled at the time of the failure, so that with a non-negative interval it
/// is not due again at once; the pass goes on with the next source behind it
/// that is due; and while the pass goes on, what was stored stays stored.
pub proof fn failed_source_counts_as_polled(
    m: SchedulerModel,
    db: Store,
    source: usize,
    stored: i64,
    now: int,
)
    requires
        m.wf(),
        db.wf(),
        m.sources.len() <= usize::MAX,
        m.stage == (Stage::Updating { source, stored }),
    ensures
        ({
            let id = m.sources[source as int].id();
            let marked = db.mark_updated(id, now);
            let next = m.next_due(marked, source + 1, now);
            let (after, store, action) = m.step(db, EventView::Failed, now);
            &&& store.wf()
            &&& store.sources == marked.sources
            &&& store.has_source(id)
            &&& store.sources[store.source_index(id)].last_updated == now
            &&& 0 <= m.update_interval ==> !store.is_due(id, m.update_interval, now)
            &&& source < next <= m.sources.len()
            &&& next < m.sources.len() ==> {
                &&& action == Action::Pull(next as usize)
                &&& after.stage == (Stage::Updating { source: next as usize, stored: 0 })
                &&& store.listings == db.listings
                &&& store.blobs == db.blobs
            }
            &&& next == m.sources.len() ==> {
                &&& action is Sleep
                &&& after.stage == Stage::Sleeping
                &&& store == marked.sweep(level_table(), m.capacity)
            }
        }),
{
    let id = m.sources[source as int].id();
    let marked = db.mark_updated(id, now);
    lemma_mark_updated(db, id, now);
    lemma_next_due(m, marked, source + 1, now);
    lemma_next_due_same(
        SchedulerModel { updated_any: true, ..m },
        m,
        marked,
        source + 1,
        now,
    );
    lemma_sweep_wf(marked, level_table(), m.capacity);
    let (after, store, action) = m.step(db, EventView::Failed, now);
    assert(marked.sources[marked.source_index(id)].source_id == id);
    assert(store.sources[store.source_index(id)].source_id == id);
}

} // verus!
