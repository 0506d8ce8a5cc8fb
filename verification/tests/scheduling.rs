use retail_scraper::db::Database;
use retail_scraper::db::Listing;
use retail_scraper::scraper::Client;
use retail_scraper::scraper::Directive;
use retail_scraper::scraper::Outcome;
use retail_scraper::scraper::Phase;
use retail_scraper::scraper::REQUEST_TIMEOUT_SECS;
use retail_scraper::scraper::RETRY_BACKOFF_SECS;
use retail_scraper::sources::amazon_source;
use retail_scraper::sources::default_sources;
use retail_scraper::sources::target_source;
use retail_scraper::sources::Action;
use retail_scraper::sources::Deleted;
use retail_scraper::sources::Ended;
use retail_scraper::sources::Report;
use retail_scraper::sources::Event;
use retail_scraper::sources::Provider;
use retail_scraper::sources::Scheduler;
use retail_scraper::sources::Stage;
use retail_scraper::sources::StreamingSearchSource;
use retail_scraper::sources::LOOP_CHECK_INTERVAL_SECS;
use retail_scraper::sources::MAX_LISTINGS_PER_LEVEL;

fn listing(website: &str, id: &str) -> Listing {
    Listing {
        website: website.to_owned(),
        website_id: id.to_owned(),
        price: 100,
        title: id.to_owned(),
        image_data: id.as_bytes().to_vec(),
        categories: vec![],
        star_rating: None,
        max_stars: None,
        num_reviews: None,
    }
}

fn step(scheduler: &mut Scheduler, db: &mut Database, event: Event, now: i64) -> Action {
    scheduler.step(db, event, now).action
}

fn source(category: &'static str, max_items: i64) -> StreamingSearchSource {
    StreamingSearchSource { provider: Provider::Amazon, prefix: "src", category, max_items }
}

#[test]
fn a_request_that_fails_twice_succeeds_on_the_third_attempt() {
    let client = Client::new(3);
    let mut retry = client.begin();
    assert_eq!(retry.phase(), Phase::Sending);
    assert_eq!(
        retry.record(Outcome::TransportFailure),
        Directive { replace_connection: true, backoff_secs: 10, next: Phase::Sending }
    );
    assert_eq!(
        retry.record(Outcome::TransportFailure),
        Directive { replace_connection: true, backoff_secs: 10, next: Phase::Sending }
    );
    assert_eq!(
        retry.record(Outcome::Success),
        Directive { replace_connection: false, backoff_secs: 0, next: Phase::Succeeded }
    );
    assert_eq!(retry.phase(), Phase::Succeeded);
    assert_eq!(retry.attempts(), 3);
    assert_eq!(retry.replacements(), 2);
    // Nothing more happens to a finished request.
    assert_eq!(
        retry.record(Outcome::TransportFailure),
        Directive { replace_connection: false, backoff_secs: 0, next: Phase::Succeeded }
    );
    assert_eq!(retry.attempts(), 3);
    assert_eq!(retry.replacements(), 2);
}

#[test]
fn the_last_transport_failure_replaces_the_connection_without_waiting() {
    let mut retry = Client::new(2).begin();
    assert_eq!(
        retry.record(Outcome::TransportFailure),
        Directive { replace_connection: true, backoff_secs: RETRY_BACKOFF_SECS, next: Phase::Sending }
    );
    assert_eq!(
        retry.record(Outcome::TransportFailure),
        Directive { replace_connection: true, backoff_secs: 0, next: Phase::Failed }
    );
    assert_eq!(retry.phase(), Phase::Failed);
    assert_eq!(retry.attempts(), 2);
    assert_eq!(retry.replacements(), 2);
}

#[test]
fn a_rejected_response_is_retried_at_once_on_the_same_connection() {
    let mut retry = Client::new(2).begin();
    assert_eq!(
        retry.record(Outcome::ResponseFailure),
        Directive { replace_connection: false, backoff_secs: 0, next: Phase::Sending }
    );
    assert_eq!(
        retry.record(Outcome::ResponseFailure),
        Directive { replace_connection: false, backoff_secs: 0, next: Phase::Failed }
    );
    assert_eq!(retry.attempts(), 2);
    assert_eq!(retry.replacements(), 0);
}

#[test]
fn a_transport_without_attempts_fails_every_request_at_once() {
    for limit in [0, -1, i32::MIN] {
        let client = Client::new(limit);
        assert_eq!(client.num_retries(), limit);
        let mut retry = client.begin();
        assert_eq!(retry.phase(), Phase::Failed);
        assert_eq!(
            retry.record(Outcome::Success),
            Directive { replace_connection: false, backoff_secs: 0, next: Phase::Failed }
        );
        assert_eq!(retry.attempts(), 0);
    }
    assert_eq!(REQUEST_TIMEOUT_SECS, 30);
}

#[test]
fn identifiers_name_provider_and_category() {
    assert_eq!(amazon_source("interesting-finds").identifier(), "azn/interesting-finds");
    assert_eq!(target_source("rdihz").identifier(), "tgt/rdihz");
    assert_eq!(source("", 1).identifier(), "src/");
    let all = default_sources();
    let ids: Vec<String> = all.iter().map(|s| s.identifier()).collect();
    assert_eq!(
        ids,
        vec!["azn/interesting-finds", "azn/hgg-hol-hi", "azn/EGGHOL22-Hub", "tgt/rdihz", "tgt/5xt85"]
    );
    assert!(all.iter().all(|s| s.max_items == 50));
    assert_eq!(all[0].provider, Provider::Amazon);
    assert_eq!(all[4].provider, Provider::Target);
    assert_eq!(MAX_LISTINGS_PER_LEVEL, 4096);
}

#[test]
fn a_failing_source_does_not_stop_the_others() {
    let mut db = Database::open_in_memory();
    let mut scheduler = Scheduler::new(vec![source("one", 50), source("two", 50), source("three", 50)], 3600, 10);
    assert_eq!(scheduler.stage(), Stage::Sleeping);
    assert_eq!(step(&mut scheduler, &mut db, Event::Wake, 100), Action::Pull(0));
    assert_eq!(step(&mut scheduler, &mut db, Event::Item(listing("a.com", "1")), 101), Action::Pull(0));
    assert_eq!(step(&mut scheduler, &mut db, Event::Exhausted, 102), Action::Pull(1));
    assert_eq!(step(&mut scheduler, &mut db, Event::Failed, 103), Action::Pull(2));
    assert_eq!(step(&mut scheduler, &mut db, Event::Item(listing("a.com", "3")), 104), Action::Pull(2));
    assert_eq!(
        step(&mut scheduler, &mut db, Event::Exhausted, 105),
        Action::Sleep {
            secs: LOOP_CHECK_INTERVAL_SECS,
            swept: Some(Deleted { listings: 0, blobs: 0 })
        }
    );
    assert_eq!(scheduler.stage(), Stage::Sleeping);
    assert_eq!(db.listings().len(), 2);
    assert_eq!(db.listings()[0].last_seen, 101);
    assert_eq!(db.listings()[1].last_seen, 104);
    let status: Vec<(String, i64)> =
        db.sources().iter().map(|s| (s.source_id.clone(), s.last_updated)).collect();
    assert_eq!(
        status,
        vec![("src/one".to_owned(), 102), ("src/two".to_owned(), 103), ("src/three".to_owned(), 105)]
    );
    // Nothing is due on the next look, the failed source included, and an
    // idle pass does not sweep.
    assert_eq!(
        step(&mut scheduler, &mut db, Event::Wake, 165),
        Action::Sleep { secs: 60, swept: None }
    );
    // Each source is due again once more than its interval has passed: at
    // 3704 the first two are, the third is not.
    assert_eq!(step(&mut scheduler, &mut db, Event::Wake, 3704), Action::Pull(0));
    assert_eq!(step(&mut scheduler, &mut db, Event::Failed, 3704), Action::Pull(1));
    assert_eq!(
        step(&mut scheduler, &mut db, Event::Failed, 3704),
        Action::Sleep { secs: 60, swept: Some(Deleted { listings: 0, blobs: 0 }) }
    );
    assert_eq!(db.listings().len(), 2);
}

#[test]
fn a_poll_stops_at_the_limit_of_its_source() {
    let mut db = Database::open_in_memory();
    let mut scheduler = Scheduler::new(vec![source("one", 2), source("two", 0)], 10, 10);
    assert_eq!(step(&mut scheduler, &mut db, Event::Wake, 1), Action::Pull(0));
    assert_eq!(scheduler.stage(), Stage::Updating { source: 0, stored: 0 });
    assert_eq!(step(&mut scheduler, &mut db, Event::Item(listing("a.com", "1")), 1), Action::Pull(0));
    assert_eq!(scheduler.stage(), Stage::Updating { source: 0, stored: 1 });
    // The second listing reaches the limit: the next source is polled.
    assert_eq!(step(&mut scheduler, &mut db, Event::Item(listing("a.com", "2")), 1), Action::Pull(1));
    // A listing that arrives is stored before the limit is looked at.
    assert!(matches!(
        step(&mut scheduler, &mut db, Event::Item(listing("a.com", "3")), 1),
        Action::Sleep { secs: 60, swept: Some(_) }
    ));
    assert_eq!(db.listings().len(), 3);
    assert_eq!(db.sources().len(), 2);
}

#[test]
fn events_that_do_not_fit_the_stage_change_nothing() {
    let mut db = Database::open_in_memory();
    let mut scheduler = Scheduler::new(vec![source("one", 5)], 10, 10);
    assert_eq!(
        step(&mut scheduler, &mut db, Event::Item(listing("a.com", "1")), 1),
        Action::Sleep { secs: 60, swept: None }
    );
    assert_eq!(step(&mut scheduler, &mut db, Event::Failed, 1), Action::Sleep { secs: 60, swept: None });
    assert_eq!(db.listings().len(), 0);
    assert_eq!(db.sources().len(), 0);
    assert_eq!(step(&mut scheduler, &mut db, Event::Wake, 1), Action::Pull(0));
    assert_eq!(step(&mut scheduler, &mut db, Event::Wake, 2), Action::Pull(0));
    assert_eq!(scheduler.stage(), Stage::Updating { source: 0, stored: 0 });
    assert_eq!(scheduler.sources().len(), 1);
}

#[test]
fn the_pass_ends_with_a_sweep_over_the_configured_levels() {
    let mut db = Database::open_in_memory();
    let mut scheduler = Scheduler::new(vec![source("one", 50)], 10, 1);
    assert_eq!(step(&mut scheduler, &mut db, Event::Wake, 1), Action::Pull(0));
    step(&mut scheduler, &mut db, Event::Item(listing("target.com", "1")), 1);
    step(&mut scheduler, &mut db, Event::Item(listing("target.com", "2")), 2);
    step(&mut scheduler, &mut db, Event::Item(listing("elsewhere.com", "3")), 3);
    assert_eq!(
        step(&mut scheduler, &mut db, Event::Exhausted, 4),
        Action::Sleep { secs: 60, swept: Some(Deleted { listings: 1, blobs: 1 }) }
    );
    let ids: Vec<String> = db.listings().iter().map(|l| l.website_id.clone()).collect();
    assert_eq!(ids, vec!["2", "3"]);
}

#[test]
fn a_report_says_how_a_poll_ended() {
    let mut db = Database::open_in_memory();
    let mut scheduler = Scheduler::new(vec![source("one", 2), source("two", 9), source("three", 9)], 10, 10);
    assert_eq!(
        scheduler.step(&mut db, Event::Wake, 1),
        Report { action: Action::Pull(0), ended: None }
    );
    assert_eq!(
        scheduler.step(&mut db, Event::Item(listing("a.com", "1")), 1),
        Report { action: Action::Pull(0), ended: None }
    );
    assert_eq!(
        scheduler.step(&mut db, Event::Item(listing("a.com", "2")), 1),
        Report { action: Action::Pull(1), ended: Some(Ended::Updated) }
    );
    assert_eq!(
        scheduler.step(&mut db, Event::Failed, 1),
        Report { action: Action::Pull(2), ended: Some(Ended::SourceFailed) }
    );
    assert_eq!(
        scheduler.step(&mut db, Event::Exhausted, 1),
        Report {
            action: Action::Sleep { secs: 60, swept: Some(Deleted { listings: 0, blobs: 0 }) },
            ended: Some(Ended::Updated)
        }
    );
    assert_eq!(
        scheduler.step(&mut db, Event::Failed, 1),
        Report { action: Action::Sleep { secs: 60, swept: None }, ended: None }
    );
}

#[test]
fn a_listing_that_the_store_refuses_ends_the_poll() {
    let full = retail_scraper::db::ListingRow {
        id: i64::MAX,
        created: 1,
        last_seen: 1,
        website: "a.com".to_owned(),
        website_id: "0".to_owned(),
        price: 1,
        title: "t".to_owned(),
        image_blob: 1,
        categories: vec![],
        star_rating: None,
        max_stars: None,
        num_reviews: None,
    };
    let blob = retail_scraper::db::BlobRow {
        id: 1,
        hash: retail_scraper::hash::hash_blob(b"x"),
        data: b"x".to_vec(),
    };
    let mut db = Database::from_rows(vec![full], vec![blob], vec![]).unwrap();
    let mut scheduler = Scheduler::new(vec![source("one", 9), source("two", 9)], 10, 10);
    assert_eq!(step(&mut scheduler, &mut db, Event::Wake, 5), Action::Pull(0));
    assert_eq!(
        scheduler.step(&mut db, Event::Item(listing("a.com", "1")), 6),
        Report { action: Action::Pull(1), ended: Some(Ended::StoreFull) }
    );
    assert_eq!(db.listings().len(), 1);
    assert_eq!(db.blobs().len(), 1);
    assert_eq!(db.sources().len(), 1);
    assert_eq!(db.sources()[0].source_id, "src/one");
    assert_eq!(db.sources()[0].last_updated, 6);
}
