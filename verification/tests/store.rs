use retail_scraper::db::BlobRow;
use retail_scraper::db::Database;
use retail_scraper::db::Listing;
use retail_scraper::db::ListingRow;
use retail_scraper::db::SourceStatus;
use retail_scraper::db::StoreError;
use retail_scraper::hash::hash_blob;
use retail_scraper::hash::to_hex;
use retail_scraper::levels::has_tag;
use retail_scraper::levels::levels;
use retail_scraper::levels::Level;
use retail_scraper::levels::LevelQuery;

fn listing(website: &str, id: &str, price: i64, image: &[u8], categories: &[&str]) -> Listing {
    Listing {
        website: website.to_owned(),
        website_id: id.to_owned(),
        price,
        title: format!("item {}", id),
        image_data: image.to_vec(),
        categories: categories.iter().map(|c| (*c).to_owned()).collect(),
        star_rating: None,
        max_stars: None,
        num_reviews: None,
    }
}

fn all_of(website: &'static str) -> Level {
    Level {
        id: "all",
        website_name: "Site",
        category_name: "Everything",
        query: LevelQuery::MatchWebsite(website),
    }
}

#[test]
fn hex_is_lower_case_two_digits_per_byte() {
    assert_eq!(to_hex(&[]), "");
    assert_eq!(to_hex(&[0x00, 0x0f, 0xa5, 0xff]), "000fa5ff");
}

#[test]
fn blob_hash_is_first_half_of_sha256() {
    assert_eq!(hash_blob(b""), "e3b0c44298fc1c149afbf4c8996fb924");
    assert_eq!(hash_blob(b"abc"), "ba7816bf8f01cfea414140de5dae2223");
}

#[test]
fn find_by_id_returns_the_configured_level() {
    let level = Level::find_by_id("target-all").expect("level exists");
    assert_eq!(level.id, "target-all");
    assert_eq!(level.website_name, "Target");
    assert_eq!(level.category_name, "All Target");
    assert!(matches!(level.listing_query(), LevelQuery::MatchWebsite("target.com")));
    let level = Level::find_by_id("amazon-thi").expect("level exists");
    assert!(matches!(
        level.listing_query(),
        LevelQuery::MatchCategory("amazon.com", "hgg-hol-hi")
    ));
    assert!(Level::find_by_id("nope").is_none());
    assert!(Level::find_by_id("").is_none());
    assert_eq!(levels().len(), 5);
    assert_eq!(levels()[0].id, "amazon-if");
    assert_eq!(levels()[4].id, "target-sports-outdoors");
}

#[test]
fn level_query_looks_at_website_and_tags() {
    let tags = vec!["rdihz".to_owned(), "x".to_owned()];
    let none: Vec<String> = Vec::new();
    let website = LevelQuery::MatchWebsite("target.com");
    assert!(website.matches("target.com", &none));
    assert!(!website.matches("amazon.com", &tags));
    let category = LevelQuery::MatchCategory("target.com", "rdihz");
    assert!(category.matches("target.com", &tags));
    assert!(!category.matches("target.com", &none));
    assert!(!category.matches("amazon.com", &tags));
    assert!(has_tag(&tags, "x"));
    assert!(!has_tag(&tags, "y"));
}

#[test]
fn upsert_twice_keeps_one_row_and_unites_categories() {
    let mut db = Database::open_in_memory();
    db.insert_or_update(listing("amazon.com", "A1", 1234, b"image", &["x", "y"]), 10).unwrap();
    db.insert_or_update(listing("amazon.com", "A1", 1234, b"image", &["y", "z"]), 20).unwrap();
    assert_eq!(db.listings().len(), 1);
    assert_eq!(db.blobs().len(), 1);
    let row = &db.listings()[0];
    assert_eq!(row.id, 1);
    assert_eq!(row.created, 10);
    assert_eq!(row.last_seen, 20);
    assert_eq!(row.categories, vec!["x".to_owned(), "y".to_owned(), "z".to_owned()]);
    assert_eq!(row.image_blob, db.blobs()[0].id);
    assert_eq!(db.blobs()[0].hash, hash_blob(b"image"));
    assert_eq!(db.blobs()[0].data, b"image".to_vec());
}

#[test]
fn upsert_revises_price_title_image_and_keeps_the_rest() {
    let mut db = Database::open_in_memory();
    let mut first = listing("amazon.com", "A1", 100, b"old", &["x"]);
    first.star_rating = Some(4.5f64.to_bits());
    first.max_stars = Some(5.0f64.to_bits());
    first.num_reviews = Some(12);
    db.insert_or_update(first, 5).unwrap();
    let mut second = listing("amazon.com", "A1", 250, b"new", &[]);
    second.title = "renamed".to_owned();
    second.num_reviews = Some(99);
    db.insert_or_update(second, 9).unwrap();
    assert_eq!(db.listings().len(), 1);
    let row = &db.listings()[0];
    assert_eq!(row.price, 250);
    assert_eq!(row.title, "renamed");
    assert_eq!(row.created, 5);
    assert_eq!(row.last_seen, 9);
    assert_eq!(row.star_rating, Some(4.5f64.to_bits()));
    assert_eq!(row.max_stars, Some(5.0f64.to_bits()));
    assert_eq!(row.num_reviews, Some(12));
    assert_eq!(row.categories, vec!["x".to_owned()]);
    // The old image had no other listing and is collected.
    assert_eq!(db.blobs().len(), 1);
    assert_eq!(db.blobs()[0].data, b"new".to_vec());
    assert_eq!(db.blobs()[0].id, 2);
    assert_eq!(row.image_blob, 2);
}

#[test]
fn repeated_tags_in_one_listing_are_stored_once() {
    let mut db = Database::open_in_memory();
    db.insert_or_update(listing("amazon.com", "A1", 1, b"i", &["x", "x", "y", "x"]), 1).unwrap();
    assert_eq!(db.listings()[0].categories, vec!["x".to_owned(), "y".to_owned()]);
}

#[test]
fn identical_images_share_one_blob_until_both_listings_are_gone() {
    let mut db = Database::open_in_memory();
    db.insert_or_update(listing("shop.com", "A", 1, b"same", &[]), 1).unwrap();
    db.insert_or_update(listing("shop.com", "B", 2, b"same", &[]), 2).unwrap();
    assert_eq!(db.listings().len(), 2);
    assert_eq!(db.blobs().len(), 1);
    assert_eq!(db.listings()[0].image_blob, db.listings()[1].image_blob);
    let blob = db.blobs()[0].id;

    // Collecting a blob that is referred to does nothing.
    db.garbage_collect_blob(blob);
    assert_eq!(db.blobs().len(), 1);

    // A sweep that evicts one of the two keeps the blob.
    let levels = vec![all_of("shop.com")];
    assert_eq!(db.sweep(&levels, 1), (1, 0));
    assert_eq!(db.listings().len(), 1);
    assert_eq!(db.listings()[0].website_id, "B");
    assert_eq!(db.blobs().len(), 1);

    // A sweep that evicts the other collects it.
    assert_eq!(db.sweep(&levels, 0), (1, 1));
    assert_eq!(db.listings().len(), 0);
    assert_eq!(db.blobs().len(), 0);
}

#[test]
fn insert_blob_returns_the_identifier_under_the_content_address() {
    let mut db = Database::open_in_memory();
    assert_eq!(db.insert_blob(b"one"), Ok(1));
    assert_eq!(db.insert_blob(b"two"), Ok(2));
    assert_eq!(db.insert_blob(b"one"), Ok(1));
    assert_eq!(db.blobs().len(), 2);
    // Nothing refers to either blob.
    db.garbage_collect_blob(1);
    assert_eq!(db.blobs().len(), 1);
    assert_eq!(db.blobs()[0].id, 2);
    db.garbage_collect_blob(7);
    assert_eq!(db.blobs().len(), 1);
    // Identifiers continue behind the largest one in use.
    assert_eq!(db.insert_blob(b"three"), Ok(3));
}

#[test]
fn level_count_and_sampling_skip_seen_listings() {
    let mut db = Database::open_in_memory();
    db.insert_or_update(listing("shop.com", "A", 1, b"a", &["c"]), 1).unwrap();
    db.insert_or_update(listing("other.com", "B", 2, b"b", &["c"]), 2).unwrap();
    db.insert_or_update(listing("shop.com", "C", 3, b"c", &["d"]), 3).unwrap();
    let level = all_of("shop.com");
    assert_eq!(db.level_count(&vec![], &level), 2);
    assert_eq!(db.level_count(&vec![1], &level), 1);
    assert_eq!(db.level_count(&vec![3, 1, 3], &level), 0);
    assert_eq!(db.level_count(&vec![2, 17], &level), 2);

    let (first, id) = db.sample_listing_at(&vec![], &level, 0).unwrap();
    assert_eq!(id, 1);
    assert_eq!(first.website_id, "A");
    assert_eq!(first.image_data, b"a".to_vec());
    assert_eq!(first.categories, vec!["c".to_owned()]);
    let (second, id) = db.sample_listing_at(&vec![], &level, 1).unwrap();
    assert_eq!(id, 3);
    assert_eq!(second.website_id, "C");
    assert_eq!(second.price, 3);
    assert_eq!(second.image_data, b"c".to_vec());
    assert!(db.sample_listing_at(&vec![], &level, 2).is_none());
    let (only, id) = db.sample_listing_at(&vec![1], &level, 0).unwrap();
    assert_eq!(id, 3);
    assert_eq!(only.title, "item C");

    for _ in 0..20 {
        let (l, id) = db.sample_listing(&vec![], &level).unwrap();
        assert!(id == 1 || id == 3);
        assert_eq!(l.website, "shop.com");
        let (_, id) = db.sample_listing(&vec![1], &level).unwrap();
        assert_eq!(id, 3);
    }
    assert!(db.sample_listing(&vec![1, 3], &level).is_none());
}

#[test]
fn a_source_is_due_until_polled_and_again_after_the_interval() {
    let mut db = Database::open_in_memory();
    assert!(db.should_update_source("azn/x".to_owned(), 100, 0));
    db.updated_source("azn/x".to_owned(), 1000);
    assert!(!db.should_update_source("azn/x".to_owned(), 100, 1000));
    assert!(!db.should_update_source("azn/x".to_owned(), 100, 1100));
    assert!(db.should_update_source("azn/x".to_owned(), 100, 1101));
    assert!(db.should_update_source("azn/y".to_owned(), 100, 1000));
    db.updated_source("azn/x".to_owned(), 2000);
    assert_eq!(db.sources().len(), 1);
    assert_eq!(db.sources()[0].last_updated, 2000);
    assert!(!db.should_update_source("azn/x".to_owned(), 100, 1101));
    // No overflow at the ends of the range.
    assert!(!db.should_update_source("azn/x".to_owned(), i64::MAX, i64::MAX));
    assert!(db.should_update_source("azn/x".to_owned(), i64::MIN, 0));
}

fn blob_row(id: i64, data: &[u8]) -> BlobRow {
    BlobRow { id, hash: hash_blob(data), data: data.to_vec() }
}

fn listing_row(id: i64, website_id: &str, blob: i64) -> ListingRow {
    ListingRow {
        id,
        created: 1,
        last_seen: 1,
        website: "shop.com".to_owned(),
        website_id: website_id.to_owned(),
        price: 1,
        title: "t".to_owned(),
        image_blob: blob,
        categories: vec![],
        star_rating: None,
        max_stars: None,
        num_reviews: None,
    }
}

#[test]
fn from_rows_accepts_consistent_rows_only() {
    let ok = Database::from_rows(
        vec![listing_row(3, "A", 2), listing_row(8, "B", 2)],
        vec![blob_row(2, b"x"), blob_row(5, b"y")],
        vec![SourceStatus { source_id: "s".to_owned(), last_updated: 4 }],
    );
    let db = ok.expect("consistent rows");
    assert_eq!(db.listings().len(), 2);
    assert_eq!(db.blobs().len(), 2);

    // A listing that refers to no stored blob.
    assert!(Database::from_rows(vec![listing_row(1, "A", 9)], vec![blob_row(2, b"x")], vec![]).is_none());
    // Identifiers out of order.
    assert!(Database::from_rows(
        vec![listing_row(8, "A", 2), listing_row(3, "B", 2)],
        vec![blob_row(2, b"x")],
        vec![]
    )
    .is_none());
    // An identifier below one.
    assert!(Database::from_rows(vec![], vec![blob_row(0, b"x")], vec![]).is_none());
    // One key twice.
    assert!(Database::from_rows(
        vec![listing_row(1, "A", 2), listing_row(2, "A", 2)],
        vec![blob_row(2, b"x")],
        vec![]
    )
    .is_none());
    // One content address twice.
    assert!(Database::from_rows(vec![], vec![blob_row(1, b"x"), blob_row(2, b"x")], vec![]).is_none());
    // One source twice.
    assert!(Database::from_rows(
        vec![],
        vec![],
        vec![
            SourceStatus { source_id: "s".to_owned(), last_updated: 4 },
            SourceStatus { source_id: "s".to_owned(), last_updated: 5 },
        ]
    )
    .is_none());
    // One tag twice.
    let mut row = listing_row(1, "A", 2);
    row.categories = vec!["t".to_owned(), "t".to_owned()];
    assert!(Database::from_rows(vec![row], vec![blob_row(2, b"x")], vec![]).is_none());
}

#[test]
fn a_full_table_refuses_new_rows_and_changes_nothing() {
    let mut db = Database::from_rows(
        vec![listing_row(i64::MAX, "A", 1)],
        vec![blob_row(1, b"x")],
        vec![],
    )
    .unwrap();
    assert_eq!(db.insert_or_update(listing("shop.com", "B", 1, b"new", &[]), 5), Err(StoreError::Full));
    assert_eq!(db.listings().len(), 1);
    assert_eq!(db.blobs().len(), 1);
    // A known listing can still be revised.
    assert_eq!(db.insert_or_update(listing("shop.com", "A", 7, b"new", &[]), 5), Ok(()));
    assert_eq!(db.listings()[0].price, 7);
    assert_eq!(db.blobs().len(), 1);
    assert_eq!(db.blobs()[0].id, 2);

    let mut db = Database::from_rows(vec![], vec![blob_row(i64::MAX, b"x")], vec![]).unwrap();
    assert_eq!(db.insert_blob(b"y"), Err(StoreError::Full));
    assert_eq!(db.insert_blob(b"x"), Ok(i64::MAX));
    assert_eq!(db.insert_or_update(listing("shop.com", "B", 1, b"y", &[]), 5), Err(StoreError::Full));
    assert_eq!(db.listings().len(), 0);
    assert_eq!(db.insert_or_update(listing("shop.com", "B", 1, b"x", &[]), 5), Ok(()));
    assert_eq!(db.listings().len(), 1);
}
