use retail_scraper::config::Args;
use retail_scraper::db::Database;
use retail_scraper::db::Listing;
use retail_scraper::http_util::accepts_gzip;
use retail_scraper::http_util::asset_mime_type;
use retail_scraper::http_util::detect_image_mime;
use retail_scraper::http_util::image_data_url;
use retail_scraper::levels::Level;

#[test]
fn defaults_of_the_configuration() {
    let args = Args::new("db.sqlite".to_owned());
    assert_eq!(args.asset_dir, None);
    assert_eq!(args.update_interval, 60 * 60 * 24);
    assert!(!args.no_updates);
    assert_eq!(args.client_retries, 10);
    assert_eq!(args.max_post_size, 1 << 20);
    assert_eq!(args.port, 8080);
    assert_eq!(args.db_path, "db.sqlite");
    assert_eq!(args.poll_interval(), 86400);
}

#[test]
fn the_poll_interval_stops_at_the_largest_time() {
    let mut args = Args::new(String::new());
    args.update_interval = 0;
    assert_eq!(args.poll_interval(), 0);
    args.update_interval = i64::MAX as u64;
    assert_eq!(args.poll_interval(), i64::MAX);
    args.update_interval = i64::MAX as u64 + 1;
    assert_eq!(args.poll_interval(), i64::MAX);
    args.update_interval = u64::MAX;
    assert_eq!(args.poll_interval(), i64::MAX);
}

#[test]
fn files_are_served_by_their_extension() {
    assert_eq!(asset_mime_type("js/api.js"), "application/javascript");
    assert_eq!(asset_mime_type("index.html"), "text/html");
    assert_eq!(asset_mime_type("style.css"), "text/css");
    assert_eq!(asset_mime_type("favicon.ico"), "image/x-icon");
    assert_eq!(asset_mime_type("svg/back.svg"), "image/svg+xml");
    assert_eq!(asset_mime_type("photo.png"), "application/octet-stream");
    assert_eq!(asset_mime_type(""), "application/octet-stream");
    assert_eq!(asset_mime_type("js"), "application/octet-stream");
    assert_eq!(asset_mime_type(".js"), "application/javascript");
    assert_eq!(asset_mime_type("a.JS"), "application/octet-stream");
    assert_eq!(asset_mime_type("a.js.html"), "text/html");
}

#[test]
fn gzip_is_taken_when_an_entry_names_it() {
    assert!(accepts_gzip("gzip"));
    assert!(accepts_gzip("gzip, deflate, br"));
    assert!(accepts_gzip("deflate, gzip;q=0.8, br"));
    assert!(accepts_gzip("br, gzip"));
    assert!(accepts_gzip("gzip;q=0"));
    assert!(!accepts_gzip(""));
    assert!(!accepts_gzip("deflate, br"));
    assert!(!accepts_gzip("deflate,gzip"));
    assert!(!accepts_gzip(" gzip"));
    assert!(!accepts_gzip("gzip "));
    assert!(!accepts_gzip("GZIP"));
    assert!(!accepts_gzip("x-gzip"));
    assert!(!accepts_gzip("br;gzip"));
    assert!(!accepts_gzip("gzi, p"));
    assert!(accepts_gzip(", gzip"));
    assert!(accepts_gzip("gzip, "));
    assert!(accepts_gzip(",, gzip"));
}

#[test]
fn images_are_told_by_their_first_bytes() {
    assert_eq!(detect_image_mime(&[0x89, b'P', b'N', b'G', 0x0d, 0x0a, 0x1a, 0x0a, 0]), Some("image/png"));
    assert_eq!(detect_image_mime(&[0xff, 0xd8, 0xff, 0xe0]), Some("image/jpeg"));
    assert_eq!(detect_image_mime(b"GIF89a"), Some("image/gif"));
    assert_eq!(detect_image_mime(b"RIFF\x10\x00\x00\x00WEBPVP8 "), Some("image/webp"));
    assert_eq!(detect_image_mime(b"RIFF\x10\x00\x00\x00WAVE"), None);
    assert_eq!(detect_image_mime(&[0x89, b'P', b'N', b'G']), None);
    assert_eq!(detect_image_mime(&[0xff, 0xd8]), None);
    assert_eq!(detect_image_mime(b""), None);
    assert_eq!(detect_image_mime(b"<svg"), None);
}

#[test]
fn an_image_goes_out_as_a_data_address() {
    assert_eq!(image_data_url(b"GIF89a"), "data:image/gif;base64,R0lGODlh");
    assert_eq!(image_data_url(b"hello"), "data:image/jpeg;base64,aGVsbG8=");
    assert_eq!(image_data_url(b""), "data:image/jpeg;base64,");
    assert_eq!(image_data_url(&[0xff, 0xd8, 0xff]), "data:image/jpeg;base64,/9j/");
}

fn listing(website: &str, id: &str, categories: &[&str]) -> Listing {
    Listing {
        website: website.to_owned(),
        website_id: id.to_owned(),
        price: 1,
        title: id.to_owned(),
        image_data: id.as_bytes().to_vec(),
        categories: categories.iter().map(|c| (*c).to_owned()).collect(),
        star_rating: None,
        max_stars: None,
        num_reviews: None,
    }
}

#[test]
fn levels_with_unseen_listings_are_listed_with_their_counts() {
    let mut db = Database::open_in_memory();
    assert!(db.non_empty_levels(&vec![]).is_empty());
    db.insert_or_update(listing("target.com", "1", &["rdihz"]), 1).unwrap();
    db.insert_or_update(listing("target.com", "2", &[]), 2).unwrap();
    db.insert_or_update(listing("amazon.com", "3", &["hgg-hol-hi"]), 3).unwrap();
    db.insert_or_update(listing("amazon.com", "4", &["other"]), 4).unwrap();
    let found: Vec<(&str, usize)> =
        db.non_empty_levels(&vec![]).iter().map(|e| (e.level.id, e.count)).collect();
    assert_eq!(found, vec![("amazon-thi", 1), ("target-all", 2), ("target-clothes", 1)]);
    let found: Vec<(&str, usize)> =
        db.non_empty_levels(&vec![1, 3]).iter().map(|e| (e.level.id, e.count)).collect();
    assert_eq!(found, vec![("target-all", 1)]);
}

#[test]
fn a_level_was_last_seen_when_its_newest_listing_was() {
    let mut db = Database::open_in_memory();
    let all = Level::find_by_id("target-all").unwrap();
    let clothes = Level::find_by_id("target-clothes").unwrap();
    assert_eq!(db.level_last_seen(&all), None);
    db.insert_or_update(listing("target.com", "1", &["rdihz"]), 5).unwrap();
    db.insert_or_update(listing("target.com", "2", &[]), 9).unwrap();
    db.insert_or_update(listing("target.com", "3", &[]), 7).unwrap();
    db.insert_or_update(listing("amazon.com", "4", &[]), 20).unwrap();
    assert_eq!(db.level_last_seen(&all), Some(9));
    assert_eq!(db.level_last_seen(&clothes), Some(5));
    assert_eq!(db.level_last_seen(&Level::find_by_id("amazon-if").unwrap()), None);
}
