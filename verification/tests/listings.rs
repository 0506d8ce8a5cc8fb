use retail_scraper::amazon::result_listing;
use retail_scraper::amazon::result_price;
use retail_scraper::amazon::AmazonResult;
use retail_scraper::amazon::MAX_STARS;
use retail_scraper::db::Database;
use retail_scraper::price::parse_count;
use retail_scraper::price::parse_price;
use retail_scraper::target::product_listing;
use retail_scraper::target::product_price;
use retail_scraper::target::SearchResultProduct;
use retail_scraper::target::CATEGORY_CLOTHES_SHOES_ACCESSORIES;
use retail_scraper::target::CATEGORY_SPORTS_AND_OUTDOORS;
use retail_scraper::text::chars_of;

#[test]
fn a_price_is_read_as_hundredths() {
    assert_eq!(parse_price("$12.34"), Some(1234));
    assert_eq!(parse_price("$1,234.56"), Some(123456));
    assert_eq!(parse_price("12"), Some(1200));
    assert_eq!(parse_price("12."), Some(1200));
    assert_eq!(parse_price(".5"), Some(50));
    assert_eq!(parse_price("0.07"), Some(7));
    assert_eq!(parse_price("$0"), Some(0));
    assert_eq!(parse_price("-3.20"), Some(-320));
    assert_eq!(parse_price("+3.2"), Some(320));
    assert_eq!(parse_price("007"), Some(700));
}

#[test]
fn digits_behind_the_second_place_round_to_the_nearest_hundredth() {
    assert_eq!(parse_price("1.004"), Some(100));
    assert_eq!(parse_price("1.005"), Some(101));
    assert_eq!(parse_price("1.0049999"), Some(100));
    assert_eq!(parse_price("1.999"), Some(200));
    assert_eq!(parse_price("-1.995"), Some(-200));
    assert_eq!(parse_price("0.994"), Some(99));
}

#[test]
fn text_that_states_no_price_is_refused() {
    assert_eq!(parse_price("N/A"), None);
    assert_eq!(parse_price(""), None);
    assert_eq!(parse_price("$"), None);
    assert_eq!(parse_price("."), None);
    assert_eq!(parse_price("-"), None);
    assert_eq!(parse_price("1.2.3"), None);
    assert_eq!(parse_price("12.34 - 15.00"), None);
    assert_eq!(parse_price(" 12"), None);
    assert_eq!(parse_price("1e3"), None);
    assert_eq!(parse_price("--1"), None);
    assert_eq!(parse_price("1-"), None);
    assert_eq!(parse_price("١٢"), None);
}

#[test]
fn prices_at_the_ends_of_the_range() {
    assert_eq!(parse_price("92233720368547758.07"), Some(i64::MAX));
    assert_eq!(parse_price("92233720368547758.074"), Some(i64::MAX));
    assert_eq!(parse_price("92233720368547758.075"), None);
    assert_eq!(parse_price("92233720368547758.08"), None);
    assert_eq!(parse_price("-92233720368547758.08"), Some(i64::MIN));
    assert_eq!(parse_price("-92233720368547758.09"), None);
    assert_eq!(parse_price("92233720368547759"), None);
    assert_eq!(parse_price("99999999999999999999999999999999999999999999"), None);
    assert_eq!(parse_price("00000000000000000000000000000000000000000001"), Some(100));
}

#[test]
fn a_count_is_read_without_its_separators() {
    assert_eq!(parse_count("1,234"), Some(1234));
    assert_eq!(parse_count("0"), Some(0));
    assert_eq!(parse_count("+7"), Some(7));
    assert_eq!(parse_count("-7"), Some(-7));
    assert_eq!(parse_count("9223372036854775807"), Some(i64::MAX));
    assert_eq!(parse_count("9223372036854775808"), None);
    assert_eq!(parse_count("-9223372036854775808"), Some(i64::MIN));
    assert_eq!(parse_count("-9223372036854775809"), None);
    assert_eq!(parse_count(""), None);
    assert_eq!(parse_count(","), None);
    assert_eq!(parse_count("12.5"), None);
    assert_eq!(parse_count("1 234"), None);
    assert_eq!(parse_count("$5"), None);
}

#[test]
fn chars_of_gives_every_character() {
    assert_eq!(chars_of(""), Vec::<char>::new());
    assert_eq!(chars_of("a$é"), vec!['a', '$', 'é']);
}

fn product(tcin: &str, price: &str) -> SearchResultProduct {
    SearchResultProduct {
        tcin: tcin.to_owned(),
        formatted_current_price: price.to_owned(),
        title: format!("product {}", tcin),
        primary_image_url: format!("https://img/{}", tcin),
    }
}

#[test]
fn an_unreadable_price_skips_one_item_and_not_the_batch() {
    let mut db = Database::open_in_memory();
    let batch = vec![product("1", "$12.34"), product("2", "N/A"), product("3", "$5")];
    let mut now = 0;
    for item in batch {
        now += 1;
        if let Some(price) = product_price(&item) {
            let image = item.tcin.as_bytes().to_vec();
            let listing = product_listing("rdihz".to_owned(), item, price, image);
            db.insert_or_update(listing, now).unwrap();
        }
    }
    assert_eq!(db.listings().len(), 2);
    assert_eq!(db.blobs().len(), 2);
    assert_eq!(db.listings()[0].website_id, "1");
    assert_eq!(db.listings()[0].price, 1234);
    assert_eq!(db.listings()[1].website_id, "3");
    assert_eq!(db.listings()[1].price, 500);
}

#[test]
fn a_target_product_becomes_a_listing() {
    let item = product("T9", "$1,000.50");
    assert_eq!(product_price(&item), Some(100050));
    let listing = product_listing(CATEGORY_SPORTS_AND_OUTDOORS.to_owned(), item, 100050, vec![1, 2]);
    assert_eq!(listing.website, "target.com");
    assert_eq!(listing.website_id, "T9");
    assert_eq!(listing.price, 100050);
    assert_eq!(listing.title, "product T9");
    assert_eq!(listing.image_data, vec![1, 2]);
    assert_eq!(listing.categories, vec!["5xt85".to_owned()]);
    assert_eq!(listing.star_rating, None);
    assert_eq!(listing.max_stars, None);
    assert_eq!(listing.num_reviews, None);
    assert_eq!(CATEGORY_CLOTHES_SHOES_ACCESSORIES, "rdihz");
}

fn result(price: Option<&str>, image: Option<&str>, reviews: &str) -> AmazonResult {
    AmazonResult {
        asin: "B01".to_owned(),
        price: price.map(|p| p.to_owned()),
        title: "thing".to_owned(),
        display_large_image_url: image.map(|p| p.to_owned()),
        star_rating: 4.5f64.to_bits(),
        review_count: reviews.to_owned(),
    }
}

#[test]
fn an_amazon_result_needs_a_price_and_an_image() {
    assert_eq!(result_price(&result(Some("$9.99"), Some("u"), "1")), Some(999));
    assert_eq!(result_price(&result(None, Some("u"), "1")), None);
    assert_eq!(result_price(&result(Some("$9.99"), None, "1")), None);
    assert_eq!(result_price(&result(Some("see options"), Some("u"), "1")), None);
}

#[test]
fn an_amazon_result_becomes_a_listing() {
    let listing = result_listing(
        "adult-neutral:retro".to_owned(),
        result(Some("$9.99"), Some("u"), "12,345"),
        999,
        vec![7],
    );
    assert_eq!(listing.website, "amazon.com");
    assert_eq!(listing.website_id, "B01");
    assert_eq!(listing.price, 999);
    assert_eq!(listing.title, "thing");
    assert_eq!(listing.image_data, vec![7]);
    assert_eq!(listing.categories, vec!["adult-neutral:retro".to_owned()]);
    assert_eq!(listing.star_rating, Some(4.5f64.to_bits()));
    assert_eq!(listing.max_stars, Some(5.0f64.to_bits()));
    assert_eq!(MAX_STARS, 5.0f64.to_bits());
    assert_eq!(listing.num_reviews, Some(12345));
    let unknown = result_listing("c".to_owned(), result(Some("1"), Some("u"), "many"), 100, vec![]);
    assert_eq!(unknown.num_reviews, None);
}
