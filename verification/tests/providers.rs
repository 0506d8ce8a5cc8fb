use retail_scraper::amazon::split_category;
use retail_scraper::amazon::ScrollCursor;
use retail_scraper::target::choose_search_keys;
use retail_scraper::target::collect_first_groups;
use retail_scraper::target::extract_search_keys;
use retail_scraper::target::find_setting;
use retail_scraper::target::most_common;
use retail_scraper::target::read_settings;
use retail_scraper::target::settings_text;
use retail_scraper::target::SearchCursor;
use retail_scraper::target::SearchKeyError;
use retail_scraper::text::find_text;

fn page(config: &str, data: &str) -> String {
    format!(
        "<script>Object.defineProperties(window, {{\n '__CONFIG__': {{ configurable: false, value: deepFreeze(JSON.parse({})), writable: false }},\n '__TGT_DATA__': {{ configurable: false, value: deepFreeze(JSON.parse({})), writable: false }},\n}});</script>",
        config, data
    )
}

fn strings(items: &[&str]) -> Vec<String> {
    items.iter().map(|s| (*s).to_owned()).collect()
}

fn one_match(groups: &[Option<&str>]) -> Vec<Option<String>> {
    groups.iter().map(|g| g.map(|s| s.to_owned())).collect()
}

#[test]
fn search_keys_are_read_off_the_home_page() {
    let config = r#""{\"a\":{\"apiKey\":\"abc123\"},\"b\":{\"apiKey\":\"def\"},\"c\":{\"apiKey\":\"abc123\"}}""#;
    let data = r#""{\"visitor_id\":\"0123ABCD\",\"other\":{\"visitor_id\":\"FFFF\"}}""#;
    let keys = extract_search_keys(&page(config, data)).unwrap();
    assert_eq!(keys.api_key, "abc123");
    assert_eq!(keys.visitor_id, "0123ABCD");
}

#[test]
fn a_page_without_its_settings_gives_no_keys() {
    assert_eq!(extract_search_keys("").unwrap_err(), SearchKeyError::PrefixNotFound);
    assert_eq!(extract_search_keys("<html></html>").unwrap_err(), SearchKeyError::PrefixNotFound);
    assert_eq!(
        extract_search_keys("Object.defineProperties(window, {});").unwrap_err(),
        SearchKeyError::MissingAppConfig
    );
    let only_config =
        "Object.defineProperties(window, {\n '__CONFIG__': { value: deepFreeze(JSON.parse(\"{}\")) },\n});";
    assert_eq!(extract_search_keys(only_config).unwrap_err(), SearchKeyError::MissingPageData);
    let good_data = r#""{\"visitor_id\":\"1\"}""#;
    let good_config = r#""{\"apiKey\":\"a1\"}""#;
    assert_eq!(
        extract_search_keys(&page(r#""{}""#, good_data)).unwrap_err(),
        SearchKeyError::NoApiKey
    );
    assert_eq!(
        extract_search_keys(&page(good_config, r#""{}""#)).unwrap_err(),
        SearchKeyError::NoVisitorId
    );
    assert_eq!(
        extract_search_keys(&page(r#""\q""#, good_data)).unwrap_err(),
        SearchKeyError::BadValue
    );
    assert_eq!(SearchKeyError::NoApiKey.message(), "no api keys found in Target homepage config");
    assert_eq!(
        SearchKeyError::MissingPageData.message(),
        "target search API key config missing: __TGT_DATA__"
    );
}

#[test]
fn a_key_without_hexadecimal_digits_is_read_as_the_empty_key() {
    let keys =
        extract_search_keys(&page(r#""{\"apiKey\":\"zz\"}""#, r#""{\"visitor_id\":\"1\"}""#)).unwrap();
    assert_eq!(keys.api_key, "");
    assert_eq!(keys.visitor_id, "1");
}

#[test]
fn the_settings_start_at_their_first_prefix() {
    assert_eq!(settings_text("abc"), None);
    assert_eq!(
        settings_text("é Object.defineProperties(window, {x Object.defineProperties(window, {y"),
        Some("Object.defineProperties(window, {x Object.defineProperties(window, {y".to_owned())
    );
    let hay: Vec<char> = "ababc".chars().collect();
    let needle: Vec<char> = "abc".chars().collect();
    assert_eq!(find_text(&hay, &needle), Some(2));
    assert_eq!(find_text(&hay, &[]), Some(0));
    assert_eq!(find_text(&needle, &hay), None);
    assert_eq!(find_text(&hay, &['c', 'a']), None);
}

#[test]
fn settings_are_read_in_order_and_the_last_of_a_name_counts() {
    let matches = vec![
        one_match(&[Some("whole"), Some("a"), Some("\"1\"")]),
        one_match(&[Some("whole"), Some("b"), Some("\"x\\ny\"")]),
        one_match(&[Some("whole"), Some("a"), Some("\"3\"")]),
    ];
    let settings = read_settings(&matches).unwrap();
    assert_eq!(
        settings,
        vec![
            ("a".to_owned(), "1".to_owned()),
            ("b".to_owned(), "x\ny".to_owned()),
            ("a".to_owned(), "3".to_owned())
        ]
    );
    assert_eq!(find_setting(&settings, "a"), Some("3".to_owned()));
    assert_eq!(find_setting(&settings, "b"), Some("x\ny".to_owned()));
    assert_eq!(find_setting(&settings, "c"), None);
    assert_eq!(read_settings(&vec![]).unwrap(), vec![]);

    let no_value = vec![one_match(&[Some("whole"), Some("a"), None])];
    assert_eq!(read_settings(&no_value).unwrap_err(), SearchKeyError::BadSetting);
    let short = vec![one_match(&[Some("whole"), Some("a")])];
    assert_eq!(read_settings(&short).unwrap_err(), SearchKeyError::BadSetting);
    let not_json = vec![
        one_match(&[Some("whole"), Some("a"), Some("\"1\"")]),
        one_match(&[Some("whole"), Some("b"), Some("17")]),
        one_match(&[Some("whole"), Some("c"), None]),
    ];
    assert_eq!(read_settings(&not_json).unwrap_err(), SearchKeyError::BadValue);
}

#[test]
fn the_most_common_key_wins_and_the_first_of_equals() {
    assert_eq!(most_common(&strings(&[])), None);
    assert_eq!(most_common(&strings(&["a"])), Some("a".to_owned()));
    assert_eq!(most_common(&strings(&["a", "b", "b", "a", "b"])), Some("b".to_owned()));
    assert_eq!(most_common(&strings(&["x", "a", "b", "b", "a"])), Some("a".to_owned()));
    assert_eq!(most_common(&strings(&["b", "a"])), Some("b".to_owned()));
}

#[test]
fn keys_are_chosen_from_what_the_patterns_found() {
    let keys = vec![
        one_match(&[Some("w"), Some("k1")]),
        one_match(&[Some("w"), None]),
        one_match(&[Some("w")]),
        one_match(&[Some("w"), Some("k2")]),
        one_match(&[Some("w"), Some("k2")]),
    ];
    assert_eq!(collect_first_groups(&keys), strings(&["k1", "k2", "k2"]));
    let visitors = vec![one_match(&[Some("w"), Some("v1")]), one_match(&[Some("w"), Some("v2")])];
    let found = choose_search_keys(Some(keys.clone()), Some(visitors.clone())).unwrap();
    assert_eq!(found.api_key, "k2");
    assert_eq!(found.visitor_id, "v1");
    assert_eq!(
        choose_search_keys(None, Some(visitors.clone())).unwrap_err(),
        SearchKeyError::BadPattern
    );
    assert_eq!(choose_search_keys(Some(keys.clone()), None).unwrap_err(), SearchKeyError::BadPattern);
    assert_eq!(
        choose_search_keys(Some(vec![]), Some(visitors.clone())).unwrap_err(),
        SearchKeyError::NoApiKey
    );
    assert_eq!(
        choose_search_keys(Some(keys.clone()), Some(vec![])).unwrap_err(),
        SearchKeyError::NoVisitorId
    );
    assert_eq!(
        choose_search_keys(Some(keys), Some(vec![one_match(&[Some("w"), None])])).unwrap_err(),
        SearchKeyError::NoVisitorId
    );
}

#[test]
fn a_search_ends_with_the_first_empty_page() {
    let mut cursor = SearchCursor::start();
    assert_eq!(cursor.offset, 0);
    assert!(cursor.turn_page(24));
    assert!(cursor.turn_page(7));
    assert_eq!(cursor.offset, 31);
    assert!(!cursor.turn_page(0));
    assert_eq!(cursor.offset, 31);
    let mut far = SearchCursor { offset: usize::MAX - 1 };
    assert!(far.turn_page(5));
    assert_eq!(far.offset, usize::MAX);
}

#[test]
fn a_scroll_ends_with_the_first_page_that_lists_nothing() {
    let mut cursor = ScrollCursor::start();
    assert_eq!(cursor.offset, 0);
    assert_eq!(cursor.search_blob, "");
    assert!(cursor.turn_page(50, 48, "blob1".to_owned()));
    assert_eq!(cursor.offset, 50);
    assert_eq!(cursor.search_blob, "blob1");
    assert!(!cursor.turn_page(3, 0, "blob2".to_owned()));
    assert_eq!(cursor.offset, 53);
    assert_eq!(cursor.search_blob, "blob2");
    let mut far = ScrollCursor { offset: i64::MAX - 1, search_blob: String::new() };
    assert!(far.turn_page(2, 1, String::new()));
    assert_eq!(far.offset, i64::MAX);
}

#[test]
fn a_category_identifier_parts_at_its_first_colon() {
    assert_eq!(split_category("interesting-finds"), ("interesting-finds".to_owned(), None));
    assert_eq!(
        split_category("adult-neutral:retro"),
        ("adult-neutral".to_owned(), Some("retro".to_owned()))
    );
    assert_eq!(split_category("a:b:c"), ("a".to_owned(), Some("b:c".to_owned())));
    assert_eq!(split_category(":x"), ("".to_owned(), Some("x".to_owned())));
    assert_eq!(split_category("x:"), ("x".to_owned(), Some("".to_owned())));
    assert_eq!(split_category(""), ("".to_owned(), None));
    assert_eq!(split_category("é:ü"), ("é".to_owned(), Some("ü".to_owned())));
}
