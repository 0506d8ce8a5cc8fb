//! Listings as Target's search results state them.
use crate::db::Listing;
use crate::price::fitting;
use crate::price::parse_price;
use crate::price::price_cents;
use crate::seqs::lemma_filter_step;
use crate::text::chars_of;
use crate::text::find_matches;
use crate::text::find_text;
use crate::text::is_first_occurrence;
use crate::text::json_string_value;
use crate::text::occurs_at;
use crate::text::read_json_string;
use crate::text::regex_matches;
use vstd::prelude::*;

verus! {

/// The category of clothes, shoes and accessories.
pub const CATEGORY_CLOTHES_SHOES_ACCESSORIES: &'static str = "rdihz";

/// The category of sports and outdoors.
pub const CATEGORY_SPORTS_AND_OUTDOORS: &'static str = "5xt85";

/// One product of a page of search results.
#[derive(Debug)]
pub struct SearchResultProduct {
    pub tcin: String,
    pub formatted_current_price: String,
    pub title: String,
    pub primary_image_url: String,
}

/// The price of a product in hundredths, if the product states one. A
/// product without a readable price is left out of the results.
pub fn product_price(product: &SearchResultProduct) -> (cents: Option<i64>)
    ensures
        cents == fitting(price_cents(product.formatted_current_price@)),
{
    parse_price(product.formatted_current_price.as_str())
}

/// The listing for a product found in `category`, given its price in
/// hundredths and the bytes of its image.
pub fn product_listing(
    category: String,
    product: SearchResultProduct,
    price: i64,
    image_data: Vec<u8>,
) -> (listing: Listing)
    ensures
        listing.website@ == "target.com"@,
        listing.website_id@ == product.tcin@,
        listing.price == price,
        listing.title@ == product.title@,
        listing.image_data@ == image_data@,
        listing.categories.deep_view() == seq![category@],
        listing.star_rating is None,
        listing.max_stars is None,
        listing.num_reviews is None,
{
    let mut categories: Vec<String> = Vec::new();
    categories.push(category);
    Listing {
        website: "target.com".to_owned(),
        website_id: product.tcin,
        price,
        title: product.title,
        image_data,
        categories,
        star_rating: None,
        max_stars: None,
        num_reviews: None,
    }
}

/// How many products one page of search results holds at most.
pub const PAGE_SIZE: usize = 24;

/// How far a search has got.
#[derive(Clone, Copy, Debug, PartialEq, Eq, Structural)]
pub struct SearchCursor {
    /// How many products the pages fetched so far held.
    pub offset: usize,
}

impl SearchCursor {
    /// The cursor before the first page.
    pub fn start() -> (cursor: SearchCursor)
        ensures
            cursor.offset == 0,
    {
        SearchCursor { offset: 0 }
    }

    /// Takes note of a page of `products` products and says whether the
    /// search goes on: it ends with the first page that holds no product. The
    /// offset grows by the number of products, up to the largest offset.
    pub fn turn_page(&mut self, products: usize) -> (more: bool)
        ensures
            more == (products > 0),
            final(self).offset == if old(self).offset + products <= usize::MAX {
                (old(self).offset + products) as usize
            } else {
                usize::MAX
            },
    {
        self.offset = if products <= usize::MAX - self.offset {
            self.offset + products
        } else {
            usize::MAX
        };
        products > 0
    }
}

/// What the home page's script starts its settings with.
pub const SETTINGS_PREFIX: &'static str = "Object.defineProperties(window, {";

/// The pattern of one setting of the home page: its name, and its value as a
/// JSON string literal.
pub const SETTING_PATTERN: &'static str =
    "\\s*'(.*)': \\{.*value: deepFreeze\\(JSON.parse\\((\".*\")\\)\\).*\\},";

/// The pattern of a search key in the application's settings.
pub const API_KEY_PATTERN: &'static str = "apiKey\":\"([a-fA-F0-9]*)";

/// The pattern of the visitor's identifier in the page's data.
pub const VISITOR_ID_PATTERN: &'static str = "visitor_id\":\"([0-9a-fA-F]*)";

/// The name of the setting that holds the application's settings.
pub const APP_CONFIG: &'static str = "__CONFIG__";

/// The name of the setting that holds the page's data.
pub const PAGE_DATA: &'static str = "__TGT_DATA__";

/// What a search request must carry.
#[derive(Debug)]
pub struct SearchKeys {
    pub api_key: String,
    pub visitor_id: String,
}

/// The two keys as texts.
pub struct SearchKeysView {
    pub api_key: Seq<char>,
    pub visitor_id: Seq<char>,
}

impl View for SearchKeys {
    type V = SearchKeysView;

    open spec fn view(&self) -> SearchKeysView {
        SearchKeysView { api_key: self.api_key@, visitor_id: self.visitor_id@ }
    }
}

/// Why the home page gave no search keys.
#[derive(Clone, Copy, Debug, PartialEq, Eq, Structural)]
pub enum SearchKeyError {
    /// The page does not hold the start of the settings.
    PrefixNotFound,
    /// A pattern was refused.
    BadPattern,
    /// A setting came without its name or its value.
    BadSetting,
    /// The value of a setting is not a JSON string literal.
    BadValue,
    /// The application's settings are missing.
    MissingAppConfig,
    /// The page's data are missing.
    MissingPageData,
    /// The application's settings hold no search key.
    NoApiKey,
    /// The page's data hold no visitor identifier.
    NoVisitorId,
}

impl SearchKeyError {
    /// The error in words.
    pub open spec fn text(self) -> Seq<char> {
        match self {
            SearchKeyError::PrefixNotFound => "search API key prefix not found"@,
            SearchKeyError::BadPattern => "search API key pattern refused"@,
            SearchKeyError::BadSetting => "target search API key config malformed"@,
            SearchKeyError::BadValue => "target search API key config is not a JSON string"@,
            SearchKeyError::MissingAppConfig => "target search API key config missing: __CONFIG__"@,
            SearchKeyError::MissingPageData => "target search API key config missing: __TGT_DATA__"@,
            SearchKeyError::NoApiKey => "no api keys found in Target homepage config"@,
            SearchKeyError::NoVisitorId => "no visitor ID found in Target homepage data"@,
        }
    }

    /// The error in words.
    pub fn message(&self) -> (text: &'static str)
        ensures
            text@ == self.text(),
    {
        match self {
            SearchKeyError::PrefixNotFound => "search API key prefix not found",
            SearchKeyError::BadPattern => "search API key pattern refused",
            SearchKeyError::BadSetting => "target search API key config malformed",
            SearchKeyError::BadValue => "target search API key config is not a JSON string",
            SearchKeyError::MissingAppConfig => "target search API key config missing: __CONFIG__",
            SearchKeyError::MissingPageData => "target search API key config missing: __TGT_DATA__",
            SearchKeyError::NoApiKey => "no api keys found in Target homepage config",
            SearchKeyError::NoVisitorId => "no visitor ID found in Target homepage data",
        }
    }
}

/// The text of group `i` of a match, if the group took part in it.
pub open spec fn group(m: Seq<Option<Seq<char>>>, i: int) -> Option<Seq<char>> {
    if 0 <= i < m.len() {
        m[i]
    } else {
        None
    }
}

/// The name and the value that one match of the setting pattern states.
pub open spec fn setting_of(m: Seq<Option<Seq<char>>>) -> Result<
    (Seq<char>, Seq<char>),
    SearchKeyError,
> {
    match (group(m, 1), group(m, 2)) {
        (Some(name), Some(literal)) => match json_string_value(literal) {
            Some(value) => Ok((name, value)),
            None => Err(SearchKeyError::BadValue),
        },
        _ => Err(SearchKeyError::BadSetting),
    }
}

/// The settings that the matches of the setting pattern state, in order; the
/// error of the first match that states none.
pub open spec fn settings_of(matches: Seq<Seq<Option<Seq<char>>>>) -> Result<
    Seq<(Seq<char>, Seq<char>)>,
    SearchKeyError,
>
    decreases matches.len(),
{
    if matches.len() == 0 {
        Ok(Seq::empty())
    } else {
        match settings_of(matches.drop_last()) {
            Err(e) => Err(e),
            Ok(settings) => match setting_of(matches.last()) {
                Err(e) => Err(e),
                Ok(setting) => Ok(settings.push(setting)),
            },
        }
    }
}

/// The value of the last setting named `name`.
pub open spec fn setting_value(settings: Seq<(Seq<char>, Seq<char>)>, name: Seq<char>) -> Option<
    Seq<char>,
>
    decreases settings.len(),
{
    if settings.len() == 0 {
        None
    } else if settings.last().0 == name {
        Some(settings.last().1)
    } else {
        setting_value(settings.drop_last(), name)
    }
}

/// The texts of group one of those matches in which the group took part.
pub open spec fn first_groups(matches: Seq<Seq<Option<Seq<char>>>>) -> Seq<Seq<char>>
    decreases matches.len(),
{
    if matches.len() == 0 {
        Seq::empty()
    } else {
        match group(matches.last(), 1) {
            Some(text) => first_groups(matches.drop_last()).push(text),
            None => first_groups(matches.drop_last()),
        }
    }
}

/// How often `key` occurs in `keys`.
pub open spec fn occurrences(keys: Seq<Seq<char>>, key: Seq<char>) -> nat {
    keys.filter(|k: Seq<char>| k == key).len()
}

/// Whether the key at place `i` occurs as often as any key of `keys`, and more
/// often than every key before it.
pub open spec fn is_most_common(keys: Seq<Seq<char>>, i: int) -> bool {
    &&& 0 <= i < keys.len()
    &&& forall|j: int|
        0 <= j < keys.len() ==> occurrences(keys, #[trigger] keys[j]) <= occurrences(keys, keys[i])
    &&& forall|j: int|
        0 <= j < i ==> occurrences(keys, #[trigger] keys[j]) < occurrences(keys, keys[i])
}

/// The key that occurs most often in `keys`; of several that occur equally
/// often, the one that occurs first.
pub open spec fn most_common_of(keys: Seq<Seq<char>>) -> Seq<char> {
    keys[choose|i: int| is_most_common(keys, i)]
}

/// The part of `page` from the start of the settings on.
pub fn settings_text(page: &str) -> (tail: Option<String>)
    ensures
        match tail {
            Some(t) => exists|i: int| #[trigger]
                is_first_occurrence(page@, SETTINGS_PREFIX@, i) && t@ == page@.skip(i),
            None => forall|i: int| !occurs_at(page@, SETTINGS_PREFIX@, i),
        },
{
    let chars = chars_of(page);
    let prefix = chars_of(SETTINGS_PREFIX);
    match find_text(chars.as_slice(), prefix.as_slice()) {
        None => None,
        Some(i) => {
            let tail = page.substring_char(i, chars.len());
            Some(tail.to_owned())
        },
    }
}

/// The settings that the matches of the setting pattern state.
pub fn read_settings(matches: &Vec<Vec<Option<String>>>) -> (settings: Result<
    Vec<(String, String)>,
    SearchKeyError,
>)
    ensures
        match settings {
            Ok(s) => settings_of(matches.deep_view()) == Ok::<
                Seq<(Seq<char>, Seq<char>)>,
                SearchKeyError,
            >(s.deep_view()),
            Err(e) => settings_of(matches.deep_view()) == Err::<
                Seq<(Seq<char>, Seq<char>)>,
                SearchKeyError,
            >(e),
        },
{
    let ghost all = matches.deep_view();
    let mut settings: Vec<(String, String)> = Vec::new();
    let mut i: usize = 0;
    assert(settings.deep_view() =~= Seq::empty());
    while i < matches.len()
        invariant
            i <= matches.len(),
            all == matches.deep_view(),
            all.len() == matches.len(),
            settings_of(all.take(i as int)) == Ok::<Seq<(Seq<char>, Seq<char>)>, SearchKeyError>(
                settings.deep_view(),
            ),
        decreases matches.len() - i,
    {
        let m = &matches[i];
        proof {
            assert(all.take(i as int + 1).drop_last() =~= all.take(i as int));
            if settings_of(all.take(i as int + 1)).is_err() {
                lemma_settings_error(all, i as int + 1);
            }
        }
        if m.len() < 3 {
            return Err(SearchKeyError::BadSetting);
        }
        let setting = match (&m[1], &m[2]) {
            (Some(name), Some(literal)) => match read_json_string(literal.as_str()) {
                Some(value) => (name.clone(), value),
                None => {
                    return Err(SearchKeyError::BadValue);
                },
            },
            _ => {
                return Err(SearchKeyError::BadSetting);
            },
        };
        let ghost before = settings.deep_view();
        settings.push(setting);
        assert(settings.deep_view() =~= before.push((setting.0@, setting.1@)));
        i += 1;
    }
    assert(all.take(matches.len() as int) =~= all);
    Ok(settings)
}

/// Once a match states no setting, the matches behind it do not matter.
pub proof fn lemma_settings_error(matches: Seq<Seq<Option<Seq<char>>>>, n: int)
    requires
        0 <= n <= matches.len(),
        settings_of(matches.take(n)).is_err(),
    ensures
        settings_of(matches) == settings_of(matches.take(n)),
    decreases matches.len() - n,
{
    if n == matches.len() {
        assert(matches.take(n) =~= matches);
    } else {
        assert(matches.take(n + 1).drop_last() =~= matches.take(n));
        lemma_settings_error(matches, n + 1);
    }
}

/// The value of the last setting named `name`.
pub fn find_setting(settings: &Vec<(String, String)>, name: &str) -> (value: Option<String>)
    ensures
        value.deep_view() == setting_value(settings.deep_view(), name@),
{
    let ghost all = settings.deep_view();
    let mut i: usize = settings.len();
    assert(all.take(i as int) =~= all);
    while i > 0
        invariant
            i <= settings.len(),
            all == settings.deep_view(),
            all.len() == settings.len(),
            setting_value(all, name@) == setting_value(all.take(i as int), name@),
        decreases i,
    {
        i -= 1;
        proof {
            assert(all.take(i as int + 1).drop_last() =~= all.take(i as int));
        }
        if crate::text::str_eq(settings[i].0.as_str(), name) {
            return Some(settings[i].1.clone());
        }
    }
    None
}

/// The texts of group one of those matches in which the group took part.
pub fn collect_first_groups(matches: &Vec<Vec<Option<String>>>) -> (texts: Vec<String>)
    ensures
        texts.deep_view() == first_groups(matches.deep_view()),
{
    let ghost all = matches.deep_view();
    let mut texts: Vec<String> = Vec::new();
    let mut i: usize = 0;
    while i < matches.len()
        invariant
            i <= matches.len(),
            all == matches.deep_view(),
            all.len() == matches.len(),
            texts.deep_view() == first_groups(all.take(i as int)),
        decreases matches.len() - i,
    {
        let m = &matches[i];
        proof {
            assert(all.take(i as int + 1).drop_last() =~= all.take(i as int));
        }
        if m.len() > 1 {
            match &m[1] {
                Some(text) => {
                    texts.push(text.clone());
                },
                None => {},
            }
        }
        i += 1;
    }
    assert(all.take(matches.len() as int) =~= all);
    texts
}

/// How often the key at place `i` occurs in `keys`.
fn count_of(keys: &Vec<String>, i: usize) -> (count: usize)
    requires
        i < keys.len(),
    ensures
        count == occurrences(keys.deep_view(), keys.deep_view()[i as int]),
{
    let ghost all = keys.deep_view();
    let ghost same = |k: Seq<char>| k == all[i as int];
    let mut count: usize = 0;
    let mut j: usize = 0;
    proof {
        reveal(Seq::filter);
    }
    while j < keys.len()
        invariant
            j <= keys.len(),
            i < keys.len(),
            all == keys.deep_view(),
            all.len() == keys.len(),
            same == |k: Seq<char>| k == all[i as int],
            count <= j,
            count == all.take(j as int).filter(same).len(),
        decreases keys.len() - j,
    {
        proof {
            lemma_filter_step(all, same, j as int);
        }
        if keys[j] == keys[i] {
            count += 1;
        }
        j += 1;
    }
    assert(all.take(keys.len() as int) =~= all);
    count
}

/// The key that occurs most often in `keys`; of several that occur equally
/// often, the one that occurs first. `None` if there is no key.
pub fn most_common(keys: &Vec<String>) -> (key: Option<String>)
    ensures
        match key {
            Some(k) => exists|i: int| #[trigger]
                is_most_common(keys.deep_view(), i) && k@ == keys.deep_view()[i],
            None => keys.len() == 0,
        },
{
    if keys.len() == 0 {
        return None;
    }
    let ghost all = keys.deep_view();
    let mut best: usize = 0;
    let mut best_count = count_of(keys, 0);
    let mut i: usize = 1;
    while i < keys.len()
        invariant
            1 <= i <= keys.len(),
            best < i,
            all == keys.deep_view(),
            all.len() == keys.len(),
            best_count == occurrences(all, all[best as int]),
            forall|j: int| 0 <= j < i ==> occurrences(all, #[trigger] all[j]) <= best_count,
            forall|j: int| 0 <= j < best ==> occurrences(all, #[trigger] all[j]) < best_count,
        decreases keys.len() - i,
    {
        let count = count_of(keys, i);
        if count > best_count {
            best = i;
            best_count = count;
        }
        i += 1;
    }
    assert(is_most_common(all, best as int));
    Some(keys[best].clone())
}

/// The search keys that the home page `page` states, where `tail` is its
/// text from the start of the settings on.
pub open spec fn search_keys_in(tail: Seq<char>) -> Result<SearchKeysView, SearchKeyError> {
    match regex_matches(SETTING_PATTERN@, tail) {
        None => Err(SearchKeyError::BadPattern),
        Some(matches) => match settings_of(matches) {
            Err(e) => Err(e),
            Ok(settings) => match setting_value(settings, APP_CONFIG@) {
                None => Err(SearchKeyError::MissingAppConfig),
                Some(config) => match setting_value(settings, PAGE_DATA@) {
                    None => Err(SearchKeyError::MissingPageData),
                    Some(data) => search_keys_from(
                        regex_matches(API_KEY_PATTERN@, config),
                        regex_matches(VISITOR_ID_PATTERN@, data),
                    ),
                },
            },
        },
    }
}

/// The search keys that the matches of the key pattern in the application's
/// settings and the matches of the visitor pattern in the page's data state:
/// the most common key, and the first visitor identifier.
pub open spec fn search_keys_from(
    keys: Option<Seq<Seq<Option<Seq<char>>>>>,
    visitors: Option<Seq<Seq<Option<Seq<char>>>>>,
) -> Result<SearchKeysView, SearchKeyError> {
    match keys {
        None => Err(SearchKeyError::BadPattern),
        Some(keys) => if first_groups(keys).len() == 0 {
            Err(SearchKeyError::NoApiKey)
        } else {
            match visitors {
                None => Err(SearchKeyError::BadPattern),
                Some(visitors) => if visitors.len() > 0 && group(visitors[0], 1) is Some {
                    Ok(
                        SearchKeysView {
                            api_key: most_common_of(first_groups(keys)),
                            visitor_id: group(visitors[0], 1)->0,
                        },
                    )
                } else {
                    Err(SearchKeyError::NoVisitorId)
                },
            }
        },
    }
}

/// Picks the search keys out of what the patterns found.
pub fn choose_search_keys(
    keys: Option<Vec<Vec<Option<String>>>>,
    visitors: Option<Vec<Vec<Option<String>>>>,
) -> (found: Result<SearchKeys, SearchKeyError>)
    ensures
        match found {
            Ok(k) => search_keys_from(keys.deep_view(), visitors.deep_view()) == Ok::<
                SearchKeysView,
                SearchKeyError,
            >(k@),
            Err(e) => search_keys_from(keys.deep_view(), visitors.deep_view()) == Err::<
                SearchKeysView,
                SearchKeyError,
            >(e),
        },
{
    let keys = match keys {
        None => {
            return Err(SearchKeyError::BadPattern);
        },
        Some(keys) => keys,
    };
    let texts = collect_first_groups(&keys);
    let api_key = match most_common(&texts) {
        None => {
            return Err(SearchKeyError::NoApiKey);
        },
        Some(key) => key,
    };
    assert(api_key@ == most_common_of(texts.deep_view())) by {
        let all = texts.deep_view();
        let i = choose|i: int| #[trigger] is_most_common(all, i) && api_key@ == all[i];
        let c = choose|i: int| is_most_common(all, i);
        assert(is_most_common(all, i) && is_most_common(all, c));
    }
    let visitors = match visitors {
        None => {
            return Err(SearchKeyError::BadPattern);
        },
        Some(visitors) => visitors,
    };
    if visitors.len() == 0 || visitors[0].len() < 2 {
        return Err(SearchKeyError::NoVisitorId);
    }
    match &visitors[0][1] {
        None => Err(SearchKeyError::NoVisitorId),
        Some(id) => Ok(SearchKeys { api_key, visitor_id: id.clone() }),
    }
}

/// Reads the search keys off the home page: the settings behind the start of
/// the settings are read; the search key is the one that the application's
/// settings name most often, and the visitor identifier the first that the
/// page's data name.
pub fn extract_search_keys(page: &str) -> (found: Result<SearchKeys, SearchKeyError>)
    ensures
        match found {
            Ok(k) => exists|i: int| #[trigger]
                is_first_occurrence(page@, SETTINGS_PREFIX@, i) && search_keys_in(page@.skip(i))
                    == Ok::<SearchKeysView, SearchKeyError>(k@),
            Err(e) => if e == SearchKeyError::PrefixNotFound {
                forall|i: int| !occurs_at(page@, SETTINGS_PREFIX@, i)
            } else {
                exists|i: int| #[trigger]
                    is_first_occurrence(page@, SETTINGS_PREFIX@, i) && search_keys_in(
                        page@.skip(i),
                    ) == Err::<SearchKeysView, SearchKeyError>(e)
            },
        },
{
    let tail = match settings_text(page) {
        None => {
            return Err(SearchKeyError::PrefixNotFound);
        },
        Some(tail) => tail,
    };
    let matches = match find_matches(SETTING_PATTERN, tail.as_str()) {
        None => {
            return Err(SearchKeyError::BadPattern);
        },
        Some(matches) => matches,
    };
    let settings = match read_settings(&matches) {
        Err(e) => {
            assert(e != SearchKeyError::PrefixNotFound) by {
                lemma_settings_errors(matches.deep_view());
            }
            return Err(e);
        },
        Ok(settings) => settings,
    };
    let config = match find_setting(&settings, APP_CONFIG) {
        None => {
            return Err(SearchKeyError::MissingAppConfig);
        },
        Some(config) => config,
    };
    let data = match find_setting(&settings, PAGE_DATA) {
        None => {
            return Err(SearchKeyError::MissingPageData);
        },
        Some(data) => data,
    };
    let keys = find_matches(API_KEY_PATTERN, config.as_str());
    let visitors = find_matches(VISITOR_ID_PATTERN, data.as_str());
    choose_search_keys(keys, visitors)
}

/// Reading settings fails for a bad setting or a bad value only.
pub proof fn lemma_settings_errors(matches: Seq<Seq<Option<Seq<char>>>>)
    ensures
        match settings_of(matches) {
            Ok(_) => true,
            Err(e) => e == SearchKeyError::BadSetting || e == SearchKeyError::BadValue,
        },
    decreases matches.len(),
{
    if matches.len() > 0 {
        lemma_settings_errors(matches.drop_last());
    }
}

} // verus!
