//! Listings as Amazon's search results state them.
use crate::db::Listing;
use crate::price::count_value;
use crate::price::fitting;
use crate::price::parse_count;
use crate::price::parse_price;
use crate::price::price_cents;
use crate::text::chars_of;
use crate::text::find_char;
use crate::text::first_index;
use vstd::prelude::*;

verus! {

/// Five stars, the most that a product can have, as the bit pattern of the
/// IEEE 754 double-precision value 5.0.
pub const MAX_STARS: u64 = 0x4014_0000_0000_0000;

/// One product of a page of search results. The rating is the bit pattern of
/// an IEEE 754 double-precision value.
#[derive(Debug)]
pub struct AmazonResult {
    pub asin: String,
    pub price: Option<String>,
    pub title: String,
    pub display_large_image_url: Option<String>,
    pub star_rating: u64,
    pub review_count: String,
}

/// The price that a result states in hundredths, if it is to be listed.
pub open spec fn listed_price(result: &AmazonResult) -> Option<i64> {
    match (result.price, result.display_large_image_url) {
        (Some(price), Some(_)) => fitting(price_cents(price@)),
        _ => None,
    }
}

/// The price of a result in hundredths, if the result is to be listed. A result
/// without a readable price or without an image is left out of the results.
pub fn result_price(result: &AmazonResult) -> (cents: Option<i64>)
    ensures
        cents == listed_price(result),
{
    match (&result.price, &result.display_large_image_url) {
        (Some(price), Some(_)) => parse_price(price.as_str()),
        _ => None,
    }
}

/// The listing for a result found in the category `category_id`, given its
/// price in hundredths and the bytes of its image.
pub fn result_listing(
    category_id: String,
    result: AmazonResult,
    price: i64,
    image_data: Vec<u8>,
) -> (listing: Listing)
    ensures
        listing.website@ == "amazon.com"@,
        listing.website_id@ == result.asin@,
        listing.price == price,
        listing.title@ == result.title@,
        listing.image_data@ == image_data@,
        listing.categories.deep_view() == seq![category_id@],
        listing.star_rating == Some(result.star_rating),
        listing.max_stars == Some(MAX_STARS),
        listing.num_reviews == fitting(count_value(result.review_count@)),
{
    let num_reviews = parse_count(result.review_count.as_str());
    let mut categories: Vec<String> = Vec::new();
    categories.push(category_id);
    Listing {
        website: "amazon.com".to_owned(),
        website_id: result.asin,
        price,
        title: result.title,
        image_data,
        categories,
        star_rating: Some(result.star_rating),
        max_stars: Some(MAX_STARS),
        num_reviews,
    }
}

/// How many results one page holds at most.
pub const PAGE_SIZE: i64 = 50;

/// How far a scroll through a category has got.
#[derive(Debug)]
pub struct ScrollCursor {
    /// How many results the pages fetched so far held.
    pub offset: i64,
    /// What the last page gave to fetch the next page with.
    pub search_blob: String,
}

impl ScrollCursor {
    /// The cursor before the first page.
    pub fn start() -> (cursor: ScrollCursor)
        ensures
            cursor.offset == 0,
            cursor.search_blob@ == Seq::<char>::empty(),
    {
        ScrollCursor { offset: 0, search_blob: String::new() }
    }

    /// Takes note of a page that held `results` results, of which `listed`
    /// became listings, and that gave `search_blob` for the next page. Says
    /// whether the scroll goes on: it ends with the first page of which
    /// nothing became a listing. The offset grows by the number of results,
    /// up to the largest offset.
    pub fn turn_page(&mut self, results: usize, listed: usize, search_blob: String) -> (more: bool)
        ensures
            more == (listed > 0),
            final(self).search_blob@ == search_blob@,
            final(self).offset == if old(self).offset + results <= i64::MAX {
                old(self).offset + results
            } else {
                i64::MAX as int
            },
    {
        let sum = self.offset as i128 + results as i128;
        self.offset = if sum <= i64::MAX as i128 {
            sum as i64
        } else {
            i64::MAX
        };
        self.search_blob = search_blob;
        listed > 0
    }
}

/// The category that the identifier `category_id` names: the text before its
/// first colon, or all of it.
pub open spec fn main_category(category_id: Seq<char>) -> Seq<char> {
    category_id.take(first_index(category_id, ':'))
}

/// The subcategory that the identifier `category_id` names: the text behind
/// its first colon, if it has a colon.
pub open spec fn sub_category(category_id: Seq<char>) -> Option<Seq<char>> {
    if first_index(category_id, ':') < category_id.len() {
        Some(category_id.skip(first_index(category_id, ':') + 1))
    } else {
        None
    }
}

/// Parts a category identifier, which is either `id` or `id:subid`, into the
/// category and the subcategory.
pub fn split_category(category_id: &str) -> (parts: (String, Option<String>))
    ensures
        parts.0@ == main_category(category_id@),
        parts.1.deep_view() == sub_category(category_id@),
{
    let chars = chars_of(category_id);
    let colon = find_char(chars.as_slice(), ':');
    let main = category_id.substring_char(0, colon);
    if colon < chars.len() {
        let sub = category_id.substring_char(colon + 1, chars.len());
        (main.to_owned(), Some(sub.to_owned()))
    } else {
        (main.to_owned(), None)
    }
}

} // verus!
