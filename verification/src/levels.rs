//! Levels: the named groupings by which listings are browsed and retained.
use crate::text::str_eq;
use vstd::prelude::*;

verus! {

/// The rule that decides which listings belong to a level.
#[derive(Clone, Copy, Debug)]
pub enum LevelQuery {
    /// Every listing of one website.
    MatchWebsite(&'static str),
    /// The listings of one website that carry one category tag.
    MatchCategory(&'static str, &'static str),
}

/// A named grouping of listings with its display labels.
#[derive(Clone, Copy, Debug)]
pub struct Level {
    pub id: &'static str,
    pub website_name: &'static str,
    pub category_name: &'static str,
    pub query: LevelQuery,
}

impl LevelQuery {
    /// Whether a listing on `website` tagged with `categories` satisfies the rule.
    pub open spec fn admits(self, website: Seq<char>, categories: Seq<Seq<char>>) -> bool {
        match self {
            LevelQuery::MatchWebsite(w) => website == w@,
            LevelQuery::MatchCategory(w, c) => website == w@ && categories.contains(c@),
        }
    }

    /// Evaluates the rule against a listing's website and category tags.
    pub fn matches(&self, website: &str, categories: &Vec<String>) -> (hit: bool)
        ensures
            hit == self.admits(website@, categories.deep_view()),
    {
        match self {
            LevelQuery::MatchWebsite(w) => str_eq(website, w),
            LevelQuery::MatchCategory(w, c) => str_eq(website, w) && has_tag(categories, c),
        }
    }
}

/// Whether `tag` is among `categories`.
pub fn has_tag(categories: &Vec<String>, tag: &str) -> (found: bool)
    ensures
        found == categories.deep_view().contains(tag@),
{
    let mut i: usize = 0;
    while i < categories.len()
        invariant
            i <= categories.len(),
            categories.deep_view().len() == categories.len(),
            forall|j: int| 0 <= j < i ==> categories.deep_view()[j] != tag@,
        decreases categories.len() - i,
    {
        if str_eq(categories[i].as_str(), tag) {
            assert(categories.deep_view()[i as int] == tag@);
            return true;
        }
        i += 1;
    }
    false
}

/// The first level of `table` whose identifier is `id`, if there is one.
pub open spec fn first_with_id(table: Seq<Level>, id: Seq<char>) -> Option<Level>
    decreases table.len(),
{
    if table.len() == 0 {
        None
    } else if table.first().id@ == id {
        Some(table.first())
    } else {
        first_with_id(table.drop_first(), id)
    }
}

/// The configured levels, in display order.
pub open spec fn level_table() -> Seq<Level> {
    seq![
        Level {
            id: "amazon-if",
            website_name: "Amazon",
            category_name: "Interesting Finds",
            query: LevelQuery::MatchCategory("amazon.com", "interesting-finds"),
        },
        Level {
            id: "amazon-thi",
            website_name: "Amazon",
            category_name: "Tools and Home Improvement",
            query: LevelQuery::MatchCategory("amazon.com", "hgg-hol-hi"),
        },
        Level {
            id: "target-all",
            website_name: "Target",
            category_name: "All Target",
            query: LevelQuery::MatchWebsite("target.com"),
        },
        Level {
            id: "target-clothes",
            website_name: "Target",
            category_name: "Clothes, Shoes & Accessories",
            query: LevelQuery::MatchCategory("target.com", "rdihz"),
        },
        Level {
            id: "target-sports-outdoors",
            website_name: "Target",
            category_name: "Sports & Outdoors",
            query: LevelQuery::MatchCategory("target.com", "5xt85"),
        },
    ]
}

/// The configured levels as a vector.
pub fn levels() -> (table: Vec<Level>)
    ensures
        table@ == level_table(),
{
    let table = vec![
        Level {
            id: "amazon-if",
            website_name: "Amazon",
            category_name: "Interesting Finds",
            query: LevelQuery::MatchCategory("amazon.com", "interesting-finds"),
        },
        Level {
            id: "amazon-thi",
            website_name: "Amazon",
            category_name: "Tools and Home Improvement",
            query: LevelQuery::MatchCategory("amazon.com", "hgg-hol-hi"),
        },
        Level {
            id: "target-all",
            website_name: "Target",
            category_name: "All Target",
            query: LevelQuery::MatchWebsite("target.com"),
        },
        Level {
            id: "target-clothes",
            website_name: "Target",
            category_name: "Clothes, Shoes & Accessories",
            query: LevelQuery::MatchCategory("target.com", "rdihz"),
        },
        Level {
            id: "target-sports-outdoors",
            website_name: "Target",
            category_name: "Sports & Outdoors",
            query: LevelQuery::MatchCategory("target.com", "5xt85"),
        },
    ];
    table
}

impl Level {
    /// Whether a listing on `website` tagged with `categories` belongs to this level.
    pub open spec fn admits(self, website: Seq<char>, categories: Seq<Seq<char>>) -> bool {
        self.query.admits(website, categories)
    }

    /// Looks a configured level up by its identifier.
    pub fn find_by_id(id: &str) -> (found: Option<Level>)
        ensures
            found == first_with_id(level_table(), id@),
    {
        let table = levels();
        let mut i: usize = 0;
        assert(table@.skip(0) =~= table@);
        while i < table.len()
            invariant
                i <= table.len(),
                table@ == level_table(),
                first_with_id(level_table(), id@) == first_with_id(table@.skip(i as int), id@),
            decreases table.len() - i,
        {
            let level = table[i];
            assert(table@.skip(i as int).drop_first() == table@.skip(i as int + 1));
            if str_eq(level.id, id) {
                return Some(level);
            }
            i += 1;
        }
        None
    }

    /// The rule that decides membership in this level.
    pub fn listing_query(&self) -> (query: LevelQuery)
        ensures
            query == self.query,
    {
        self.query
    }
}

} // verus!
