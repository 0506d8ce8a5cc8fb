use vstd::prelude::*;

verus! {

/// Equality of string slices, as `str`'s `==` in std decides it: two slices
/// are equal exactly when they hold the same characters in the same order.
#[verifier::external_body]
pub(crate) fn str_eq(a: &str, b: &str) -> (same: bool)
    ensures
        same == (a@ == b@),
{
    a == b
}

/// The characters of `text`, in order.
pub fn chars_of(text: &str) -> (chars: Vec<char>)
    ensures
        chars@ == text@,
{
    broadcast use vstd::string::axiom_spec_iter;

    let mut chars: Vec<char> = Vec::new();
    for c in it: text.chars()
        invariant
            it.seq() == text@,
            chars@ == text@.take(it.index() as int),
    {
        chars.push(c);
    }
    chars
}

/// Position of the first `c` in `s`, or the length of `s` if it has none.
pub open spec fn first_index(s: Seq<char>, c: char) -> int
    decreases s.len(),
{
    if s.len() == 0 {
        0
    } else if s[0] == c {
        0
    } else {
        1 + first_index(s.drop_first(), c)
    }
}

/// The first `c` stands where no `c` stands before.
pub proof fn lemma_first_index(s: Seq<char>, c: char, i: int)
    requires
        0 <= i <= s.len(),
        forall|j: int| 0 <= j < i ==> s[j] != c,
    ensures
        i <= first_index(s, c) <= s.len(),
        i == s.len() || s[i] == c ==> first_index(s, c) == i,
    decreases s.len(),
{
    if s.len() > 0 && i > 0 {
        let rest = s.drop_first();
        lemma_first_index(rest, c, i - 1);
    } else if s.len() > 0 {
        if s[0] != c {
            lemma_first_index(s.drop_first(), c, 0);
        }
    }
}

/// Position of the first `c` in `s`, or the length of `s` if it has none.
pub fn find_char(s: &[char], c: char) -> (at: usize)
    ensures
        at == first_index(s@, c),
        at <= s@.len(),
{
    let mut i: usize = 0;
    while i < s.len() && s[i] != c
        invariant
            i <= s.len(),
            forall|j: int| 0 <= j < i ==> s@[j] != c,
        decreases s.len() - i,
    {
        i += 1;
    }
    proof {
        lemma_first_index(s@, c, i as int);
    }
    i
}

/// Whether `needle` stands in `hay` at place `i`.
pub open spec fn occurs_at(hay: Seq<char>, needle: Seq<char>, i: int) -> bool {
    0 <= i && i + needle.len() <= hay.len() && hay.subrange(i, i + needle.len()) == needle
}

/// Whether `i` is the first place at which `needle` stands in `hay`.
pub open spec fn is_first_occurrence(hay: Seq<char>, needle: Seq<char>, i: int) -> bool {
    occurs_at(hay, needle, i) && forall|j: int| 0 <= j < i ==> !occurs_at(hay, needle, j)
}

/// The first place at which `needle` stands in `hay`, if it stands in it.
pub fn find_text(hay: &[char], needle: &[char]) -> (found: Option<usize>)
    ensures
        match found {
            Some(i) => is_first_occurrence(hay@, needle@, i as int),
            None => forall|j: int| !occurs_at(hay@, needle@, j),
        },
{
    if needle.len() > hay.len() {
        return None;
    }
    let last = hay.len() - needle.len();
    let mut i: usize = 0;
    while i <= last
        invariant
            i <= last + 1,
            last + needle.len() == hay.len(),
            forall|j: int| 0 <= j < i ==> !occurs_at(hay@, needle@, j),
        decreases last + 1 - i,
    {
        let mut k: usize = 0;
        while k < needle.len() && hay[i + k] == needle[k]
            invariant
                k <= needle.len(),
                i <= last,
                last + needle.len() == hay.len(),
                forall|m: int| 0 <= m < k ==> hay@[i + m] == needle@[m],
            decreases needle.len() - k,
        {
            k += 1;
        }
        if k == needle.len() {
            assert(hay@.subrange(i as int, i + needle.len()) =~= needle@);
            return Some(i);
        }
        i += 1;
    }
    None
}

/// What `regex` finds when it searches `text` for `pattern`: nothing if the
/// pattern is not a valid one; else its successive matches, each with the text
/// of every group of the pattern that took part in the match, the whole match
/// being group zero.
pub uninterp spec fn regex_matches(pattern: Seq<char>, text: Seq<char>) -> Option<
    Seq<Seq<Option<Seq<char>>>>,
>;

/// Searches `text` for `pattern` with `regex::Regex::new` and
/// `Regex::captures_iter`. Trusted: the matches and groups returned are those
/// that `regex` finds, which the pattern and the text determine.
#[verifier::external_body]
pub(crate) fn find_matches(pattern: &str, text: &str) -> (found: Option<Vec<Vec<Option<String>>>>)
    ensures
        found.deep_view() == regex_matches(pattern@, text@),
{
    match regex::Regex::new(pattern) {
        Err(_) => None,
        Ok(compiled) => Some(
            compiled.captures_iter(text).map(
                |m| m.iter().map(|g| g.map(|t| t.as_str().to_owned())).collect(),
            ).collect(),
        ),
    }
}

/// The text that a JSON string literal stands for, as `serde_json` reads it;
/// nothing if `text` is not one JSON string literal.
pub uninterp spec fn json_string_value(text: Seq<char>) -> Option<Seq<char>>;

/// Reads a JSON string literal with `serde_json::from_str`. Trusted: the
/// result is what `serde_json` reads, which the text determines.
#[verifier::external_body]
pub(crate) fn read_json_string(text: &str) -> (value: Option<String>)
    ensures
        value.deep_view() == json_string_value(text@),
{
    match serde_json::from_str::<String>(text) {
        Ok(value) => Some(value),
        Err(_) => None,
    }
}

} // verus!
