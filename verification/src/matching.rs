//! Regular-expression matching, done by the `regex` crate.
use vstd::prelude::*;

verus! {

/// The capture groups of each successive non-overlapping match of `pattern`
/// in `haystack`, as `regex::Regex::captures_iter` yields them (group 0 is the
/// whole match; a group that did not take part is `None`); `None` when
/// `regex::Regex::new` rejects the pattern.
pub uninterp spec fn regex_captures(pattern: Seq<char>, haystack: Seq<char>) -> Option<
    Seq<Seq<Option<Seq<char>>>>,
>;

pub open spec fn group_view(g: Option<String>) -> Option<Seq<char>> {
    match g {
        Some(s) => Some(s@),
        None => None,
    }
}

pub open spec fn groups_view(c: Vec<Option<String>>) -> Seq<Option<Seq<char>>> {
    c@.map_values(|g: Option<String>| group_view(g))
}

pub open spec fn captures_view(v: Seq<Vec<Option<String>>>) -> Seq<Seq<Option<Seq<char>>>> {
    v.map_values(|c: Vec<Option<String>>| groups_view(c))
}

/// The matches as plain values, none when the pattern is rejected.
pub open spec fn all_captures(pattern: Seq<char>, haystack: Seq<char>) -> Seq<
    Seq<Option<Seq<char>>>,
> {
    match regex_captures(pattern, haystack) {
        Some(m) => m,
        None => Seq::empty(),
    }
}

/// The text of group `i`, empty when the group is absent or did not take part.
pub open spec fn group_text(c: Seq<Option<Seq<char>>>, i: int) -> Seq<char> {
    if 0 <= i < c.len() {
        match c[i] {
            Some(t) => t,
            None => Seq::empty(),
        }
    } else {
        Seq::empty()
    }
}

/// Compiles `pattern` with `regex::Regex::new` and collects the groups of
/// every match of `regex::Regex::captures_iter` on `haystack`. The result is
/// `regex_captures` of the two; nothing else is claimed of it.
#[verifier::external_body]
fn captures_all(pattern: &str, haystack: &str) -> (r: Option<Vec<Vec<Option<String>>>>)
    ensures
        match r {
            Some(v) => regex_captures(pattern@, haystack@) == Some(captures_view(v@)),
            None => regex_captures(pattern@, haystack@) is None,
        },
{
    let re = regex::Regex::new(pattern).ok()?;
    let mut all = Vec::new();
    for caps in re.captures_iter(haystack) {
        all.push(caps.iter().map(|g| g.map(|m| m.as_str().to_string())).collect());
    }
    Some(all)
}

/// The matches of `pattern` in `haystack`; none when the pattern is rejected.
pub fn matches_of(pattern: &str, haystack: &str) -> (r: Vec<Vec<Option<String>>>)
    ensures
        captures_view(r@) == all_captures(pattern@, haystack@),
{
    match captures_all(pattern, haystack) {
        Some(v) => v,
        None => {
            let v: Vec<Vec<Option<String>>> = Vec::new();
            assert(captures_view(v@) =~= Seq::<Seq<Option<Seq<char>>>>::empty());
            v
        },
    }
}

/// The characters of group `i` of a match, empty when it is absent.
pub fn group_chars(c: &Vec<Option<String>>, i: usize) -> (r: Vec<char>)
    ensures
        r@ == group_text(groups_view(*c), i as int),
{
    if i < c.len() {
        match &c[i] {
            Some(t) => crate::text::chars_of(t.as_str()),
            None => Vec::new(),
        }
    } else {
        Vec::new()
    }
}

} // verus!
