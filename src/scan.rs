//! The pattern engine: regular-expression scanning, taken from the `regex` crate.
use vstd::prelude::*;

verus! {

/// What `regex::Regex::new(pattern)` and then `captures_iter(text)` give: `None` when the
/// pattern is refused; else, for each successive non-overlapping match in order, the text of
/// each capture group (group 0 is the whole match), `None` for a group that took no part.
pub uninterp spec fn regex_captures(pattern: Seq<char>, text: Seq<char>) -> Option<
    Seq<Seq<Option<Seq<char>>>>,
>;

/// Relies on `regex::Regex::new` to compile `pattern` and on `Regex::captures_iter` to list
/// the groups of every match in `text`; the result depends on the two strings alone.
#[verifier::external_body]
pub(crate) fn scan(pattern: &str, text: &str) -> (r: Option<Vec<Vec<Option<String>>>>)
    ensures
        r.deep_view() == regex_captures(pattern@, text@),
{
    match regex::Regex::new(pattern) {
        Ok(re) => {
            let mut found = Vec::new();
            for caps in re.captures_iter(text) {
                found.push(caps.iter().map(|g| g.map(|m| m.as_str().to_string())).collect());
            }
            Some(found)
        },
        Err(_) => None,
    }
}

} // verus!
