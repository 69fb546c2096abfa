//! Regular-expression matching. The matching itself is done by the `regex`
//! crate; this module gives its answers names that contracts can speak of.

use vstd::prelude::*;

verus! {

/// Whether `regex::Regex::new` accepts `pattern`.
pub uninterp spec fn regex_is_valid(pattern: Seq<char>) -> bool;

/// Whether `pattern` compiles and `regex::Regex::is_match` finds a match of
/// it somewhere in `haystack`.
pub uninterp spec fn regex_is_match(pattern: Seq<char>, haystack: Seq<char>) -> bool;

/// What `regex::Regex::captures` reports for the first match of `pattern` in
/// `haystack`: one entry per capture group in the order of the opening
/// parentheses, the whole match first, each the matched text or `None` for a
/// group that took no part. `None` where the pattern does not compile or
/// nothing matches.
pub uninterp spec fn regex_captures(pattern: Seq<char>, haystack: Seq<char>) -> Option<
    Seq<Option<Seq<char>>>,
>;

/// Calls `regex::Regex::new` and reports whether it accepted the pattern,
/// which depends on the pattern alone.
#[verifier::external_body]
pub(crate) fn compiles(pattern: &str) -> (ok: bool)
    ensures
        ok == regex_is_valid(pattern@),
{
    regex::Regex::new(pattern).is_ok()
}

/// Compiles the pattern with `regex::Regex::new` and calls
/// `regex::Regex::is_match` on it. A pattern that does not compile matches
/// nothing. The answer depends on the two texts alone.
#[verifier::external_body]
pub(crate) fn is_match(pattern: &str, haystack: &str) -> (found: bool)
    ensures
        found == regex_is_match(pattern@, haystack@),
{
    match regex::Regex::new(pattern) {
        Ok(re) => re.is_match(haystack),
        Err(_) => false,
    }
}

/// Compiles the pattern with `regex::Regex::new`, calls
/// `regex::Regex::captures` on it and copies the text of every group out of
/// the result, in the order of `regex::Captures::iter`. The answer depends on
/// the two texts alone. The pattern is compiled anew on every call.
#[verifier::external_body]
pub(crate) fn captures(pattern: &str, haystack: &str) -> (groups: Option<Vec<Option<String>>>)
    ensures
        groups.deep_view() == regex_captures(pattern@, haystack@),
{
    let re = regex::Regex::new(pattern).ok()?;
    let caps = re.captures(haystack)?;
    Some(caps.iter().map(|group| group.map(|m| m.as_str().to_string())).collect())
}

/// A pattern that the name of an announcing player must match for its facts
/// to be honoured.
#[derive(Clone, Debug)]
pub struct IdentityFilter {
    pattern: String,
}

impl View for IdentityFilter {
    type V = Seq<char>;

    closed spec fn view(&self) -> Seq<char> {
        self.pattern@
    }
}

impl IdentityFilter {
    /// Makes a filter from `pattern`, or nothing where the pattern is not a
    /// valid regular expression.
    pub fn new(pattern: &str) -> (filter: Option<IdentityFilter>)
        ensures
            filter is Some <==> regex_is_valid(pattern@),
            filter matches Some(f) ==> f@ == pattern@,
    {
        if compiles(pattern) {
            Some(IdentityFilter { pattern: pattern.to_owned() })
        } else {
            None
        }
    }

    /// A second filter of the same pattern.
    pub fn duplicate(&self) -> (copy: IdentityFilter)
        ensures
            copy@ == self@,
    {
        IdentityFilter { pattern: self.pattern.clone() }
    }

    /// The pattern this filter was made from.
    pub fn pattern(&self) -> (pattern: &str)
        ensures
            pattern@ == self@,
    {
        self.pattern.as_str()
    }

    /// Whether a player of this name passes the filter.
    pub fn accepts(&self, player_name: &str) -> (accepted: bool)
        ensures
            accepted == regex_is_match(self@, player_name@),
    {
        is_match(self.pattern.as_str(), player_name)
    }
}

/// The pattern of an optional filter.
pub open spec fn filter_pattern(filter: Option<IdentityFilter>) -> Option<Seq<char>> {
    match filter {
        Some(f) => Some(f@),
        None => None,
    }
}

/// A copy of an optional filter.
pub fn duplicate_filter(filter: &Option<IdentityFilter>) -> (copy: Option<IdentityFilter>)
    ensures
        filter_pattern(copy) == filter_pattern(*filter),
{
    match filter {
        Some(f) => Some(f.duplicate()),
        None => None,
    }
}

/// Whether a player named `player_name` is honoured under the optional
/// filter `pattern`: with no filter every player is.
pub open spec fn identity_accepted(pattern: Option<Seq<char>>, player_name: Seq<char>) -> bool {
    match pattern {
        Some(p) => regex_is_match(p, player_name),
        None => true,
    }
}

/// Decides whether a player named `player_name` is honoured under `filter`.
pub fn passes_filter(filter: &Option<IdentityFilter>, player_name: &str) -> (accepted: bool)
    ensures
        accepted == identity_accepted(filter_pattern(*filter), player_name@),
{
    match filter {
        Some(f) => f.accepts(player_name),
        None => true,
    }
}

} // verus!
