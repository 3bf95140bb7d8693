//! Regular expressions, compiled and matched by the `regex` crate.
use vstd::prelude::*;
use vstd::string::*;
use regex::Regex;

verus! {

#[verifier::external_type_specification]
#[verifier::external_body]
pub struct ExRegex(Regex);

#[verifier::external_type_specification]
#[verifier::external_body]
pub struct ExRegexError(regex::Error);

/// The groups of the leftmost-first match of `pattern` in `text`, as
/// `regex::Regex::captures` reports them; `None` where nothing matches.
pub uninterp spec fn first_match_groups(pattern: Seq<char>, text: Seq<char>) -> Option<
    Seq<Option<Seq<char>>>,
>;

/// The groups of each of the successive non-overlapping matches of `pattern` in
/// `text`, as `regex::Regex::captures_iter` reports them.
pub uninterp spec fn all_match_groups(pattern: Seq<char>, text: Seq<char>) -> Seq<
    Seq<Option<Seq<char>>>,
>;

/// The parts of `text` between the matches of `pattern`, as `regex::Regex::split`
/// reports them.
pub uninterp spec fn unmatched_pieces(pattern: Seq<char>, text: Seq<char>) -> Seq<Seq<char>>;

/// The view of an optional string.
pub open spec fn opt_view(o: Option<String>) -> Option<Seq<char>> {
    match o {
        Some(s) => Some(s@),
        None => None,
    }
}

/// The text of group `i`, empty where the group took part in no match.
pub open spec fn group_text(g: Seq<Option<Seq<char>>>, i: int) -> Seq<char> {
    if 0 <= i < g.len() && g[i] is Some {
        g[i]->0
    } else {
        Seq::empty()
    }
}

/// The capture groups of one match: group 0 is the whole match.
pub struct Groups {
    pub groups: Vec<Option<String>>,
}

impl View for Groups {
    type V = Seq<Option<Seq<char>>>;

    open spec fn view(&self) -> Seq<Option<Seq<char>>> {
        self.groups@.map_values(|o: Option<String>| opt_view(o))
    }
}

/// The views of the groups of several matches.
pub open spec fn groups_views(v: Seq<Groups>) -> Seq<Seq<Option<Seq<char>>>> {
    v.map_values(|g: Groups| g@)
}

impl Groups {
    /// The text of group `i`, empty where that group did not take part.
    pub fn text(&self, i: usize) -> (r: String)
        ensures
            r@ == group_text(self@, i as int),
    {
        if i < self.groups.len() {
            match &self.groups[i] {
                Some(s) => s.clone(),
                None => String::new(),
            }
        } else {
            String::new()
        }
    }
}

/// A compiled regular expression, together with the pattern it was compiled from.
pub struct Matcher {
    source: String,
    regex: Regex,
}

impl Matcher {
    /// The pattern that this matcher was compiled from.
    pub closed spec fn pattern(&self) -> Seq<char> {
        self.source@
    }

    /// Relies on `regex::Regex::new`: it compiles `pattern`, or says why it cannot.
    #[verifier::external_body]
    pub(crate) fn compile(pattern: &str) -> (r: Result<Matcher, regex::Error>)
        ensures
            r matches Ok(m) ==> m.pattern() == pattern@,
    {
        match Regex::new(pattern) {
            Ok(regex) => Ok(Matcher { source: pattern.to_string(), regex }),
            Err(e) => Err(e),
        }
    }

    /// Relies on `regex::Regex::captures`: the groups of the leftmost-first match.
    #[verifier::external_body]
    pub(crate) fn first_match(&self, text: &str) -> (r: Option<Groups>)
        ensures
            match r {
                Some(g) => first_match_groups(self.pattern(), text@) == Some(g@),
                None => first_match_groups(self.pattern(), text@) is None,
            },
    {
        self.regex.captures(text).map(
            |c| Groups { groups: c.iter().map(|m| m.map(|m| m.as_str().to_string())).collect() },
        )
    }

    /// Relies on `regex::Regex::captures_iter`: the groups of every
    /// non-overlapping match, from left to right.
    #[verifier::external_body]
    pub(crate) fn all_matches(&self, text: &str) -> (r: Vec<Groups>)
        ensures
            groups_views(r@) == all_match_groups(self.pattern(), text@),
    {
        self.regex.captures_iter(text).map(
            |c| Groups { groups: c.iter().map(|m| m.map(|m| m.as_str().to_string())).collect() },
        ).collect()
    }

    /// Relies on `regex::Regex::split`: the parts of `text` between the matches.
    #[verifier::external_body]
    pub(crate) fn split(&self, text: &str) -> (r: Vec<String>)
        ensures
            crate::lines::views(r@) == unmatched_pieces(self.pattern(), text@),
    {
        self.regex.split(text).map(|s| s.to_string()).collect()
    }
}

} // verus!
