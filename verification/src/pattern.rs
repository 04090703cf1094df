//! Regular expressions and glob patterns.
use vstd::prelude::*;
use vstd::string::*;

use crate::markup::{Link, cut, links_in, looked_for};

verus! {

/// `regex::Regex`, a compiled regular expression.
#[verifier::external_type_specification]
#[verifier::external_body]
pub struct ExRegex(regex::Regex);

/// `glob::Pattern`, a compiled glob pattern.
#[verifier::external_type_specification]
#[verifier::external_body]
pub struct ExPattern(glob::Pattern);

/// The text that a regular expression was made from.
pub uninterp spec fn regex_source(re: regex::Regex) -> Seq<char>;

/// Whether the regular expression `source` matches anywhere in a text.
pub uninterp spec fn regex_matches(source: Seq<char>, text: Seq<char>) -> bool;

/// A text with all matches of the regular expression `source` replaced.
pub uninterp spec fn regex_replaced(
    source: Seq<char>,
    text: Seq<char>,
    with: Seq<char>,
) -> Seq<char>;

/// What the groups of the regular expression `source` hold in each of its matches in a text, from
/// left to right: the whole match first, then the groups in their order, with nothing for a group
/// that took no part.
pub uninterp spec fn regex_groups(source: Seq<char>, text: Seq<char>) -> Seq<Seq<Option<Seq<char>>>>;

/// `regex::Regex::new` makes a regular expression from its text, which it keeps, or fails with a
/// message. When it fails is left open: a limit on the compiled size counts too.
#[verifier::external_body]
pub(crate) fn compile(source: &str) -> (r: Result<regex::Regex, String>)
    ensures
        r matches Ok(re) ==> regex_source(re) == source@,
{
    regex::Regex::new(source).map_err(|e| e.to_string())
}

/// `regex::Regex::is_match` tells whether there is a match anywhere in a text.
#[verifier::external_body]
pub(crate) fn is_match(re: &regex::Regex, text: &str) -> (r: bool)
    ensures
        r == regex_matches(regex_source(*re), text@),
{
    re.is_match(text)
}

/// `regex::Regex::replace_all` replaces all matches in a text, from left to right. A replacement
/// without a dollar sign is put in as it is. Of the regular expressions for pages it says what they
/// match: under `(?s)` a dot matches any character, under `(?i)` a letter matches in any case, and
/// `.*?` goes no further than to the first place where the rest matches.
#[verifier::external_body]
pub(crate) fn replace_all(re: &regex::Regex, text: &str, with: &str) -> (r: String)
    ensures
        r@ == regex_replaced(regex_source(*re), text@, with@),
        looked_for(regex_source(*re)) matches Some(m) ==> !with@.contains('$') ==> r@ == cut(
            m,
            text@,
            with@,
        ),
{
    re.replace_all(text, with).to_string()
}

/// What the groups of a match hold for each of some links: all of it, the address, and what is shown.
pub open spec fn link_groups(links: Seq<Link>) -> Seq<Seq<Option<Seq<char>>>> {
    Seq::new(
        links.len(),
        |i: int| seq![Some(links[i].whole), Some(links[i].url), Some(links[i].title)],
    )
}

/// `regex::Regex::captures_iter` goes through all matches in a text, and `Captures::iter` through
/// the groups of each. Of the regular expression for links it says what it matches: `[^>]*` takes as
/// much as it can, and `(.*?)` goes no further than to the first closing tag, on one line.
#[verifier::external_body]
pub(crate) fn capture_groups(re: &regex::Regex, text: &str) -> (r: Vec<Vec<Option<String>>>)
    ensures
        r.deep_view() == regex_groups(regex_source(*re), text@),
        regex_source(*re) == "class=\"result__a\"[^>]*href=\"([^\"]+)\"[^>]*>(.*?)</a>"@
            ==> r.deep_view() == link_groups(links_in(text@)),
{
    re.captures_iter(text).map(
        |c| c.iter().map(|g| g.map(|m| m.as_str().to_string())).collect(),
    ).collect()
}

/// The text that a glob pattern was made from.
pub uninterp spec fn glob_source(p: glob::Pattern) -> Seq<char>;

/// Whether a text has no backslash. What a backslash means to a glob pattern differs from system to
/// system: on some it separates the parts of a path.
pub open spec fn slashed(s: Seq<char>) -> bool {
    !s.contains('\\')
}

/// What is wrong with a text as a glob pattern.
pub uninterp spec fn glob_error(source: Seq<char>) -> Option<Seq<char>>;

/// Whether the glob pattern `source` matches the whole of a text.
pub uninterp spec fn glob_matches(source: Seq<char>, text: Seq<char>) -> bool;

/// `glob::Pattern::new` makes a pattern from its text, which it keeps, or fails with a message. For
/// a text with a backslash it is left open which of the two, since that differs from system to
/// system.
#[verifier::external_body]
pub(crate) fn compile_glob(source: &str) -> (r: Result<glob::Pattern, String>)
    ensures
        match r {
            Ok(p) => glob_source(p) == source@ && (slashed(source@) ==> glob_error(source@) is None),
            Err(m) => slashed(source@) ==> glob_error(source@) == Some(m@),
        },
{
    glob::Pattern::new(source).map_err(|e| e.to_string())
}

/// `glob::Pattern::matches` tells whether a pattern matches the whole of a text. Where either has a
/// backslash, the answer is left open: it differs from system to system.
#[verifier::external_body]
pub(crate) fn glob_match(p: &glob::Pattern, text: &str) -> (r: bool)
    ensures
        slashed(glob_source(*p)) && slashed(text@) ==> r == glob_matches(glob_source(*p), text@),
{
    p.matches(text)
}

} // verus!
