//! Compiled path patterns, backed by the `regex` crate.

use vstd::prelude::*;

verus! {

#[verifier::external_type_specification]
#[verifier::external_body]
pub struct ExRegex(regex::Regex);

#[verifier::external_type_specification]
#[verifier::external_body]
pub struct ExRegexError(regex::Error);

/// Whether `regex` accepts `src` as a regular expression (its syntax, and its
/// default size limit).
pub uninterp spec fn regex_compiles(src: Seq<char>) -> bool;

/// The characters that have a meaning in a regular expression.
pub open spec fn is_meta_character(c: char) -> bool {
    c == '\\' || c == '.' || c == '+' || c == '*' || c == '?' || c == '(' || c == ')' || c == '|'
        || c == '[' || c == ']' || c == '{' || c == '}' || c == '^' || c == '$' || c == '#' || c
        == '&' || c == '-' || c == '~'
}

/// `text` with a backslash put before every meta character, which makes a
/// regular expression that matches `text` literally.
pub open spec fn regex_escape(text: Seq<char>) -> Seq<char>
    decreases text.len(),
{
    if text.len() == 0 {
        Seq::empty()
    } else if is_meta_character(text.last()) {
        regex_escape(text.drop_last()) + seq!['\\', text.last()]
    } else {
        regex_escape(text.drop_last()).push(text.last())
    }
}

/// The capture groups of the leftmost-first match of `src` in `hay`, group 0
/// being the whole match and `None` a group that took no part; `None` when
/// there is no match.
pub uninterp spec fn regex_captures(src: Seq<char>, hay: Seq<char>) -> Option<
    Seq<Option<Seq<char>>>,
>;

/// A regular expression together with the text it was compiled from. Only
/// `compile` builds one, so the expression is always that text's.
pub struct Pattern {
    source: String,
    regex: regex::Regex,
}

impl View for Pattern {
    type V = Seq<char>;

    /// The text the pattern was compiled from.
    closed spec fn view(&self) -> Seq<char> {
        self.source@
    }
}

/// An optional string as an optional character sequence.
pub open spec fn opt_str_view(o: Option<String>) -> Option<Seq<char>> {
    match o {
        Some(s) => Some(s@),
        None => None,
    }
}

/// The groups a call of `captures` hands back, as character sequences.
pub open spec fn groups_view(r: Option<Vec<Option<String>>>) -> Option<Seq<Option<Seq<char>>>> {
    match r {
        Some(v) => Some(v@.map_values(|o: Option<String>| opt_str_view(o))),
        None => None,
    }
}

/// Relies on `regex::Regex::new`: whether the text compiles depends on the
/// text alone. The text is kept beside the compiled expression.
#[verifier::external_body]
pub(crate) fn compile(src: String) -> (r: Result<Pattern, regex::Error>)
    ensures
        r is Ok <==> regex_compiles(src@),
        r matches Ok(p) ==> p@ == src@,
{
    match regex::Regex::new(&src) {
        Ok(regex) => Ok(Pattern { source: src, regex }),
        Err(e) => Err(e),
    }
}

/// Relies on `regex::escape` (`regex_syntax::escape_into`): a backslash before
/// each meta character, every character kept in order.
#[verifier::external_body]
pub(crate) fn escape(text: &str) -> (r: String)
    ensures
        r@ == regex_escape(text@),
{
    regex::escape(text)
}

/// Relies on `regex::Regex::captures` and `Captures::iter`: the groups of
/// the first match of the pattern in `hay`, in order.
#[verifier::external_body]
pub(crate) fn captures(p: &Pattern, hay: &str) -> (r: Option<Vec<Option<String>>>)
    ensures
        groups_view(r) == regex_captures(p@, hay@),
{
    p.regex.captures(hay).map(|c| c.iter().map(|m| m.map(|m| m.as_str().to_string())).collect())
}

} // verus!
