//! Regular expressions, compiled and matched by the `regex` crate.

use vstd::prelude::*;

verus! {

/// The compiled regular expression type of the `regex` crate.
#[verifier::external_type_specification]
#[verifier::external_body]
pub struct ExRegex(regex::Regex);

/// Whether `regex::Regex::new` accepts the pattern.
pub uninterp spec fn pattern_compiles(pattern: Seq<char>) -> bool;

/// The capture groups of the first match of the pattern in a text, group 0
/// (the whole match) first, as `regex::Regex::captures` reports them: the
/// text of each group, `None` for a group that took no part in the match;
/// `None` when nothing matches.
pub uninterp spec fn pattern_groups(pattern: Seq<char>, text: Seq<char>) -> Option<
    Seq<Option<Seq<char>>>,
>;

/// A regular expression, compiled, with the pattern it came from.
pub struct CompiledPattern {
    pattern: String,
    regex: regex::Regex,
}

impl View for CompiledPattern {
    type V = Seq<char>;

    closed spec fn view(&self) -> Seq<char> {
        self.pattern@
    }
}

/// Calls `regex::Regex::new`. Trusted: it succeeds exactly when
/// `pattern_compiles` holds, and the compiled expression is kept beside the
/// pattern it came from.
#[verifier::external_body]
pub(crate) fn compile_pattern(pattern: &str) -> (r: Result<CompiledPattern, regex::Error>)
    ensures
        r is Ok <==> pattern_compiles(pattern@),
        r matches Ok(p) ==> p@ == pattern@,
{
    match regex::Regex::new(pattern) {
        Ok(regex) => Ok(CompiledPattern { pattern: pattern.to_owned(), regex }),
        Err(e) => Err(e),
    }
}

/// An optional text seen through its view.
pub open spec fn opt_text(o: Option<String>) -> Option<Seq<char>> {
    match o {
        Some(s) => Some(s@),
        None => None,
    }
}

/// Captured groups seen through their views.
pub open spec fn groups_view(g: Option<Vec<Option<String>>>) -> Option<Seq<Option<Seq<char>>>> {
    match g {
        Some(v) => Some(v@.map_values(|o: Option<String>| opt_text(o))),
        None => None,
    }
}

/// The group `i` of captured groups; `None` past the last group.
pub open spec fn group_at(g: Seq<Option<Seq<char>>>, i: int) -> Option<Seq<char>> {
    if 0 <= i < g.len() {
        g[i]
    } else {
        None
    }
}

/// Calls `regex::Regex::captures` with the compiled expression and takes the
/// text of every group. Trusted: the result is `pattern_groups` of the
/// pattern the expression was compiled from and of the text.
#[verifier::external_body]
pub(crate) fn capture_groups(p: &CompiledPattern, text: &str) -> (r: Option<Vec<Option<String>>>)
    ensures
        groups_view(r) == pattern_groups(p@, text@),
{
    let caps = match p.regex.captures(text) {
        Some(caps) => caps,
        None => return None,
    };
    let mut groups = Vec::new();
    for m in caps.iter() {
        groups.push(match m {
            Some(m) => Some(m.as_str().to_owned()),
            None => None,
        });
    }
    Some(groups)
}

} // verus!
