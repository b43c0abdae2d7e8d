//! Token matching: literal prefix equality and regular-expression
//! search over the rest of the line.

use vstd::prelude::*;

use crate::diagram::NodeView;

verus! {

/// The token matches the line at `caret` as a literal prefix.
pub open spec fn literal_matches(line: Seq<char>, caret: int, token: Seq<char>) -> bool {
    caret + token.len() <= line.len() && line.subrange(caret, caret + token.len()) == token
}

/// The line's text from `caret` to its end.
pub open spec fn rest_of_line(line: Seq<char>, caret: int) -> Seq<char> {
    line.subrange(caret, line.len() as int)
}

/// The whole-match text (group 0) of each successive match the `regex`
/// crate finds for `pattern` in `text`, in order of occurrence; a
/// pattern the regex engine rejects yields no matches.  The result is a
/// function of the pattern and the text alone.
pub uninterp spec fn regex_matches_of(pattern: Seq<char>, text: Seq<char>) -> Seq<Seq<char>>;

/// Whether the `regex` crate accepts `pattern`: a function of the
/// pattern alone.
pub uninterp spec fn regex_pattern_ok(pattern: Seq<char>) -> bool;

/// The groups a regular-expression attempt at `caret` adds: every match
/// of the pattern in the rest of the line.
pub open spec fn reg_groups(line: Seq<char>, caret: int, pattern: Seq<char>) -> Seq<Seq<char>> {
    if caret < line.len() {
        regex_matches_of(pattern, rest_of_line(line, caret))
    } else {
        Seq::empty()
    }
}

/// A regular-expression token matches at `caret`: text remains and the
/// pattern matches somewhere in it.
pub open spec fn regex_node_matches(line: Seq<char>, caret: int, pattern: Seq<char>) -> bool {
    caret < line.len() && regex_matches_of(pattern, rest_of_line(line, caret)).len() > 0
}

/// The node's token matches the line at `caret`, by the matcher its
/// flag selects.
pub open spec fn node_matches(line: Seq<char>, caret: int, n: NodeView) -> bool {
    if n.regex_flag {
        regex_node_matches(line, caret, n.token)
    } else {
        literal_matches(line, caret, n.token)
    }
}

/// The groups an attempt against the node adds: matches for a
/// regular-expression node, nothing for a literal one.
pub open spec fn match_groups(line: Seq<char>, caret: int, n: NodeView) -> Seq<Seq<char>> {
    if n.regex_flag {
        reg_groups(line, caret, n.token)
    } else {
        Seq::empty()
    }
}

/// Each group is no longer than `avail` characters.
pub open spec fn groups_bounded(gs: Seq<Seq<char>>, avail: int) -> bool {
    forall|i: int| 0 <= i < gs.len() ==> #[trigger] gs[i].len() <= avail
}

/// A caret position with token-separator elision: when exactly one
/// space character stands at `base`, it is consumed too.
pub open spec fn elide_space(line: Seq<char>, base: int) -> int {
    if base < line.len() && line[base] == ' ' {
        base + 1
    } else {
        base
    }
}

/// Relies on `regex::Regex::new` and `regex::Regex::captures_iter`:
/// compiles `pattern`, and collects the whole-match text of each
/// successive match in `text`, in order; a pattern the engine rejects
/// gives no matches.  Each match is a part of `text`, so no longer than
/// it.
#[verifier::external_body]
pub(crate) fn regex_collect_matches(pattern: &str, text: &str) -> (r: Vec<String>)
    ensures
        r.deep_view() == regex_matches_of(pattern@, text@),
        forall|i: int| 0 <= i < r@.len() ==> r@[i]@.len() <= text@.len(),
        !regex_pattern_ok(pattern@) ==> r@.len() == 0,
{
    match regex::Regex::new(pattern) {
        Ok(re) => re.captures_iter(text).map(|c| c[0].to_string()).collect(),
        Err(_) => Vec::new(),
    }
}

/// Relies on `regex::Regex::new`: whether it compiles `pattern`, a
/// deterministic property of the pattern alone.
#[verifier::external_body]
pub(crate) fn regex_pattern_valid(pattern: &str) -> (b: bool)
    ensures
        b == regex_pattern_ok(pattern@),
{
    regex::Regex::new(pattern).is_ok()
}

} // verus!
