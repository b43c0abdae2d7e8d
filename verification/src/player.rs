//! The cursor over the diagram: the current node label, entry
//! resolution at a line's start, and forwarding along exit labels.

use vstd::prelude::*;

use crate::diagram::{labels_view, Diagram, Request};
use crate::line_parser::{same_request, LineParser};
use crate::matcher::{groups_bounded, match_groups, node_matches};

verus! {

/// The position of a parse session in the diagram.  An empty label
/// means the cursor stands outside the graph and the next line entered
/// resolves an entrance first.
pub struct DiagramPlayer {
    pub current: String,
}

/// Index of the first entrance at or after position `i` whose node
/// matches the line at `caret`, or -1 when none does.
pub open spec fn first_entrance_match<C>(
    d: Diagram<C>,
    line: Seq<char>,
    caret: int,
    i: int,
) -> int
    decreases d.entrances().len() - i when 0 <= i <= d.entrances().len()
{
    if i >= d.entrances().len() {
        -1
    } else if node_matches(line, caret, d.node_at(d.entrances()[i])) {
        i
    } else {
        first_entrance_match(d, line, caret, i + 1)
    }
}

/// When the entrances before `i` miss and entrance `i` matches, `i` is
/// the first match.
proof fn lemma_first_entrance_found<C>(d: Diagram<C>, line: Seq<char>, caret: int, k: int, i: int)
    requires
        0 <= k <= i < d.entrances().len(),
        forall|j: int|
            k <= j < i ==> !node_matches(line, caret, d.node_at(#[trigger] d.entrances()[j])),
        node_matches(line, caret, d.node_at(d.entrances()[i])),
    ensures
        first_entrance_match(d, line, caret, k) == i,
    decreases i - k,
{
    if k < i {
        lemma_first_entrance_found(d, line, caret, k + 1, i);
    }
}

/// When every entrance at or after `k` misses, there is no first match.
proof fn lemma_first_entrance_none<C>(d: Diagram<C>, line: Seq<char>, caret: int, k: int)
    requires
        0 <= k <= d.entrances().len(),
        forall|j: int|
            k <= j < d.entrances().len() ==> !node_matches(
                line,
                caret,
                d.node_at(#[trigger] d.entrances()[j]),
            ),
    ensures
        first_entrance_match(d, line, caret, k) == -1,
    decreases d.entrances().len() - k,
{
    if k < d.entrances().len() {
        lemma_first_entrance_none(d, line, caret, k + 1);
    }
}

/// The single candidate a transition from `cur` along `label` goes to:
/// the current node itself when no forward is pending (an empty label),
/// else the first label of the exit's candidate list, when the exit is
/// declared.  Only the first candidate is ever consulted.
pub open spec fn advance_target<C>(d: Diagram<C>, cur: Seq<char>, label: Seq<char>) -> Option<
    Seq<char>,
> {
    if label.len() == 0 {
        Some(cur)
    } else if d.has_node_with(cur) && d.node_at(cur).has_exit(label) && d.node_at(
        cur,
    ).exit_candidates(label).len() > 0 {
        Some(d.node_at(cur).exit_candidates(label)[0])
    } else {
        None
    }
}

impl DiagramPlayer {
    /// The cursor stands outside the graph.
    pub open spec fn spec_is_out(self) -> bool {
        self.current@.len() == 0
    }

    pub fn new() -> (r: DiagramPlayer)
        ensures
            r.spec_is_out(),
    {
        DiagramPlayer { current: String::new() }
    }

    pub fn is_out(&self) -> (r: bool)
        ensures
            r == self.spec_is_out(),
    {
        self.current.as_str().is_empty()
    }

    pub fn get_current(&self) -> (r: &str)
        ensures
            r@ == self.current@,
    {
        self.current.as_str()
    }

    pub fn set_current(&mut self, label: &str)
        ensures
            final(self).current@ == label@,
    {
        self.current = label.to_owned();
    }

    /// When the cursor stands outside the graph, scan the entrances in
    /// order and enter at the first whose token matches the line at the
    /// caret; when none matches the cursor stays outside.  When the
    /// cursor already stands inside the graph nothing happens: entry
    /// resolution only fires on an empty position.
    pub fn enter_when_out<C>(&mut self, diagram: &Diagram<C>, req: &mut Request)
        requires
            diagram.wf(),
            old(req).wf(),
        ensures
            final(req).line@ == old(req).line@,
            final(req).caret == old(req).caret,
            final(req).wf(),
            !old(self).spec_is_out() ==> *final(self) == *old(self) && *final(req) == *old(req),
            old(self).spec_is_out() && first_entrance_match(
                *diagram,
                old(req).line@,
                old(req).caret as int,
                0,
            ) < 0 ==> final(self).spec_is_out() && same_request(*final(req), *old(req)),
            old(self).spec_is_out() && first_entrance_match(
                *diagram,
                old(req).line@,
                old(req).caret as int,
                0,
            ) >= 0 ==> entered_at(
                *diagram,
                *old(req),
                *final(req),
                *final(self),
                first_entrance_match(*diagram, old(req).line@, old(req).caret as int, 0),
            ),
    {
        if !self.is_out() {
            return ;
        }
        let n = diagram.entrance_vec.len();
        for i in 0..n
            invariant
                diagram.wf(),
                req.wf(),
                n == diagram.entrance_vec@.len(),
                self.spec_is_out(),
                self.current@ == old(self).current@,
                req.line@ == old(req).line@,
                req.caret == old(req).caret,
                req.groups@ == old(req).groups@,
                forall|j: int|
                    0 <= j < i ==> !node_matches(
                        req.line@,
                        req.caret as int,
                        diagram.node_at(#[trigger] diagram.entrances()[j]),
                    ),
        {
            let label = &diagram.entrance_vec[i];
            proof {
                assert(diagram.entrances()[i as int] == label@);
                assert(diagram.has_node_with(diagram.entrances()[i as int]));
            }
            let node = diagram.get_node(label.as_str());
            let matched = if node.is_regex() {
                LineParser::starts_with_reg(node, req)
            } else {
                LineParser::starts_with_literal(node, req)
            };
            if matched {
                self.current = label.clone();
                proof {
                    lemma_first_entrance_found(
                        *diagram,
                        req.line@,
                        req.caret as int,
                        0,
                        i as int,
                    );
                }
                return ;
            }
        }
        proof {
            lemma_first_entrance_none(*diagram, req.line@, req.caret as int, 0);
        }
    }

    /// Follow `exit_label` out of the current node: consult the first
    /// candidate of that exit and match its token at the caret.  An
    /// empty `exit_label` means no forward is pending: the current
    /// node's own token is matched in place, as at a line's start.  On a
    /// match the cursor stands on the matched node and the call reports
    /// whether it is a regular-expression node; on a miss — a missing
    /// exit label included — the cursor leaves the graph.
    pub fn forward_parse<C>(
        &mut self,
        diagram: &Diagram<C>,
        req: &mut Request,
        exit_label: &str,
    ) -> (b: bool)
        requires
            diagram.wf(),
            old(req).wf(),
            !old(self).spec_is_out(),
            diagram.has_node_with(old(self).current@),
        ensures
            final(req).line@ == old(req).line@,
            final(req).caret == old(req).caret,
            final(req).wf(),
            match advance_target(*diagram, old(self).current@, exit_label@) {
                Some(cand) => {
                    if node_matches(old(req).line@, old(req).caret as int, diagram.node_at(cand)) {
                        moved_to(*diagram, *old(req), *final(req), *final(self), cand) && b
                            == diagram.node_at(cand).regex_flag
                    } else {
                        final(self).spec_is_out() && b == false && same_request(
                            *final(req),
                            *old(req),
                        )
                    }
                },
                None => final(self).spec_is_out() && b == false && same_request(
                    *final(req),
                    *old(req),
                ),
            },
    {
        let ghost cur0 = self.current@;
        if exit_label.is_empty() {
            let node = diagram.get_node(self.current.as_str());
            let flag = node.is_regex();
            let matched = if flag {
                LineParser::starts_with_reg(node, req)
            } else {
                LineParser::starts_with_literal(node, req)
            };
            if matched {
                return flag;
            } else {
                self.current = String::new();
                return false;
            }
        }
        let node = diagram.get_node(self.current.as_str());
        if !node.contains_exits(exit_label) {
            self.current = String::new();
            return false;
        }
        proof {
            diagram.lemma_wf_node_ok(cur0);
            diagram.node_at(cur0).lemma_exit_index(exit_label@);
            assert(diagram.candidates_ok(diagram.node_at(cur0).exit_candidates(exit_label@)));
        }
        let cands = node.get_exits(exit_label);
        let cand_label = &cands[0];
        proof {
            assert(labels_view(cands@)[0] == cand_label@);
            assert(diagram.has_node_with(cand_label@));
        }
        let cand = diagram.get_node(cand_label.as_str());
        let matched = if cand.is_regex() {
            LineParser::starts_with_reg(cand, req)
        } else {
            LineParser::starts_with_literal(cand, req)
        };
        if matched {
            let flag = cand.is_regex();
            self.current = cand_label.clone();
            flag
        } else {
            self.current = String::new();
            false
        }
    }
}

/// The cursor entered the graph at entrance `m`: the current label is
/// that entrance, its node matched at the caret, and the request gained
/// exactly that node's match groups.
pub open spec fn entered_at<C>(
    d: Diagram<C>,
    req0: Request,
    req1: Request,
    player: DiagramPlayer,
    m: int,
) -> bool {
    &&& 0 <= m < d.entrances().len()
    &&& player.current@ == d.entrances()[m]
    &&& d.has_node_with(d.entrances()[m])
    &&& node_matches(req0.line@, req0.caret as int, d.node_at(d.entrances()[m]))
    &&& labels_view(req1.groups@) == labels_view(req0.groups@) + match_groups(
        req0.line@,
        req0.caret as int,
        d.node_at(d.entrances()[m]),
    )
    &&& groups_bounded(
        match_groups(req0.line@, req0.caret as int, d.node_at(d.entrances()[m])),
        req0.line@.len() - req0.caret,
    )
}

/// The cursor moved to node `cand`: its token matched at the caret and
/// the request gained exactly that node's match groups.
pub open spec fn moved_to<C>(
    d: Diagram<C>,
    req0: Request,
    req1: Request,
    player: DiagramPlayer,
    cand: Seq<char>,
) -> bool {
    &&& player.current@ == cand
    &&& d.has_node_with(cand)
    &&& node_matches(req0.line@, req0.caret as int, d.node_at(cand))
    &&& labels_view(req1.groups@) == labels_view(req0.groups@) + match_groups(
        req0.line@,
        req0.caret as int,
        d.node_at(cand),
    )
    &&& groups_bounded(
        match_groups(req0.line@, req0.caret as int, d.node_at(cand)),
        req0.line@.len() - req0.caret,
    )
}

} // verus!
