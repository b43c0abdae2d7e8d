//! The per-line tokenizing engine.

use vstd::prelude::*;

use crate::diagram::{
    else_node_label, labels_view, next_exit_label, newline_exit_label, spec_else_node_label,
    spec_newline_exit_label, spec_next_exit_label, Controller, Diagram, Node, Request, Response,
    ResponseOption,
};
use crate::matcher::{
    elide_space, groups_bounded, literal_matches, match_groups, node_matches, reg_groups,
    regex_collect_matches, regex_node_matches,
};
use crate::player::{first_entrance_match, DiagramPlayer};

verus! {

/// Two requests that carry the same line, caret and groups.
pub open spec fn same_request(a: Request, b: Request) -> bool {
    a.line@ == b.line@ && a.caret == b.caret && a.groups@ == b.groups@
}

/// How one line ends.
#[derive(Debug, PartialEq, Eq)]
pub enum RunOutcome {
    /// The caret reached the line's end and the line-boundary protocol
    /// primed the next line's head node.
    LineDone,
    /// No candidate matched; the fallback callback (if any) ran and the
    /// rest of the line was abandoned.
    Unmatched,
    /// A match consumed no text and nothing ended the line, so going on
    /// could not make progress; the line was abandoned.
    Stalled,
    /// A callback requested quit, reload or save; the engine returned at
    /// once, skipping the line-boundary protocol.
    Signalled,
    /// The line's text was exhausted while the cursor stood outside the
    /// graph, so no node can host the line-boundary protocol.
    OutsideAtLineEnd,
    /// The node current at line end declares no `"#newline"` exit.
    MissingNewlineExit,
    /// The tail node declares no default exit to prime the next line.
    MissingTailExit,
}

/// The per-line parser.  All state lives in the diagram, the player and
/// the request/response pair; this type only carries the engine's
/// functions.
pub struct LineParser {}

impl LineParser {
    /// Whether the node's token stands at the caret, literally.
    pub fn starts_with_literal(node: &Node, req: &Request) -> (r: bool)
        ensures
            r == literal_matches(req.line@, req.caret as int, node@.token),
    {
        let token_len = node.token.as_str().unicode_len();
        let line_len = req.line.as_str().unicode_len();
        if req.caret > line_len || token_len > line_len - req.caret {
            return false;
        }
        let mut i: usize = 0;
        while i < token_len
            invariant
                i <= token_len,
                token_len == node@.token.len(),
                line_len == req.line@.len(),
                req.caret + token_len <= line_len,
                forall|j: int|
                    0 <= j < i ==> req.line@[req.caret + j] == #[trigger] node@.token[j],
            decreases token_len - i,
        {
            if req.line.as_str().get_char(req.caret + i) != node.token.as_str().get_char(i) {
                proof {
                    let sub = req.line@.subrange(
                        req.caret as int,
                        req.caret + node@.token.len(),
                    );
                    assert(sub[i as int] != node@.token[i as int]);
                }
                return false;
            }
            i += 1;
        }
        proof {
            assert(req.line@.subrange(req.caret as int, req.caret + node@.token.len())
                =~= node@.token);
        }
        true
    }

    /// Whether the node's token, read as a pattern, matches anywhere in
    /// the rest of the line.  Every match's text is appended to the
    /// request's groups, first match first.
    pub fn starts_with_reg(node: &Node, req: &mut Request) -> (r: bool)
        requires
            old(req).wf(),
        ensures
            r == regex_node_matches(old(req).line@, old(req).caret as int, node@.token),
            final(req).line@ == old(req).line@,
            final(req).caret == old(req).caret,
            final(req).wf(),
            labels_view(final(req).groups@) == labels_view(old(req).groups@) + reg_groups(
                old(req).line@,
                old(req).caret as int,
                node@.token,
            ),
            groups_bounded(
                reg_groups(old(req).line@, old(req).caret as int, node@.token),
                old(req).line@.len() - old(req).caret,
            ),
            !r ==> final(req).groups@ == old(req).groups@,
    {
        let line_len = req.line.as_str().unicode_len();
        if req.caret < line_len {
            let text = req.line.as_str().substring_char(req.caret, line_len);
            let mut matches = regex_collect_matches(node.token.as_str(), text);
            let found = matches.len() > 0;
            let ghost old_groups = req.groups@;
            let ghost found_matches = matches@;
            proof {
                assert(labels_view(found_matches) =~= matches.deep_view());
            }
            req.groups.append(&mut matches);
            proof {
                assert(labels_view(req.groups@) =~= labels_view(old_groups) + labels_view(
                    found_matches,
                ));
                if !found {
                    assert(req.groups@ =~= old_groups);
                }
            }
            found
        } else {
            proof {
                assert(labels_view(req.groups@) =~= labels_view(req.groups@) + Seq::empty());
            }
            false
        }
    }

    /// Consume a literal token: the caret the response carries advances
    /// past the token, and past exactly one following space character if
    /// one stands there — never more, never less.
    pub fn parse_literal(node: &Node, req: &Request, res: &mut Response)
        requires
            literal_matches(req.line@, req.caret as int, node@.token),
        ensures
            final(res).caret == elide_space(req.line@, req.caret + node@.token.len()),
            final(res).done_line == old(res).done_line,
            final(res).option == old(res).option,
            final(res).exit_label@ == old(res).exit_label@,
    {
        let line_len = req.line.as_str().unicode_len();
        let token_len = node.token.as_str().unicode_len();
        let base = req.caret + token_len;
        res.set_caret(base);
        if base < line_len && req.line.as_str().get_char(base) == ' ' {
            res.set_caret(base + 1);
        }
    }

    /// Consume a matched regular-expression token: the caret the
    /// response carries advances by the character length of capture
    /// group 0, plus one elided space character if one stands there.
    pub fn parse_reg(req: &Request, res: &mut Response)
        requires
            req.groups@.len() > 0,
            req.caret + req.groups@[0]@.len() <= req.line@.len(),
        ensures
            final(res).caret == elide_space(req.line@, req.caret + req.groups@[0]@.len()),
            final(res).done_line == old(res).done_line,
            final(res).option == old(res).option,
            final(res).exit_label@ == old(res).exit_label@,
    {
        let line_len = req.line.as_str().unicode_len();
        let pseud_token_len = req.groups[0].as_str().unicode_len();
        let base = req.caret + pseud_token_len;
        res.set_caret(base);
        if base < line_len && req.line.as_str().get_char(base) == ' ' {
            res.set_caret(base + 1);
        }
    }

    /// Run the `"#else"` node's callback, if the node exists and its
    /// callback name is registered; otherwise nothing happens.
    pub fn parse_line_else<T, C: Controller<T>>(
        diagram: &Diagram<C>,
        t: &mut T,
        req: &Request,
        res: &mut Response,
    )
        ensures
            !else_callback_registered(*diagram) ==> *final(t) == *old(t) && *final(res) == *old(
                res,
            ),
    {
        if diagram.contains_node(else_node_label()) {
            let fn_label = diagram.get_node(else_node_label()).get_fn_label();
            if diagram.contains_fn(fn_label) {
                diagram.get_fn(fn_label).call(t, req, res);
            }
        }
    }
}

/// The diagram holds an `"#else"` node whose callback name is
/// registered.
pub open spec fn else_callback_registered<C>(d: Diagram<C>) -> bool {
    d.has_node_with(spec_else_node_label()) && d.has_fn_with(
        d.node_at(spec_else_node_label()).fn_label,
    )
}

/// The line-boundary protocol ran on node `end`: `end`'s `"#newline"`
/// exit names the tail node, the tail's default exit names the next
/// line's head node, and the cursor now holds that head.
pub open spec fn newline_primed<C>(d: Diagram<C>, end: Seq<char>, new_cur: Seq<char>) -> bool {
    &&& d.has_node_with(end)
    &&& d.node_at(end).has_exit(spec_newline_exit_label())
    &&& d.node_at(end).exit_candidates(spec_newline_exit_label()).len() > 0
    &&& {
        let tail = d.node_at(end).exit_candidates(spec_newline_exit_label())[0];
        &&& d.has_node_with(tail)
        &&& d.node_at(tail).has_exit(spec_next_exit_label())
        &&& d.node_at(tail).exit_candidates(spec_next_exit_label()).len() > 0
        &&& new_cur == d.node_at(tail).exit_candidates(spec_next_exit_label())[0]
    }
}

/// The node current at line end declares the `"#newline"` exit, but the
/// tail node it names declares no default exit to prime the next line.
pub open spec fn missing_tail<C>(d: Diagram<C>, cur: Seq<char>) -> bool {
    &&& d.has_node_with(cur)
    &&& d.node_at(cur).has_exit(spec_newline_exit_label())
    &&& d.node_at(cur).exit_candidates(spec_newline_exit_label()).len() > 0
    &&& {
        let tail = d.node_at(cur).exit_candidates(spec_newline_exit_label())[0];
        &&& d.has_node_with(tail)
        &&& !d.node_at(tail).has_exit(spec_next_exit_label())
    }
}

/// The tail node that `cur`'s `"#newline"` exit names.
pub open spec fn newline_tail_of<C>(d: Diagram<C>, cur: Seq<char>) -> Seq<char> {
    d.node_at(cur).exit_candidates(spec_newline_exit_label())[0]
}

/// The head node the line-boundary protocol on `cur` primes for the
/// next line: the first candidate of the tail node's default exit.
pub open spec fn primed_head_of<C>(d: Diagram<C>, cur: Seq<char>) -> Seq<char> {
    d.node_at(newline_tail_of(d, cur)).exit_candidates(spec_next_exit_label())[0]
}

/// The cursor stands outside, text remains, and some entrance matches:
/// the line's first token step is fully determined.
pub open spec fn enters_fresh<C>(d: Diagram<C>, player: DiagramPlayer, req: Request) -> bool {
    player.spec_is_out() && req.caret < req.line@.len() && first_entrance_match(
        d,
        req.line@,
        req.caret as int,
        0,
    ) >= 0
}

/// The cursor stands on a node and the line's text is already
/// exhausted: only the line-boundary protocol remains.
pub open spec fn at_line_end(player: DiagramPlayer, req: Request) -> bool {
    !player.spec_is_out() && req.caret >= req.line@.len()
}

/// The caret after the line's first token step when the cursor enters
/// at the first matching entrance: that node's consumed width — its
/// token's length, or the character length of its first match — with
/// one elided space.
pub open spec fn entered_step_caret<C>(d: Diagram<C>, line: Seq<char>, caret: int) -> int {
    let n = d.node_at(d.entrances()[first_entrance_match(d, line, caret, 0)]);
    let width: int = if n.regex_flag {
        match_groups(line, caret, n)[0].len() as int
    } else {
        n.token.len() as int
    };
    elide_space(line, caret + width)
}

impl LineParser {
    /// Drive one line through the diagram.
    ///
    /// The cursor resolves an entrance when it stands outside; each
    /// token step follows the response's pending exit label — at a
    /// line's start none is pending and the node the cursor holds is
    /// matched in place — consumes the matched token (and one separating
    /// space), and runs the matched node's callback.  A callback may forward to another exit,
    /// mark the line done, or leave a control request, on which the
    /// engine returns at once.  When no candidate matches, the
    /// `"#else"` callback runs and the line is abandoned.  When the text
    /// is exhausted, the node then current must declare the
    /// `"#newline"` exit: its tail node's callback runs and the tail's
    /// default exit primes the next line's head node.  A diagram whose
    /// structure breaks these duties is reported through the outcome for
    /// the embedding shell to abort on; a match that consumes no text
    /// would stall the line and is abandoned the same way.
    pub fn run<T, C: Controller<T>>(
        diagram_player: &mut DiagramPlayer,
        diagram: &Diagram<C>,
        t: &mut T,
        req: &mut Request,
        res: &mut Response,
    ) -> (outcome: RunOutcome)
        requires
            diagram.wf(),
            old(req).wf(),
            old(diagram_player).spec_is_out() || diagram.has_node_with(
                old(diagram_player).current@,
            ),
        ensures
            final(req).line@ == old(req).line@,
            final(req).wf(),
            final(req).caret >= old(req).caret,
            !final(diagram_player).spec_is_out() ==> diagram.has_node_with(
                final(diagram_player).current@,
            ),
            outcome is Signalled ==> !(final(res).option is Nothing),
            outcome is Unmatched ==> final(diagram_player).spec_is_out(),
            outcome is Stalled ==> final(req).caret < final(req).line@.len()
                && !final(diagram_player).spec_is_out() && final(res).option is Nothing
                && !final(res).done_line,
            (outcome is OutsideAtLineEnd) <==> (old(diagram_player).spec_is_out() && old(
                req,
            ).caret >= old(req).line@.len()),
            outcome is LineDone ==> final(req).caret == final(req).line@.len(),
            outcome is LineDone ==> exists|end: Seq<char>|
                #[trigger] newline_primed(*diagram, end, final(diagram_player).current@),
            outcome is MissingNewlineExit ==> !final(diagram_player).spec_is_out()
                && !diagram.node_at(final(diagram_player).current@).has_exit(
                spec_newline_exit_label(),
            ) && final(res).option is Nothing,
            outcome is MissingTailExit ==> missing_tail(*diagram, final(diagram_player).current@),
            old(diagram_player).spec_is_out() && old(req).caret < old(req).line@.len()
                && first_entrance_match(*diagram, old(req).line@, old(req).caret as int, 0) == -1
                ==> outcome is Unmatched && final(req).caret == old(req).caret
                    && final(req).groups@ == old(req).groups@
                    && final(diagram_player).spec_is_out(),
            enters_fresh(*diagram, *old(diagram_player), *old(req)) ==> final(req).caret
                >= entered_step_caret(*diagram, old(req).line@, old(req).caret as int),
            enters_fresh(*diagram, *old(diagram_player), *old(req)) && outcome is Unmatched
                ==> final(req).caret > old(req).caret,
            at_line_end(*old(diagram_player), *old(req)) && !diagram.node_at(
                old(diagram_player).current@,
            ).has_exit(spec_newline_exit_label()) ==> outcome is MissingNewlineExit
                && final(diagram_player).current@ == old(diagram_player).current@,
            at_line_end(*old(diagram_player), *old(req)) && diagram.node_at(
                old(diagram_player).current@,
            ).has_exit(spec_newline_exit_label()) && !diagram.node_at(
                newline_tail_of(*diagram, old(diagram_player).current@),
            ).has_exit(spec_next_exit_label()) ==> outcome is MissingTailExit
                && final(diagram_player).current@ == old(diagram_player).current@,
            at_line_end(*old(diagram_player), *old(req)) && diagram.node_at(
                old(diagram_player).current@,
            ).has_exit(spec_newline_exit_label()) && diagram.node_at(
                newline_tail_of(*diagram, old(diagram_player).current@),
            ).has_exit(spec_next_exit_label()) ==> outcome is LineDone
                && final(diagram_player).current@ == primed_head_of(
                *diagram,
                old(diagram_player).current@,
            ),
    {
        res.reset();
        let line_len = req.get_line_len();
        while req.caret < line_len
            invariant
                diagram.wf(),
                req.wf(),
                line_len == req.line@.len(),
                req.line@ == old(req).line@,
                req.caret >= old(req).caret,
                !diagram_player.spec_is_out() ==> diagram.has_node_with(diagram_player.current@),
                diagram_player.spec_is_out() ==> old(diagram_player).spec_is_out() && req.caret
                    == old(req).caret && req.groups@ == old(req).groups@,
                old(diagram_player).spec_is_out() && old(req).caret >= line_len
                    ==> diagram_player.spec_is_out(),
                old(diagram_player).spec_is_out() && old(req).caret < line_len
                    && first_entrance_match(*diagram, old(req).line@, old(req).caret as int, 0)
                    == -1 ==> diagram_player.spec_is_out(),
                res.option is Nothing,
                diagram_player.spec_is_out() ==> res.exit_label@.len() == 0,
                at_line_end(*old(diagram_player), *old(req)) ==> diagram_player.current@
                    == old(diagram_player).current@ && req.caret == old(req).caret,
                enters_fresh(*diagram, *old(diagram_player), *old(req))
                    ==> diagram_player.spec_is_out() || (req.caret > old(req).caret && req.caret
                    >= entered_step_caret(*diagram, old(req).line@, old(req).caret as int)),
            decreases line_len - req.caret,
        {
            let start_caret = req.caret;
            let ghost was_out = diagram_player.spec_is_out();
            if diagram_player.is_out() {
                diagram_player.enter_when_out(diagram, req);
                if diagram_player.is_out() {
                    proof {
                        if enters_fresh(*diagram, *old(diagram_player), *old(req)) {
                            assert(false);
                        }
                    }
                    LineParser::parse_line_else(diagram, t, req, res);
                    return RunOutcome::Unmatched;
                }
            }
            req.groups.clear();
            let lbl = res.exit_label.clone();
            diagram_player.forward_parse(diagram, req, lbl.as_str());
            if diagram_player.is_out() {
                proof {
                    if was_out && enters_fresh(*diagram, *old(diagram_player), *old(req)) {
                        assert(false);
                    }
                }
                LineParser::parse_line_else(diagram, t, req, res);
                return RunOutcome::Unmatched;
            }
            let ghost cur = diagram_player.current@;
            let ghost caret_at_match = req.caret as int;
            proof {
                assert(labels_view(Seq::<String>::empty()) =~= Seq::<Seq<char>>::empty());
                assert(diagram.has_node_with(cur));
                assert(node_matches(req.line@, req.caret as int, diagram.node_at(cur)));
                assert(labels_view(req.groups@) =~= match_groups(
                    req.line@,
                    req.caret as int,
                    diagram.node_at(cur),
                ));
                if was_out && enters_fresh(*diagram, *old(diagram_player), *old(req)) {
                    let fem = first_entrance_match(
                        *diagram,
                        old(req).line@,
                        old(req).caret as int,
                        0,
                    );
                    assert(cur == diagram.entrances()[fem]);
                    assert(caret_at_match == old(req).caret as int);
                }
            }
            let node = diagram.get_node(diagram_player.get_current());
            if node.is_regex() {
                proof {
                    assert(labels_view(req.groups@)[0] == req.groups@[0]@);
                }
                LineParser::parse_reg(req, res);
            } else {
                LineParser::parse_literal(node, req, res);
            }
            req.caret = res.caret;
            proof {
                if was_out && enters_fresh(*diagram, *old(diagram_player), *old(req)) {
                    assert(req.caret == entered_step_caret(
                        *diagram,
                        old(req).line@,
                        old(req).caret as int,
                    ));
                }
            }
            res.set_caret(req.caret);
            res.forward(next_exit_label());
            let fn_label = node.get_fn_label();
            if fn_label.is_empty() {
                // no callback: the exit label stays at the default
            } else if diagram.contains_fn(fn_label) {
                diagram.get_fn(fn_label).call(t, req, res);
            }
            if res.done_line {
                req.caret = line_len;
            }
            match &res.option {
                ResponseOption::Nothing => {},
                _ => {
                    return RunOutcome::Signalled;
                },
            }
            if req.caret <= start_caret {
                return RunOutcome::Stalled;
            }
        }
        if diagram_player.is_out() {
            return RunOutcome::OutsideAtLineEnd;
        }
        let ghost end = diagram_player.current@;
        let node = diagram.get_node(diagram_player.get_current());
        if !node.contains_exits(newline_exit_label()) {
            return RunOutcome::MissingNewlineExit;
        }
        proof {
            diagram.lemma_wf_node_ok(end);
            diagram.node_at(end).lemma_exit_index(spec_newline_exit_label());
        }
        let tail_candidates = node.get_exits(newline_exit_label());
        let tail_label = &tail_candidates[0];
        proof {
            assert(labels_view(tail_candidates@)[0] == tail_label@);
            assert(diagram.has_node_with(tail_label@));
        }
        let tail_node = diagram.get_node(tail_label.as_str());
        let tail_fn_label = tail_node.get_fn_label();
        if diagram.contains_fn(tail_fn_label) {
            diagram.get_fn(tail_fn_label).call(t, req, res);
        }
        if !tail_node.contains_exits(next_exit_label()) {
            return RunOutcome::MissingTailExit;
        }
        proof {
            diagram.lemma_wf_node_ok(tail_label@);
            diagram.node_at(tail_label@).lemma_exit_index(spec_next_exit_label());
        }
        let head_candidates = tail_node.get_exits(next_exit_label());
        let next_head = &head_candidates[0];
        proof {
            assert(labels_view(head_candidates@)[0] == next_head@);
        }
        diagram_player.set_current(next_head.as_str());
        proof {
            assert(newline_primed(*diagram, end, diagram_player.current@));
        }
        RunOutcome::LineDone
    }
}

} // verus!
