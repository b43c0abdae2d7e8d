//! The graph model: nodes, exit tables, and the diagram that owns them.

use vstd::prelude::*;

use crate::assoc::{assoc_contains, assoc_get, has_key, keys_of, value_of};

verus! {

/// The exit label the engine follows when a callback does not forward
/// anywhere else.
pub fn next_exit_label() -> (s: &'static str)
    ensures
        s@ == spec_next_exit_label(),
{
    "next"
}

pub open spec fn spec_next_exit_label() -> Seq<char> {
    "next"@
}

/// The reserved exit label consulted once the line's text is exhausted.
pub fn newline_exit_label() -> (s: &'static str)
    ensures
        s@ == spec_newline_exit_label(),
{
    "#newline"
}

pub open spec fn spec_newline_exit_label() -> Seq<char> {
    "#newline"@
}

/// The reserved node label whose callback runs when no candidate
/// matches.
pub fn else_node_label() -> (s: &'static str)
    ensures
        s@ == spec_else_node_label(),
{
    "#else"
}

pub open spec fn spec_else_node_label() -> Seq<char> {
    "#else"@
}

/// What a callback may read: the line under parse, its length in
/// characters, the engine's read position, and the capture groups of the
/// most recent regular-expression match.
pub struct Request {
    /// The whole line of input.
    pub line: String,
    /// The read position, counted in characters from the line's start.
    pub caret: usize,
    /// Group 0 of each match of the most recent regular-expression
    /// token, in order of occurrence.
    pub groups: Vec<String>,
}

impl Request {
    /// The caret never passes the end of the line.
    pub open spec fn wf(self) -> bool {
        self.caret <= self.line@.len()
    }

    pub fn new(line: String) -> (r: Request)
        ensures
            r.line@ == line@,
            r.caret == 0,
            r.groups@.len() == 0,
            r.wf(),
    {
        Request { line, caret: 0, groups: Vec::new() }
    }

    pub fn get_line(&self) -> (r: &String)
        ensures
            r@ == self.line@,
    {
        &self.line
    }

    /// The line's length in characters.
    pub fn get_line_len(&self) -> (r: usize)
        ensures
            r == self.line@.len(),
    {
        self.line.as_str().unicode_len()
    }

    pub fn get_caret(&self) -> (r: usize)
        ensures
            r == self.caret,
    {
        self.caret
    }

    pub fn get_groups(&self) -> (r: &Vec<String>)
        ensures
            r@ == self.groups@,
    {
        &self.groups
    }
}

/// A cooperative early-exit request a callback can leave for the shell
/// that owns the loop.
#[derive(Debug, PartialEq, Eq)]
pub enum ResponseOption {
    /// No request: parsing goes on.
    Nothing,
    /// Leave the shell.
    Quits,
    /// Reload the diagram from the named file.
    Reloads(String),
    /// Save the diagram to the named file.
    Saves(String),
}

/// What a callback may write: the caret the engine should adopt, the
/// done flag, a control request, and the exit label to follow next.
pub struct Response {
    pub caret: usize,
    /// When set, the engine treats the line as fully consumed.
    pub done_line: bool,
    pub option: ResponseOption,
    /// The exit label the next transition will follow; empty means no
    /// forward is pending and the current node itself is matched.
    pub exit_label: String,
}

impl Response {
    pub fn new() -> (r: Response)
        ensures
            r.caret == 0,
            r.done_line == false,
            r.option is Nothing,
            r.exit_label@.len() == 0,
    {
        Response {
            caret: 0,
            done_line: false,
            option: ResponseOption::Nothing,
            exit_label: String::new(),
        }
    }

    /// Return every field to its default.  The exit label empties: no
    /// forward is pending, so the next token is matched against the
    /// current node itself.
    pub fn reset(&mut self)
        ensures
            final(self).caret == 0,
            final(self).done_line == false,
            final(self).option is Nothing,
            final(self).exit_label@.len() == 0,
    {
        self.caret = 0;
        self.done_line = false;
        self.option = ResponseOption::Nothing;
        self.exit_label = String::new();
    }

    pub fn set_caret(&mut self, caret: usize)
        ensures
            *final(self) == (Response { caret, ..*old(self) }),
    {
        self.caret = caret;
    }

    pub fn set_done_line(&mut self, done_line: bool)
        ensures
            *final(self) == (Response { done_line, ..*old(self) }),
    {
        self.done_line = done_line;
    }

    pub fn set_option(&mut self, option: ResponseOption)
        ensures
            *final(self) == (Response { option, ..*old(self) }),
    {
        self.option = option;
    }

    /// Ask the engine to follow `exit_label` at the next transition.
    pub fn forward(&mut self, exit_label: &str)
        ensures
            final(self).exit_label@ == exit_label@,
            final(self).caret == old(self).caret,
            final(self).done_line == old(self).done_line,
            final(self).option == old(self).option,
    {
        self.exit_label = exit_label.to_owned();
    }
}

/// A registry of callbacks.  The embedding application implements this
/// for a type of its choosing; the diagram stores one value per
/// registered callback name.  A callback may read the request, rewrite
/// the response, and work on the shared context `T`.
pub trait Controller<T> {
    fn call(&self, t: &mut T, req: &Request, res: &mut Response);
}

/// A callback that does nothing: the context and the response come back
/// untouched.
pub fn empty_controller<T>(t: &mut T, _req: &Request, res: &mut Response)
    ensures
        *final(t) == *old(t),
        *final(res) == *old(res),
{
}

/// [`empty_controller`] as a registrable callback value.
pub struct EmptyController;

impl<T> Controller<T> for EmptyController {
    fn call(&self, t: &mut T, req: &Request, res: &mut Response) {
        empty_controller(t, req, res);
    }
}

/// A vertex of the diagram: a token to match, an optional callback name,
/// and the exits toward candidate next nodes.
pub struct Node {
    /// The literal text, or the regular-expression pattern when
    /// `regex_flag` is set.
    pub token: String,
    /// The registered name of the node's callback; empty means no
    /// callback, just a transition.
    pub fn_label: String,
    /// Whether `token` is a regular-expression pattern.
    pub regex_flag: bool,
    /// Exit label to ordered candidate next-node labels.  Only the first
    /// candidate of each list is ever consulted by the engine.
    pub exits: Vec<(String, Vec<String>)>,
}

/// The mathematical shape of a node.
pub ghost struct NodeView {
    pub token: Seq<char>,
    pub fn_label: Seq<char>,
    pub regex_flag: bool,
    pub exits: Seq<(Seq<char>, Seq<Seq<char>>)>,
}

impl View for Node {
    type V = NodeView;

    open spec fn view(&self) -> NodeView {
        NodeView {
            token: self.token@,
            fn_label: self.fn_label@,
            regex_flag: self.regex_flag,
            exits: exits_view(self.exits@),
        }
    }
}

impl NodeView {
    /// Whether the node declares an exit under `label`.
    pub open spec fn has_exit(self, label: Seq<char>) -> bool {
        exists|i: int| 0 <= i < self.exits.len() && self.exits[i].0 == label
    }

    /// Index of the first exit pair under `label`.
    pub open spec fn exit_index(self, label: Seq<char>) -> int {
        crate::assoc::key_index(self.exits.map_values(|p: (Seq<char>, Seq<Seq<char>>)| p.0), label)
    }

    /// The candidate list of the first exit pair under `label`.
    pub open spec fn exit_candidates(self, label: Seq<char>) -> Seq<Seq<char>> {
        self.exits[self.exit_index(label)].1
    }

    /// A declared exit's index is in range and carries the label.
    pub proof fn lemma_exit_index(self, label: Seq<char>)
        requires
            self.has_exit(label),
        ensures
            0 <= self.exit_index(label) < self.exits.len(),
            self.exits[self.exit_index(label)].0 == label,
    {
        let keys = self.exits.map_values(|p: (Seq<char>, Seq<Seq<char>>)| p.0);
        crate::assoc::lemma_key_index_bounds(keys, label);
        if crate::assoc::key_index(keys, label) < 0 {
            crate::assoc::lemma_key_index_absent(keys, label);
            let w = choose|i: int| 0 <= i < self.exits.len() && self.exits[i].0 == label;
            assert(keys[w] == label);
        }
    }
}

impl Node {
    pub fn get_token(&self) -> (r: &str)
        ensures
            r@ == self@.token,
    {
        self.token.as_str()
    }

    pub fn get_fn_label(&self) -> (r: &str)
        ensures
            r@ == self@.fn_label,
    {
        self.fn_label.as_str()
    }

    pub fn is_regex(&self) -> (r: bool)
        ensures
            r == self@.regex_flag,
    {
        self.regex_flag
    }

    /// The whole exit table, for inspection.
    pub fn get_exits_map(&self) -> (r: &Vec<(String, Vec<String>)>)
        ensures
            r@ == self.exits@,
    {
        &self.exits
    }

    /// The candidate next-node labels under `name`.  Callers must guard
    /// with [`Self::contains_exits`] first.
    pub fn get_exits(&self, name: &str) -> (r: &Vec<String>)
        requires
            self@.has_exit(name@),
        ensures
            labels_view(r@) == self@.exit_candidates(name@),
    {
        proof {
            self.lemma_exit_lookup(name@);
        }
        assoc_get(&self.exits, name)
    }

    pub fn contains_exits(&self, name: &str) -> (r: bool)
        ensures
            r == self@.has_exit(name@),
    {
        proof {
            self.lemma_exit_lookup(name@);
        }
        assoc_contains(&self.exits, name)
    }

    /// The exec-level exit table and the view's exit table answer lookups
    /// alike.
    proof fn lemma_exit_lookup(&self, label: Seq<char>)
        ensures
            has_key(self.exits@, label) == self@.has_exit(label),
            self@.has_exit(label) ==> labels_view(value_of(self.exits@, label)@)
                == self@.exit_candidates(label),
    {
        let pairs = self.exits@;
        let keys = keys_of(pairs);
        let vkeys = self@.exits.map_values(|p: (Seq<char>, Seq<Seq<char>>)| p.0);
        assert(keys =~= vkeys);
        crate::assoc::lemma_key_index_bounds(keys, label);
        if crate::assoc::key_index(keys, label) >= 0 {
            assert(self@.has_exit(label)) by {
                let i = crate::assoc::key_index(keys, label);
                assert(self@.exits[i].0 == label);
            }
        }
        if self@.has_exit(label) {
            let w = choose|i: int| 0 <= i < self@.exits.len() && self@.exits[i].0 == label;
            assert(keys[w] == label);
            assert(crate::assoc::key_index(keys, label) >= 0) by {
                if crate::assoc::key_index(keys, label) < 0 {
                    crate::assoc::lemma_key_index_absent(keys, label);
                }
            }
        }
    }
}

/// The view of a vector of labels.
pub open spec fn labels_view(s: Seq<String>) -> Seq<Seq<char>> {
    s.map_values(|l: String| l@)
}

/// The view of an exec exit table.
pub open spec fn exits_view(s: Seq<(String, Vec<String>)>) -> Seq<(Seq<char>, Seq<Seq<char>>)> {
    s.map_values(|p: (String, Vec<String>)| (p.0@, labels_view(p.1@)))
}

/// The view of an exec node table.
pub open spec fn node_pairs_view(s: Seq<(String, Node)>) -> Seq<(Seq<char>, NodeView)> {
    s.map_values(|p: (String, Node)| (p.0@, p.1@))
}

/// One diagram per application instance: the node table, the ordered
/// entrance labels, and the callback registry.  The diagram is built (or
/// reloaded wholesale) before parsing and read immutably while a line is
/// parsed.
pub struct Diagram<C> {
    /// Callback name to registered callback.
    pub fn_map: Vec<(String, C)>,
    /// Node labels eligible to start a fresh line, in the order they are
    /// tried.
    pub entrance_vec: Vec<String>,
    /// Node label to node.
    pub node_map: Vec<(String, Node)>,
}

impl<C> Diagram<C> {
    /// The entrance labels, as character sequences.
    pub open spec fn entrances(self) -> Seq<Seq<char>> {
        self.entrance_vec@.map_values(|s: String| s@)
    }

    /// The node table, as pairs of label and node shape.
    pub open spec fn nodes(self) -> Seq<(Seq<char>, NodeView)> {
        node_pairs_view(self.node_map@)
    }

    pub open spec fn has_node_with(self, label: Seq<char>) -> bool {
        has_key(self.node_map@, label)
    }

    /// The first node registered under `label`.
    pub open spec fn node_at(self, label: Seq<char>) -> NodeView {
        value_of(self.node_map@, label)@
    }

    pub open spec fn has_fn_with(self, name: Seq<char>) -> bool {
        has_key(self.fn_map@, name)
    }

    /// The first callback registered under `name`.
    pub open spec fn fn_at(self, name: Seq<char>) -> C {
        value_of(self.fn_map@, name)
    }

    /// A candidate list a node may point through: it holds at least one
    /// label and every label names a node of the diagram.
    pub open spec fn candidates_ok(self, cands: Seq<Seq<char>>) -> bool {
        cands.len() > 0 && forall|j: int| 0 <= j < cands.len() ==> self.has_node_with(cands[j])
    }

    /// Every exit of the node points through a sound candidate list.
    pub open spec fn node_ok(self, n: NodeView) -> bool {
        forall|i: int| 0 <= i < n.exits.len() ==> self.candidates_ok(#[trigger] n.exits[i].1)
    }

    /// Every regular-expression node carries a pattern the regex engine
    /// accepts.  The matcher is total — a rejected pattern simply never
    /// matches — so this is not demanded by the engine; `validate` still
    /// refuses such a diagram, so a misconfigured pattern fails fast at
    /// the validation pass instead of silently matching nothing.
    pub open spec fn patterns_ok(self) -> bool {
        forall|i: int|
            0 <= i < self.node_map@.len() ==> (#[trigger] self.node_map@[i].1@.regex_flag
                ==> crate::matcher::regex_pattern_ok(self.node_map@[i].1@.token))
    }

    /// A validated diagram: every entrance carries a label — an empty
    /// label means "outside the graph", so no entrance may use it — and
    /// names a node, and every exit of every node has at least one
    /// candidate, each naming a node.  The engine assumes a diagram in
    /// this shape; `validate` decides it, once, after a (re)load.
    pub open spec fn wf(self) -> bool {
        &&& forall|i: int|
            0 <= i < self.entrances().len() ==> (#[trigger] self.entrances()[i]).len() > 0
                && self.has_node_with(self.entrances()[i])
        &&& forall|i: int|
            0 <= i < self.node_map@.len() ==> self.node_ok(#[trigger] self.node_map@[i].1@)
    }

    /// A looked-up node of a validated diagram is itself sound.
    pub proof fn lemma_wf_node_ok(self, label: Seq<char>)
        requires
            self.wf(),
            self.has_node_with(label),
        ensures
            self.node_ok(self.node_at(label)),
    {
        crate::assoc::lemma_key_index_bounds(keys_of(self.node_map@), label);
    }

    /// One diagram is shared per application instance.
    pub fn new() -> (r: Diagram<C>)
        ensures
            r.node_map@.len() == 0,
            r.entrance_vec@.len() == 0,
            r.fn_map@.len() == 0,
            r.wf(),
    {
        Diagram { fn_map: Vec::new(), entrance_vec: Vec::new(), node_map: Vec::new() }
    }

    /// The whole node table, for inspection.
    pub fn get_node_map(&self) -> (r: &Vec<(String, Node)>)
        ensures
            r@ == self.node_map@,
    {
        &self.node_map
    }

    /// Drop the nodes and the entrances, keeping the registered
    /// callbacks.
    pub fn clear(&mut self)
        ensures
            final(self).node_map@.len() == 0,
            final(self).entrance_vec@.len() == 0,
            final(self).fn_map@ == old(self).fn_map@,
            final(self).wf(),
    {
        self.node_map.clear();
        self.entrance_vec.clear();
    }

    pub fn get_entrance_vec(&self) -> (r: &Vec<String>)
        ensures
            r@ == self.entrance_vec@,
    {
        &self.entrance_vec
    }

    pub fn set_entrance_vec(&mut self, entrance_vec2: Vec<String>)
        ensures
            final(self).entrance_vec@ == entrance_vec2@,
            final(self).node_map@ == old(self).node_map@,
            final(self).fn_map@ == old(self).fn_map@,
    {
        self.entrance_vec = entrance_vec2;
    }

    /// The node registered under `label`.  Callers must guard with
    /// [`Self::contains_node`] first.
    pub fn get_node(&self, label: &str) -> (r: &Node)
        requires
            self.has_node_with(label@),
        ensures
            r@ == self.node_at(label@),
    {
        assoc_get(&self.node_map, label)
    }

    pub fn contains_node(&self, label: &str) -> (r: bool)
        ensures
            r == self.has_node_with(label@),
    {
        assoc_contains(&self.node_map, label)
    }

    /// The callback registered under `name`.  Callers must guard with
    /// [`Self::contains_fn`] first.
    pub fn get_fn(&self, name: &str) -> (r: &C)
        requires
            self.has_fn_with(name@),
        ensures
            *r == self.fn_at(name@),
    {
        assoc_get(&self.fn_map, name)
    }

    pub fn contains_fn(&self, name: &str) -> (r: bool)
        ensures
            r == self.has_fn_with(name@),
    {
        assoc_contains(&self.fn_map, name)
    }

    /// Register a callback under `name`; an earlier callback of the same
    /// name is overwritten.
    pub fn insert_fn(&mut self, name: &str, fn2: C)
        ensures
            final(self).has_fn_with(name@),
            final(self).fn_at(name@) == fn2,
            forall|k: Seq<char>|
                k != name@ ==> #[trigger] final(self).has_fn_with(k) == old(self).has_fn_with(k),
            forall|k: Seq<char>|
                k != name@ && old(self).has_fn_with(k) ==> #[trigger] final(self).fn_at(k) == old(
                    self,
                ).fn_at(k),
            final(self).node_map@ == old(self).node_map@,
            final(self).entrance_vec@ == old(self).entrance_vec@,
    {
        crate::assoc::assoc_insert(&mut self.fn_map, name.to_owned(), fn2);
    }

    /// Register a literal node under `label`; an earlier node of the
    /// same label is overwritten.
    pub fn insert_node(
        &mut self,
        label: String,
        token2: String,
        fn_label2: String,
        exits2: Vec<(String, Vec<String>)>,
    )
        ensures
            inserted_node(
                old(self).node_map@,
                final(self).node_map@,
                label@,
                (NodeView {
                    token: token2@,
                    fn_label: fn_label2@,
                    regex_flag: false,
                    exits: exits_view(exits2@),
                }),
            ),
            final(self).entrance_vec@ == old(self).entrance_vec@,
            final(self).fn_map@ == old(self).fn_map@,
    {
        let node = Node { token: token2, fn_label: fn_label2, regex_flag: false, exits: exits2 };
        let ghost pre = self.node_map@;
        crate::assoc::assoc_insert(&mut self.node_map, label, node);
        proof {
            lemma_inserted_node(pre, self.node_map@);
        }
    }

    /// Register a regular-expression node under `label`.
    pub fn insert_node_reg(
        &mut self,
        label: &str,
        token2: String,
        fn_label2: String,
        exits2: Vec<(String, Vec<String>)>,
    )
        ensures
            inserted_node(
                old(self).node_map@,
                final(self).node_map@,
                label@,
                (NodeView {
                    token: token2@,
                    fn_label: fn_label2@,
                    regex_flag: true,
                    exits: exits_view(exits2@),
                }),
            ),
            final(self).entrance_vec@ == old(self).entrance_vec@,
            final(self).fn_map@ == old(self).fn_map@,
    {
        let node = Node { token: token2, fn_label: fn_label2, regex_flag: true, exits: exits2 };
        let ghost pre = self.node_map@;
        crate::assoc::assoc_insert(&mut self.node_map, label.to_owned(), node);
        proof {
            lemma_inserted_node(pre, self.node_map@);
        }
    }

    /// Register a dispatch-only node: no token, no exits, only a
    /// callback name.
    pub fn insert_node_single(&mut self, label: &str, fn_label2: String)
        ensures
            inserted_node(
                old(self).node_map@,
                final(self).node_map@,
                label@,
                (NodeView {
                    token: Seq::empty(),
                    fn_label: fn_label2@,
                    regex_flag: false,
                    exits: Seq::empty(),
                }),
            ),
            final(self).entrance_vec@ == old(self).entrance_vec@,
            final(self).fn_map@ == old(self).fn_map@,
    {
        let node = Node {
            token: String::new(),
            fn_label: fn_label2,
            regex_flag: false,
            exits: Vec::new(),
        };
        let ghost pre = self.node_map@;
        crate::assoc::assoc_insert(&mut self.node_map, label.to_owned(), node);
        proof {
            assert(node@.exits =~= Seq::<(Seq<char>, Seq<Seq<char>>)>::empty());
            lemma_inserted_node(pre, self.node_map@);
        }
    }

    /// Decide [`Self::wf`] and [`Self::patterns_ok`] together: the
    /// validation pass a diagram goes through once after a (re)load.
    pub fn validate(&self) -> (r: bool)
        ensures
            r == (self.wf() && self.patterns_ok()),
    {
        let n_ent = self.entrance_vec.len();
        for i in 0..n_ent
            invariant
                n_ent == self.entrance_vec@.len(),
                forall|j: int|
                    0 <= j < i ==> (#[trigger] self.entrances()[j]).len() > 0
                        && self.has_node_with(self.entrances()[j]),
        {
            if self.entrance_vec[i].as_str().is_empty() {
                assert(self.entrances()[i as int].len() == 0);
                return false;
            }
            if !self.contains_node(self.entrance_vec[i].as_str()) {
                assert(!self.has_node_with(self.entrances()[i as int]));
                return false;
            }
        }
        let n_nodes = self.node_map.len();
        for i in 0..n_nodes
            invariant
                n_nodes == self.node_map@.len(),
                forall|j: int| 0 <= j < i ==> self.node_ok(#[trigger] self.node_map@[j].1@),
                forall|j: int|
                    0 <= j < self.entrances().len() ==> (#[trigger] self.entrances()[j]).len() > 0
                        && self.has_node_with(self.entrances()[j]),
        {
            if !self.validate_node_exits(&self.node_map[i].1) {
                return false;
            }
        }
        let n_pats = self.node_map.len();
        for i in 0..n_pats
            invariant
                n_pats == self.node_map@.len(),
                self.wf(),
                forall|j: int|
                    0 <= j < i ==> (#[trigger] self.node_map@[j].1@.regex_flag
                        ==> crate::matcher::regex_pattern_ok(self.node_map@[j].1@.token)),
        {
            let node = &self.node_map[i].1;
            if node.regex_flag {
                if !crate::matcher::regex_pattern_valid(node.token.as_str()) {
                    assert(self.node_map@[i as int].1@.regex_flag);
                    return false;
                }
            }
        }
        true
    }

    /// Decide [`Self::node_ok`] for one node.
    fn validate_node_exits(&self, node: &Node) -> (r: bool)
        ensures
            r == self.node_ok(node@),
    {
        let n_exits = node.exits.len();
        for i in 0..n_exits
            invariant
                n_exits == node.exits@.len(),
                forall|j: int| 0 <= j < i ==> self.candidates_ok(#[trigger] node@.exits[j].1),
        {
            let cands = &node.exits[i].1;
            proof {
                assert(node@.exits.len() == node.exits@.len());
                assert(node@.exits[i as int].1 =~= labels_view(cands@));
            }
            let n_cands = cands.len();
            if n_cands == 0 {
                assert(!self.candidates_ok(node@.exits[i as int].1));
                return false;
            }
            for j in 0..n_cands
                invariant
                    n_cands == cands@.len(),
                    (i as int) < node@.exits.len(),
                    labels_view(cands@) == node@.exits[i as int].1,
                    n_cands > 0,
                    forall|k: int|
                        0 <= k < j ==> self.has_node_with(#[trigger] node@.exits[i as int].1[k]),
            {
                if !self.contains_node(cands[j].as_str()) {
                    proof {
                        assert(node@.exits[i as int].1[j as int] == cands@[j as int]@);
                        assert(!self.has_node_with(node@.exits[i as int].1[j as int]));
                        assert(!self.candidates_ok(node@.exits[i as int].1));
                        assert((i as int) < node@.exits.len());
                        assert(!self.node_ok(node@));
                    }
                    return false;
                }
                proof {
                    assert(node@.exits[i as int].1[j as int] == cands@[j as int]@);
                }
            }
            assert(self.candidates_ok(node@.exits[i as int].1));
        }
        true
    }
}

/// The node table `post` is `pre` with `node` inserted under `label`:
/// the looked-up node under `label` is now `node`, every other label
/// answers as before, and the table grew by at most the one pair.
pub open spec fn inserted_node(
    pre: Seq<(String, Node)>,
    post: Seq<(String, Node)>,
    label: Seq<char>,
    node: NodeView,
) -> bool {
    &&& pre.len() <= post.len() <= pre.len() + 1
    &&& has_key(post, label)
    &&& value_of(post, label)@ == node
    &&& keys_of(post) == if has_key(pre, label) {
        keys_of(pre)
    } else {
        keys_of(pre).push(label)
    }
    &&& forall|k: Seq<char>| k != label ==> #[trigger] has_key(post, k) == has_key(pre, k)
    &&& forall|k: Seq<char>|
        k != label && has_key(pre, k) ==> #[trigger] value_of(post, k)@ == value_of(pre, k)@
    &&& !has_key(pre, label) ==> node_pairs_view(post) == node_pairs_view(pre).push(
        (label, node),
    )
}

/// One node record of the persisted diagram document.  `token` and
/// `regex` are mutually exclusive; both absent means a dispatch-only
/// node.
#[derive(Debug, PartialEq, Eq)]
pub struct NodeJson {
    pub label: String,
    pub token: Option<String>,
    pub regex: Option<String>,
    /// The callback name (the document calls the field `fn`).
    pub fnc: Option<String>,
    pub exit: Vec<(String, Vec<String>)>,
}

/// The mathematical shape of a node record.
pub ghost struct NodeJsonView {
    pub label: Seq<char>,
    pub token: Option<Seq<char>>,
    pub regex: Option<Seq<char>>,
    pub fnc: Option<Seq<char>>,
    pub exit: Seq<(Seq<char>, Seq<Seq<char>>)>,
}

impl View for NodeJson {
    type V = NodeJsonView;

    open spec fn view(&self) -> NodeJsonView {
        NodeJsonView {
            label: self.label@,
            token: match self.token {
                Some(t) => Some(t@),
                None => None,
            },
            regex: match self.regex {
                Some(t) => Some(t@),
                None => None,
            },
            fnc: match self.fnc {
                Some(t) => Some(t@),
                None => None,
            },
            exit: exits_view(self.exit@),
        }
    }
}

impl NodeJson {
    pub fn new() -> (r: NodeJson)
        ensures
            r@.label.len() == 0,
            r@.token is None,
            r@.regex is None,
            r@.fnc is None,
            r@.exit.len() == 0,
    {
        NodeJson { label: String::new(), token: None, regex: None, fnc: None, exit: Vec::new() }
    }
}

/// The persisted diagram document: the ordered entrance labels and the
/// node records.
#[derive(Debug, PartialEq, Eq)]
pub struct DiagramJson {
    pub entrance: Vec<String>,
    pub nodes: Vec<NodeJson>,
}

/// The mathematical shape of a diagram document.
pub ghost struct DiagramJsonView {
    pub entrance: Seq<Seq<char>>,
    pub nodes: Seq<NodeJsonView>,
}

impl View for DiagramJson {
    type V = DiagramJsonView;

    open spec fn view(&self) -> DiagramJsonView {
        DiagramJsonView {
            entrance: self.entrance@.map_values(|s: String| s@),
            nodes: self.nodes@.map_values(|n: NodeJson| n@),
        }
    }
}

impl DiagramJson {
    pub fn new() -> (r: DiagramJson)
        ensures
            r@.entrance.len() == 0,
            r@.nodes.len() == 0,
    {
        DiagramJson { entrance: Vec::new(), nodes: Vec::new() }
    }
}

/// The node a record describes, with its label: a `token` record is a
/// literal node, a `regex` record a regular-expression node, a bare
/// record a dispatch-only node with an empty token.
pub open spec fn node_of_record(r: NodeJsonView) -> (Seq<char>, NodeView) {
    (
        r.label,
        NodeView {
            token: match r.token {
                Some(t) => t,
                None => match r.regex {
                    Some(p) => p,
                    None => Seq::empty(),
                },
            },
            fn_label: match r.fnc {
                Some(f) => f,
                None => Seq::empty(),
            },
            regex_flag: r.token is None && r.regex is Some,
            exits: r.exit,
        },
    )
}

/// The record that describes a labelled node.
pub open spec fn record_of_node(p: (Seq<char>, NodeView)) -> NodeJsonView {
    NodeJsonView {
        label: p.0,
        token: if p.1.regex_flag {
            None
        } else if p.1.token.len() > 0 {
            Some(p.1.token)
        } else {
            None
        },
        regex: if p.1.regex_flag {
            Some(p.1.token)
        } else {
            None
        },
        fnc: if p.1.fn_label.len() > 0 {
            Some(p.1.fn_label)
        } else {
            None
        },
        exit: p.1.exits,
    }
}

/// The node table a sequence of records loads into.
pub open spec fn loaded_pairs(records: Seq<NodeJsonView>) -> Seq<(Seq<char>, NodeView)> {
    records.map_values(|r: NodeJsonView| node_of_record(r))
}

/// The records a node table saves to.
pub open spec fn saved_records(pairs: Seq<(Seq<char>, NodeView)>) -> Seq<NodeJsonView> {
    pairs.map_values(|p: (Seq<char>, NodeView)| record_of_node(p))
}

/// Every record's label occurs once in the document, as the format
/// requires.
pub open spec fn document_labels_unique_spec(d: DiagramJsonView) -> bool {
    forall|i: int, j: int|
        0 <= i < j < d.nodes.len() ==> d.nodes[i].label != d.nodes[j].label
}

/// A record in the shape the document format promises: `token` and
/// `regex` never together, neither `token` nor the callback name empty
/// when present.
pub open spec fn record_wf(r: NodeJsonView) -> bool {
    &&& !(r.token is Some && r.regex is Some)
    &&& r.token != Some(Seq::<char>::empty())
    &&& r.fnc != Some(Seq::<char>::empty())
}

/// Loading a record and describing the loaded node again gives the
/// record back.
pub proof fn lemma_record_round_trip(r: NodeJsonView)
    requires
        record_wf(r),
    ensures
        record_of_node(node_of_record(r)) == r,
{
    match r.token {
        Some(t) => {
            if t.len() == 0 {
                assert(t =~= Seq::<char>::empty());
            }
        },
        None => {},
    }
    match r.fnc {
        Some(f) => {
            if f.len() == 0 {
                assert(f =~= Seq::<char>::empty());
            }
        },
        None => {},
    }
}

/// Loading a persisted document and saving it again reproduces the
/// document: the node table a document loads into is
/// `loaded_pairs(d.nodes)` (see [`Diagram::load_document`]), the records
/// a table saves to are `saved_records` of its pairs (see
/// [`Diagram::save_document`]), and for a document of well-shaped
/// records the two compose to the identity.
pub proof fn lemma_document_round_trip(d: DiagramJsonView)
    requires
        forall|i: int| 0 <= i < d.nodes.len() ==> record_wf(#[trigger] d.nodes[i]),
    ensures
        saved_records(loaded_pairs(d.nodes)) == d.nodes,
{
    let loaded = loaded_pairs(d.nodes);
    assert forall|i: int| 0 <= i < d.nodes.len() implies saved_records(loaded)[i] == d.nodes[i] by {
        lemma_record_round_trip(d.nodes[i]);
    }
    assert(saved_records(loaded) =~= d.nodes);
}

impl<C> Diagram<C> {
    /// Replace the nodes and entrances with the document's content; the
    /// registered callbacks stay.  The document's labels must be unique,
    /// as the format requires; `document_labels_unique` decides that.
    pub fn load_document(&mut self, doc: &DiagramJson)
        requires
            document_labels_unique_spec(doc@),
        ensures
            final(self).entrances() == doc@.entrance,
            final(self).nodes() == loaded_pairs(doc@.nodes),
            final(self).fn_map@ == old(self).fn_map@,
    {
        self.clear();
        self.set_entrance_vec(clone_string_vec(&doc.entrance));
        proof {
            assert(self.entrances() =~= doc@.entrance);
        }
        let n = doc.nodes.len();
        for i in 0..n
            invariant
                n == doc.nodes@.len(),
                document_labels_unique_spec(doc@),
                self.entrances() == doc@.entrance,
                self.fn_map@ == old(self).fn_map@,
                self.nodes() =~= loaded_pairs(doc@.nodes.subrange(0, i as int)),
                forall|j: int|
                    i <= j < doc@.nodes.len() ==> !self.has_node_with(
                        #[trigger] doc@.nodes[j].label,
                    ),
        {
            let rec = &doc.nodes[i];
            let ghost pre_nodes = self.nodes();
            let exits2 = clone_exits(&rec.exit);
            let fn2 = match &rec.fnc {
                Some(f) => f.clone(),
                None => String::new(),
            };
            match &rec.token {
                Some(t) => {
                    self.insert_node(rec.label.clone(), t.clone(), fn2, exits2);
                },
                None => {
                    match &rec.regex {
                        Some(p) => {
                            self.insert_node_reg(rec.label.as_str(), p.clone(), fn2, exits2);
                        },
                        None => {
                            self.insert_node(rec.label.clone(), String::new(), fn2, exits2);
                        },
                    }
                },
            }
            proof {
                assert(self.nodes() =~= pre_nodes.push(node_of_record(doc@.nodes[i as int])));
                assert(self.nodes() =~= loaded_pairs(doc@.nodes.subrange(0, i as int + 1)));
                assert forall|j: int|
                    i as int + 1 <= j < doc@.nodes.len() implies !self.has_node_with(
                    #[trigger] doc@.nodes[j].label,
                ) by {
                    assert(doc@.nodes[j].label != doc@.nodes[i as int].label);
                }
            }
        }
        proof {
            assert(doc@.nodes.subrange(0, doc@.nodes.len() as int) =~= doc@.nodes);
        }
    }

    /// Describe the diagram as a persisted document: the entrances in
    /// order, and one record per node of the table.
    pub fn save_document(&self) -> (doc: DiagramJson)
        ensures
            doc@.entrance == self.entrances(),
            doc@.nodes == saved_records(self.nodes()),
    {
        let mut doc = DiagramJson::new();
        doc.entrance = clone_string_vec(&self.entrance_vec);
        proof {
            assert(doc@.entrance =~= self.entrances());
        }
        let n = self.node_map.len();
        for i in 0..n
            invariant
                n == self.node_map@.len(),
                doc@.entrance == self.entrances(),
                doc@.nodes =~= saved_records(self.nodes().subrange(0, i as int)),
        {
            let pair = &self.node_map[i];
            let node = &pair.1;
            let mut rec = NodeJson::new();
            rec.label = pair.0.clone();
            if node.regex_flag {
                rec.regex = Some(node.token.clone());
            } else if !node.token.as_str().is_empty() {
                rec.token = Some(node.token.clone());
            }
            if !node.fn_label.as_str().is_empty() {
                rec.fnc = Some(node.fn_label.clone());
            }
            rec.exit = clone_exits(&node.exits);
            let ghost pre = doc@.nodes;
            doc.nodes.push(rec);
            proof {
                assert(doc@.nodes =~= pre.push(record_of_node(self.nodes()[i as int])));
                assert(doc@.nodes =~= saved_records(self.nodes().subrange(0, i as int + 1)));
            }
        }
        proof {
            assert(self.nodes().subrange(0, self.nodes().len() as int) =~= self.nodes());
        }
        doc
    }
}

/// Decide [`document_labels_unique_spec`].
pub fn document_labels_unique(doc: &DiagramJson) -> (r: bool)
    ensures
        r == document_labels_unique_spec(doc@),
{
    let n = doc.nodes.len();
    for i in 0..n
        invariant
            n == doc.nodes@.len(),
            forall|a: int, b: int| 0 <= a < b < i ==> doc@.nodes[a].label != doc@.nodes[b].label,
    {
        for j in 0..i
            invariant
                i < n == doc.nodes@.len(),
                forall|a: int, b: int|
                    0 <= a < b < i ==> doc@.nodes[a].label != doc@.nodes[b].label,
                forall|a: int| 0 <= a < j ==> doc@.nodes[a].label != doc@.nodes[i as int].label,
        {
            if doc.nodes[j].label == doc.nodes[i].label {
                proof {
                    assert(doc@.nodes[j as int].label == doc.nodes@[j as int].label@);
                    assert(doc@.nodes[i as int].label == doc.nodes@[i as int].label@);
                }
                return false;
            }
        }
    }
    true
}

/// A fresh vector holding the same strings.
fn clone_string_vec(v: &Vec<String>) -> (r: Vec<String>)
    ensures
        r@ == v@,
{
    let mut r: Vec<String> = Vec::new();
    let n = v.len();
    for i in 0..n
        invariant
            n == v@.len(),
            r@ =~= v@.subrange(0, i as int),
    {
        r.push(v[i].clone());
    }
    proof {
        assert(v@.subrange(0, v@.len() as int) =~= v@);
    }
    r
}

/// A fresh exit table describing the same exits.
fn clone_exits(v: &Vec<(String, Vec<String>)>) -> (r: Vec<(String, Vec<String>)>)
    ensures
        exits_view(r@) == exits_view(v@),
{
    let mut r: Vec<(String, Vec<String>)> = Vec::new();
    let n = v.len();
    for i in 0..n
        invariant
            n == v@.len(),
            r@.len() == i,
            forall|j: int| 0 <= j < i ==> #[trigger] exits_view(r@)[j] == exits_view(v@)[j],
    {
        let ghost prior = r@;
        r.push((v[i].0.clone(), clone_string_vec(&v[i].1)));
        proof {
            assert forall|j: int| 0 <= j < i + 1 implies #[trigger] exits_view(r@)[j]
                == exits_view(v@)[j] by {
                assert(exits_view(r@)[j] == (r@[j].0@, labels_view(r@[j].1@)));
                assert(exits_view(v@)[j] == (v@[j].0@, labels_view(v@[j].1@)));
                if j < i {
                    assert(r@[j] == prior[j]);
                    assert(exits_view(prior)[j] == (prior[j].0@, labels_view(prior[j].1@)));
                }
            }
        }
    }
    proof {
        assert(exits_view(r@) =~= exits_view(v@));
    }
    r
}

/// Carry `assoc_insert`'s exact ensures to the view level.
proof fn lemma_inserted_node(pre: Seq<(String, Node)>, post: Seq<(String, Node)>)
    requires
        post.len() == pre.len() + 1 || post.len() == pre.len(),
    ensures
        post.len() == pre.len() + 1 && post =~= pre.push(post.last()) ==> node_pairs_view(post)
            =~= node_pairs_view(pre).push((post.last().0@, post.last().1@)),
{
}

} // verus!
