use diagram_shell::diagram::{
    document_labels_unique, Controller, Diagram, DiagramJson, Node, NodeJson, Request, Response,
};
use diagram_shell::line_parser::LineParser;

struct NoCtl;

impl Controller<()> for NoCtl {
    fn call(&self, _t: &mut (), _req: &Request, _res: &mut Response) {}
}

fn exit_table(pairs: &[(&str, &[&str])]) -> Vec<(String, Vec<String>)> {
    pairs
        .iter()
        .map(|(label, cands)| {
            (
                label.to_string(),
                cands.iter().map(|c| c.to_string()).collect(),
            )
        })
        .collect()
}

fn literal_node(token: &str) -> Node {
    Node {
        token: token.to_string(),
        fn_label: String::new(),
        regex_flag: false,
        exits: Vec::new(),
    }
}

fn regex_node(pattern: &str) -> Node {
    Node {
        token: pattern.to_string(),
        fn_label: String::new(),
        regex_flag: true,
        exits: Vec::new(),
    }
}

#[test]
fn literal_consumption_advances_by_token_length_plus_one_space() {
    let node = literal_node("go");
    let req = Request::new("go north".to_string());
    let mut res = Response::new();
    LineParser::parse_literal(&node, &req, &mut res);
    assert_eq!(res.caret, 3); // "go" plus exactly one separating space

    let req = Request::new("go".to_string());
    let mut res = Response::new();
    LineParser::parse_literal(&node, &req, &mut res);
    assert_eq!(res.caret, 2); // no trailing space to elide

    let req = Request::new("go  north".to_string());
    let mut res = Response::new();
    LineParser::parse_literal(&node, &req, &mut res);
    assert_eq!(res.caret, 3); // never a second space
}

#[test]
fn literal_match_is_exact_prefix_at_caret() {
    let node = literal_node("north");
    let mut req = Request::new("go north".to_string());
    assert!(!LineParser::starts_with_literal(&node, &req));
    req.caret = 3;
    assert!(LineParser::starts_with_literal(&node, &req));
    req.caret = 4;
    assert!(!LineParser::starts_with_literal(&node, &req));
}

#[test]
fn regex_match_fills_groups_and_advances_by_group_char_length() {
    let node = regex_node("[0-9]+");
    let mut req = Request::new("123 north 45".to_string());
    assert!(LineParser::starts_with_reg(&node, &mut req));
    // one entry per match, first match first; a copy, not the input line
    assert_eq!(
        *req.get_groups(),
        vec!["123".to_string(), "45".to_string()]
    );
    let mut res = Response::new();
    LineParser::parse_reg(&req, &mut res);
    assert_eq!(res.caret, 4); // three digits plus one separating space
}

#[test]
fn regex_mismatch_leaves_groups_alone() {
    let node = regex_node("[0-9]+");
    let mut req = Request::new("go north".to_string());
    assert!(!LineParser::starts_with_reg(&node, &mut req));
    assert!(req.get_groups().is_empty());
}

#[test]
fn rejected_regex_pattern_matches_nothing() {
    let node = regex_node("[");
    let mut req = Request::new("go north".to_string());
    assert!(!LineParser::starts_with_reg(&node, &mut req));
    assert!(req.get_groups().is_empty());
}

#[test]
fn regex_searches_the_rest_of_the_line() {
    let node = regex_node("no[a-z]+");
    let mut req = Request::new("go north".to_string());
    assert!(LineParser::starts_with_reg(&node, &mut req));
    assert_eq!(*req.get_groups(), vec!["north".to_string()]);
}

#[test]
fn node_accessors_reflect_what_was_inserted() {
    let mut d: Diagram<NoCtl> = Diagram::new();
    d.insert_node(
        "A".to_string(),
        "go".to_string(),
        "cb".to_string(),
        exit_table(&[("next", &["B", "C"])]),
    );
    assert!(d.contains_node("A"));
    assert!(!d.contains_node("B"));
    let node = d.get_node("A");
    assert_eq!(node.get_token(), "go");
    assert_eq!(node.get_fn_label(), "cb");
    assert!(!node.is_regex());
    assert!(node.contains_exits("next"));
    assert!(!node.contains_exits("#newline"));
    assert_eq!(
        *node.get_exits("next"),
        vec!["B".to_string(), "C".to_string()]
    );
    assert_eq!(node.get_exits_map().len(), 1);
    assert_eq!(d.get_node_map().len(), 1);
}

#[test]
fn duplicate_insertion_overwrites_the_node() {
    let mut d: Diagram<NoCtl> = Diagram::new();
    d.insert_node(
        "A".to_string(),
        "go".to_string(),
        "".to_string(),
        Vec::new(),
    );
    d.insert_node_reg("A", "[0-9]+".to_string(), "cb".to_string(), Vec::new());
    assert_eq!(d.get_node_map().len(), 1);
    let node = d.get_node("A");
    assert!(node.is_regex());
    assert_eq!(node.get_token(), "[0-9]+");
    assert_eq!(node.get_fn_label(), "cb");
}

#[test]
fn single_node_has_no_token_and_no_exits() {
    let mut d: Diagram<NoCtl> = Diagram::new();
    d.insert_node_single("#else", "cb".to_string());
    let node = d.get_node("#else");
    assert_eq!(node.get_token(), "");
    assert!(!node.is_regex());
    assert!(node.get_exits_map().is_empty());
}

#[test]
fn clear_keeps_registered_callbacks() {
    let mut d: Diagram<NoCtl> = Diagram::new();
    d.set_entrance_vec(vec!["A".to_string()]);
    d.insert_node(
        "A".to_string(),
        "go".to_string(),
        "".to_string(),
        Vec::new(),
    );
    d.insert_fn("cb", NoCtl);
    d.clear();
    assert!(d.get_node_map().is_empty());
    assert!(d.get_entrance_vec().is_empty());
    assert!(d.contains_fn("cb"));
    assert!(!d.contains_fn("other"));
}

#[test]
fn validate_accepts_sound_graphs_and_rejects_dangling_exits() {
    let mut d: Diagram<NoCtl> = Diagram::new();
    d.set_entrance_vec(vec!["A".to_string()]);
    d.insert_node(
        "A".to_string(),
        "go".to_string(),
        "".to_string(),
        exit_table(&[("next", &["A"])]),
    );
    assert!(d.validate());
    d.insert_node(
        "B".to_string(),
        "x".to_string(),
        "".to_string(),
        exit_table(&[("next", &["missing"])]),
    );
    assert!(!d.validate());
}

#[test]
fn validate_rejects_invalid_regex_patterns() {
    let mut d: Diagram<NoCtl> = Diagram::new();
    d.set_entrance_vec(vec!["R".to_string()]);
    d.insert_node_reg("R", "[0-9]+".to_string(), "".to_string(), Vec::new());
    assert!(d.validate());
    d.insert_node_reg("R", "[".to_string(), "".to_string(), Vec::new());
    assert!(!d.validate());
}

#[test]
fn validate_rejects_empty_entrance_labels() {
    let mut d: Diagram<NoCtl> = Diagram::new();
    d.set_entrance_vec(vec!["".to_string()]);
    d.insert_node("".to_string(), "go".to_string(), "".to_string(), Vec::new());
    assert!(!d.validate());
}

#[test]
fn empty_controller_value_is_registrable() {
    let mut d: Diagram<diagram_shell::diagram::EmptyController> = Diagram::new();
    d.insert_fn("noop", diagram_shell::diagram::EmptyController);
    assert!(d.contains_fn("noop"));
}

#[test]
fn validate_rejects_unknown_entrances_and_empty_candidate_lists() {
    let mut d: Diagram<NoCtl> = Diagram::new();
    d.set_entrance_vec(vec!["ghost".to_string()]);
    assert!(!d.validate());
    let mut d2: Diagram<NoCtl> = Diagram::new();
    d2.insert_node(
        "A".to_string(),
        "go".to_string(),
        "".to_string(),
        exit_table(&[("next", &[])]),
    );
    assert!(!d2.validate());
}

fn sample_document() -> DiagramJson {
    let mut doc = DiagramJson::new();
    doc.entrance = vec!["A".to_string(), "R".to_string()];
    doc.nodes = vec![
        NodeJson {
            label: "A".to_string(),
            token: Some("go".to_string()),
            regex: None,
            fnc: None,
            exit: exit_table(&[("next", &["B"])]),
        },
        NodeJson {
            label: "B".to_string(),
            token: Some("north".to_string()),
            regex: None,
            fnc: Some("cb".to_string()),
            exit: exit_table(&[("#newline", &["Z"])]),
        },
        NodeJson {
            label: "R".to_string(),
            token: None,
            regex: Some("[0-9]+".to_string()),
            fnc: None,
            exit: exit_table(&[("next", &["B"])]),
        },
        NodeJson {
            label: "Z".to_string(),
            token: None,
            regex: None,
            fnc: Some("finish_line".to_string()),
            exit: exit_table(&[("next", &["A"])]),
        },
    ];
    doc
}

#[test]
fn loading_then_saving_reproduces_the_document() {
    let doc = sample_document();
    assert!(document_labels_unique(&doc));
    let mut d: Diagram<NoCtl> = Diagram::new();
    d.load_document(&doc);
    let saved = d.save_document();
    assert_eq!(saved, doc);
}

#[test]
fn loading_maps_records_onto_nodes() {
    let doc = sample_document();
    let mut d: Diagram<NoCtl> = Diagram::new();
    d.load_document(&doc);
    assert_eq!(
        *d.get_entrance_vec(),
        vec!["A".to_string(), "R".to_string()]
    );
    assert!(d.get_node("R").is_regex());
    assert_eq!(d.get_node("R").get_token(), "[0-9]+");
    assert_eq!(d.get_node("B").get_fn_label(), "cb");
    assert_eq!(d.get_node("Z").get_token(), "");
    assert_eq!(*d.get_node("Z").get_exits("next"), vec!["A".to_string()]);
    assert!(d.validate());
}

#[test]
fn document_label_uniqueness_is_detected() {
    let mut doc = sample_document();
    assert!(document_labels_unique(&doc));
    doc.nodes.push(NodeJson {
        label: "A".to_string(),
        token: None,
        regex: None,
        fnc: None,
        exit: Vec::new(),
    });
    assert!(!document_labels_unique(&doc));
}

#[test]
fn response_reset_restores_defaults() {
    let mut res = Response::new();
    res.set_caret(7);
    res.set_done_line(true);
    res.forward("next");
    res.reset();
    assert_eq!(res.caret, 0);
    assert!(!res.done_line);
    assert_eq!(res.exit_label, "");
}

#[test]
fn caret_counts_characters_not_bytes() {
    let node = literal_node("héllo");
    let req = Request::new("héllo x".to_string());
    assert_eq!(req.get_line_len(), 7);
    assert!(LineParser::starts_with_literal(&node, &req));
    let mut res = Response::new();
    LineParser::parse_literal(&node, &req, &mut res);
    assert_eq!(res.caret, 6); // five characters and one space

    let reg = regex_node("é+");
    let mut req = Request::new("ééx".to_string());
    assert!(LineParser::starts_with_reg(&reg, &mut req));
    let mut res = Response::new();
    LineParser::parse_reg(&req, &mut res);
    assert_eq!(res.caret, 2); // two characters, no space
}

#[test]
fn empty_controller_changes_nothing() {
    let mut unit: () = ();
    let req = Request::new("go".to_string());
    let mut res = Response::new();
    diagram_shell::diagram::empty_controller(&mut unit, &req, &mut res);
    assert_eq!(res.caret, 0);
    assert!(!res.done_line);
}

#[test]
fn request_exposes_line_caret_and_groups() {
    let req = Request::new("go north".to_string());
    assert_eq!(req.get_line().as_str(), "go north");
    assert_eq!(req.get_line_len(), 8);
    assert_eq!(req.get_caret(), 0);
    assert!(req.get_groups().is_empty());
}
