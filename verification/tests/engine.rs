use diagram_shell::diagram::{Controller, Diagram, Request, Response, ResponseOption};
use diagram_shell::line_parser::{LineParser, RunOutcome};
use diagram_shell::player::DiagramPlayer;

struct Log {
    calls: Vec<String>,
}

enum TestCtl {
    Note(&'static str),
    SetDone(&'static str),
    Quit(&'static str),
    Reload(&'static str),
    Save(&'static str),
    Forward(&'static str, &'static str),
}

impl Controller<Log> for TestCtl {
    fn call(&self, t: &mut Log, _req: &Request, res: &mut Response) {
        match self {
            TestCtl::Note(name) => t.calls.push(name.to_string()),
            TestCtl::SetDone(name) => {
                t.calls.push(name.to_string());
                res.set_done_line(true);
            }
            TestCtl::Quit(name) => {
                t.calls.push(name.to_string());
                res.set_option(ResponseOption::Quits);
            }
            TestCtl::Reload(name) => {
                t.calls.push(name.to_string());
                res.set_option(ResponseOption::Reloads("graph.json".to_string()));
            }
            TestCtl::Save(name) => {
                t.calls.push(name.to_string());
                res.set_option(ResponseOption::Saves("out.json".to_string()));
            }
            TestCtl::Forward(name, exit) => {
                t.calls.push(name.to_string());
                res.forward(exit);
            }
        }
    }
}

fn exits(pairs: &[(&str, &[&str])]) -> Vec<(String, Vec<String>)> {
    pairs
        .iter()
        .map(|(label, cands)| {
            (
                label.to_string(),
                cands.iter().map(|c| c.to_string()).collect(),
            )
        })
        .collect()
}

/// Entry node A (literal "go"), A's default exit to B (literal "north"),
/// B's "#newline" exit to tail Z (callback finish_line), Z's default
/// exit back to A.
fn go_north_diagram() -> Diagram<TestCtl> {
    let mut d: Diagram<TestCtl> = Diagram::new();
    d.set_entrance_vec(vec!["A".to_string()]);
    d.insert_node(
        "A".to_string(),
        "go".to_string(),
        "".to_string(),
        exits(&[("next", &["B"])]),
    );
    d.insert_node(
        "B".to_string(),
        "north".to_string(),
        "".to_string(),
        exits(&[("#newline", &["Z"])]),
    );
    d.insert_node(
        "Z".to_string(),
        "".to_string(),
        "finish_line".to_string(),
        exits(&[("next", &["A"])]),
    );
    d.insert_fn("finish_line", TestCtl::Note("finish_line"));
    d
}

fn run_line(
    d: &Diagram<TestCtl>,
    player: &mut DiagramPlayer,
    log: &mut Log,
    line: &str,
) -> (RunOutcome, Request, Response) {
    let mut req = Request::new(line.to_string());
    let mut res = Response::new();
    let outcome = LineParser::run(player, d, log, &mut req, &mut res);
    (outcome, req, res)
}

#[test]
fn go_north_drives_entry_tokens_and_newline_protocol() {
    let d = go_north_diagram();
    assert!(d.validate());
    let mut player = DiagramPlayer::new();
    let mut log = Log { calls: vec![] };
    let (outcome, req, _res) = run_line(&d, &mut player, &mut log, "go north");
    assert_eq!(outcome, RunOutcome::LineDone);
    assert_eq!(req.get_caret(), 8);
    assert_eq!(player.get_current(), "A");
    assert_eq!(log.calls, vec!["finish_line".to_string()]);
}

#[test]
fn second_line_parses_from_primed_head_node() {
    let d = go_north_diagram();
    let mut player = DiagramPlayer::new();
    let mut log = Log { calls: vec![] };
    let (first, _, _) = run_line(&d, &mut player, &mut log, "go north");
    assert_eq!(first, RunOutcome::LineDone);
    let (second, req, _) = run_line(&d, &mut player, &mut log, "go north");
    assert_eq!(second, RunOutcome::LineDone);
    assert_eq!(req.get_caret(), 8);
    assert_eq!(player.get_current(), "A");
    assert_eq!(
        log.calls,
        vec!["finish_line".to_string(), "finish_line".to_string()]
    );
}

#[test]
fn unmatched_entry_fires_else_callback_exactly_once() {
    let mut d = go_north_diagram();
    d.insert_node_single("#else", "else_cb".to_string());
    d.insert_fn("else_cb", TestCtl::Note("else_cb"));
    let mut player = DiagramPlayer::new();
    let mut log = Log { calls: vec![] };
    let (outcome, req, _) = run_line(&d, &mut player, &mut log, "fly north");
    assert_eq!(outcome, RunOutcome::Unmatched);
    assert_eq!(log.calls, vec!["else_cb".to_string()]);
    assert_eq!(req.get_caret(), 0);
    assert!(player.is_out());
}

#[test]
fn unmatched_entry_without_else_node_is_absorbed() {
    let d = go_north_diagram();
    let mut player = DiagramPlayer::new();
    let mut log = Log { calls: vec![] };
    let (outcome, _, _) = run_line(&d, &mut player, &mut log, "fly north");
    assert_eq!(outcome, RunOutcome::Unmatched);
    assert!(log.calls.is_empty());
}

#[test]
fn unmatched_mid_line_stops_processing() {
    let mut d = go_north_diagram();
    d.insert_node_single("#else", "else_cb".to_string());
    d.insert_fn("else_cb", TestCtl::Note("else_cb"));
    let mut player = DiagramPlayer::new();
    let mut log = Log { calls: vec![] };
    let (outcome, req, _) = run_line(&d, &mut player, &mut log, "go south");
    assert_eq!(outcome, RunOutcome::Unmatched);
    // "go" and its separating space were consumed before the miss
    assert_eq!(req.get_caret(), 3);
    assert_eq!(log.calls, vec!["else_cb".to_string()]);
    assert!(player.is_out());
}

#[test]
fn done_flag_ends_line_and_newline_protocol_still_runs() {
    let mut d = go_north_diagram();
    d.insert_node(
        "B".to_string(),
        "north".to_string(),
        "set_done".to_string(),
        exits(&[("#newline", &["Z"])]),
    );
    d.insert_fn("set_done", TestCtl::SetDone("set_done"));
    let mut player = DiagramPlayer::new();
    let mut log = Log { calls: vec![] };
    let (outcome, req, _) = run_line(&d, &mut player, &mut log, "go north and more");
    assert_eq!(outcome, RunOutcome::LineDone);
    assert_eq!(req.get_caret(), "go north and more".len());
    assert_eq!(
        log.calls,
        vec!["set_done".to_string(), "finish_line".to_string()]
    );
    assert_eq!(player.get_current(), "A");
}

#[test]
fn quit_signal_returns_immediately_and_skips_newline_protocol() {
    let mut d = go_north_diagram();
    d.insert_node(
        "B".to_string(),
        "north".to_string(),
        "set_quit".to_string(),
        exits(&[("#newline", &["Z"])]),
    );
    d.insert_fn("set_quit", TestCtl::Quit("set_quit"));
    let mut player = DiagramPlayer::new();
    let mut log = Log { calls: vec![] };
    let (outcome, _req, res) = run_line(&d, &mut player, &mut log, "go north");
    assert_eq!(outcome, RunOutcome::Signalled);
    assert_eq!(res.option, ResponseOption::Quits);
    // the tail callback never ran
    assert_eq!(log.calls, vec!["set_quit".to_string()]);
    assert_eq!(player.get_current(), "B");
}

#[test]
fn reload_signal_carries_its_path() {
    let mut d = go_north_diagram();
    d.insert_node(
        "B".to_string(),
        "north".to_string(),
        "ask_reload".to_string(),
        exits(&[("#newline", &["Z"])]),
    );
    d.insert_fn("ask_reload", TestCtl::Reload("ask_reload"));
    let mut player = DiagramPlayer::new();
    let mut log = Log { calls: vec![] };
    let (outcome, _req, res) = run_line(&d, &mut player, &mut log, "go north");
    assert_eq!(outcome, RunOutcome::Signalled);
    assert_eq!(res.option, ResponseOption::Reloads("graph.json".to_string()));
}

#[test]
fn save_signal_carries_its_path() {
    let mut d = go_north_diagram();
    d.insert_node(
        "B".to_string(),
        "north".to_string(),
        "ask_save".to_string(),
        exits(&[("#newline", &["Z"])]),
    );
    d.insert_fn("ask_save", TestCtl::Save("ask_save"));
    let mut player = DiagramPlayer::new();
    let mut log = Log { calls: vec![] };
    let (outcome, _req, res) = run_line(&d, &mut player, &mut log, "go north");
    assert_eq!(outcome, RunOutcome::Signalled);
    assert_eq!(res.option, ResponseOption::Saves("out.json".to_string()));
}

#[test]
fn callback_forwarding_selects_the_exit() {
    let mut d = go_north_diagram();
    d.insert_node(
        "A".to_string(),
        "go".to_string(),
        "fw".to_string(),
        exits(&[("next", &["B"]), ("alt", &["S"])]),
    );
    d.insert_node(
        "S".to_string(),
        "south".to_string(),
        "".to_string(),
        exits(&[("#newline", &["Z"])]),
    );
    d.insert_fn("fw", TestCtl::Forward("fw", "alt"));
    let mut player = DiagramPlayer::new();
    let mut log = Log { calls: vec![] };
    let (outcome, req, _) = run_line(&d, &mut player, &mut log, "go south");
    assert_eq!(outcome, RunOutcome::LineDone);
    assert_eq!(req.get_caret(), 8);
    assert_eq!(log.calls, vec!["fw".to_string(), "finish_line".to_string()]);
    assert_eq!(player.get_current(), "A");
}

#[test]
fn unregistered_callback_name_is_skipped() {
    let mut d = go_north_diagram();
    d.insert_node(
        "B".to_string(),
        "north".to_string(),
        "never_registered".to_string(),
        exits(&[("#newline", &["Z"])]),
    );
    let mut player = DiagramPlayer::new();
    let mut log = Log { calls: vec![] };
    let (outcome, _, _) = run_line(&d, &mut player, &mut log, "go north");
    assert_eq!(outcome, RunOutcome::LineDone);
    assert_eq!(log.calls, vec!["finish_line".to_string()]);
}

#[test]
fn missing_newline_exit_is_reported() {
    let mut d = go_north_diagram();
    d.insert_node(
        "B".to_string(),
        "north".to_string(),
        "".to_string(),
        exits(&[]),
    );
    let mut player = DiagramPlayer::new();
    let mut log = Log { calls: vec![] };
    let (outcome, _, _) = run_line(&d, &mut player, &mut log, "go north");
    assert_eq!(outcome, RunOutcome::MissingNewlineExit);
    assert_eq!(player.get_current(), "B");
}

#[test]
fn missing_tail_default_exit_is_reported() {
    let mut d = go_north_diagram();
    d.insert_node(
        "Z".to_string(),
        "".to_string(),
        "finish_line".to_string(),
        exits(&[("other", &["A"])]),
    );
    let mut player = DiagramPlayer::new();
    let mut log = Log { calls: vec![] };
    let (outcome, _, _) = run_line(&d, &mut player, &mut log, "go north");
    assert_eq!(outcome, RunOutcome::MissingTailExit);
    // the tail callback runs before the tail's default exit is consulted
    assert_eq!(log.calls, vec!["finish_line".to_string()]);
}

#[test]
fn empty_line_with_cursor_outside_is_reported() {
    let d = go_north_diagram();
    let mut player = DiagramPlayer::new();
    let mut log = Log { calls: vec![] };
    let (outcome, _, _) = run_line(&d, &mut player, &mut log, "");
    assert_eq!(outcome, RunOutcome::OutsideAtLineEnd);
    assert!(log.calls.is_empty());
}

#[test]
fn empty_line_with_cursor_inside_runs_newline_protocol() {
    let d = go_north_diagram();
    let mut player = DiagramPlayer::new();
    player.set_current("B");
    let mut log = Log { calls: vec![] };
    let (outcome, _, _) = run_line(&d, &mut player, &mut log, "");
    assert_eq!(outcome, RunOutcome::LineDone);
    assert_eq!(log.calls, vec!["finish_line".to_string()]);
    assert_eq!(player.get_current(), "A");
}

#[test]
fn zero_width_match_stalls_the_line() {
    let mut d: Diagram<TestCtl> = Diagram::new();
    d.set_entrance_vec(vec!["E".to_string()]);
    d.insert_node("E".to_string(), "".to_string(), "".to_string(), exits(&[]));
    let mut player = DiagramPlayer::new();
    let mut log = Log { calls: vec![] };
    let (outcome, req, _) = run_line(&d, &mut player, &mut log, "xyz");
    assert_eq!(outcome, RunOutcome::Stalled);
    assert_eq!(req.get_caret(), 0);
}

#[test]
fn entry_resolution_is_noop_when_already_inside() {
    let d = go_north_diagram();
    let mut player = DiagramPlayer::new();
    player.set_current("B");
    let mut req = Request::new("go north".to_string());
    player.enter_when_out(&d, &mut req);
    assert_eq!(player.get_current(), "B");
    assert_eq!(req.get_caret(), 0);
}

#[test]
fn entry_resolution_twice_keeps_the_first_entrance() {
    let d = go_north_diagram();
    let mut player = DiagramPlayer::new();
    let mut req = Request::new("go north".to_string());
    player.enter_when_out(&d, &mut req);
    assert_eq!(player.get_current(), "A");
    player.enter_when_out(&d, &mut req);
    assert_eq!(player.get_current(), "A");
}

#[test]
fn entry_scans_entrances_in_order() {
    let mut d = go_north_diagram();
    d.set_entrance_vec(vec!["B".to_string(), "A".to_string()]);
    let mut player = DiagramPlayer::new();
    let mut req = Request::new("go north".to_string());
    player.enter_when_out(&d, &mut req);
    assert_eq!(player.get_current(), "A");
}
