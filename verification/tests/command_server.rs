use sentinel::accessibility::{ElementSource, Rect};
use sentinel::command_server::{
    classify_line, handle_line, quote, scan_prefix, scan_reply, scan_tree, serve, LocalCommand,
    Reaction, ScanResult, ServerInput, ServerStep, SCAN_DEPTH,
};
use sentinel::effector::{EffectorError, InputStep};

fn node(name: &str, children: Vec<ElementSource>) -> ElementSource {
    ElementSource {
        name: Some(name.to_string()),
        control_type: Some("pane".to_string()),
        bounds: Some(Rect { left: 0, top: 0, right: 1, bottom: 1 }),
        children: Some(children),
    }
}

fn line(text: &str) -> ServerInput {
    ServerInput::Line(text.to_string())
}

#[test]
fn lines_by_what_they_ask_for() {
    assert_eq!(classify_line(""), LocalCommand::Blank);
    assert_eq!(classify_line("   \t"), LocalCommand::Blank);
    assert_eq!(classify_line("SCAN"), LocalCommand::Scan);
    assert_eq!(classify_line("  SCAN\r\n"), LocalCommand::Scan);
    assert_eq!(classify_line("scan"), LocalCommand::Action("scan".to_string()));
    assert_eq!(classify_line("SCAN now"), LocalCommand::Action("SCAN now".to_string()));
    assert_eq!(
        classify_line(" {\"action\": \"TYPE\"} \n"),
        LocalCommand::Action("{\"action\": \"TYPE\"}".to_string())
    );
}

#[test]
fn the_scan_depth() {
    assert_eq!(SCAN_DEPTH, 3);
    assert_eq!(handle_line("SCAN"), Reaction::Scan { depth: 3 });
}

#[test]
fn answers_to_a_scan() {
    assert_eq!(scan_prefix(), "[SCAN_RESULT]");
    assert_eq!(
        scan_reply(&ScanResult::Tree("{\"name\":\"root\"}".to_string())),
        "[SCAN_RESULT]{\"name\":\"root\"}"
    );
    assert_eq!(
        scan_reply(&ScanResult::Failed("access denied".to_string())),
        "[SCAN_RESULT]{\"error\": \"access denied\"}"
    );
    assert_eq!(
        scan_reply(&ScanResult::Unavailable),
        "[SCAN_RESULT]{\"error\": \"UI Automation not initialized\"}"
    );
}

#[test]
fn the_error_of_a_scan_is_a_json_object() {
    let reply = scan_reply(&ScanResult::Failed("no \"root\"\nhere \\".to_string()));
    assert_eq!(reply, "[SCAN_RESULT]{\"error\": \"no \\\"root\\\"\\nhere \\\\\"}");
    assert!(!reply.contains('\n'));
    let body: serde_json::Value = serde_json::from_str(&reply["[SCAN_RESULT]".len()..]).unwrap();
    assert_eq!(body["error"], "no \"root\"\nhere \\");
}

#[test]
fn a_scan_of_three_nodes_answers_with_one_line() {
    let root = node("root", vec![node("a", vec![]), node("b", vec![])]);
    let reply = scan_reply(&scan_tree(Some(&root)));
    assert!(reply.starts_with("[SCAN_RESULT]"));
    assert_eq!(reply.matches("[SCAN_RESULT]").count(), 1);
    assert!(!reply.contains('\n'));
    let tree: serde_json::Value =
        serde_json::from_str(&reply["[SCAN_RESULT]".len()..]).unwrap();
    assert_eq!(tree["name"], "root");
    let children = tree["children"].as_array().unwrap();
    assert_eq!(children.len(), 2);
    assert_eq!(children[0]["name"], "a");
    assert_eq!(children[1]["name"], "b");
    assert!(children.iter().all(|c| c["children"].as_array().unwrap().is_empty()));
}

#[test]
fn a_scan_goes_no_deeper_than_the_scan_depth() {
    let deep = node(
        "d0",
        vec![node("d1", vec![node("d2", vec![node("d3", vec![node("d4", vec![])])])])],
    );
    let reply = scan_reply(&scan_tree(Some(&deep)));
    assert!(reply.contains("\"d3\""));
    assert!(!reply.contains("\"d4\""));
}

#[test]
fn a_scan_that_cannot_be_made() {
    assert_eq!(scan_tree(None), ScanResult::Unavailable);
    let mut unreadable = node("x", vec![]);
    unreadable.name = None;
    assert_eq!(
        scan_tree(Some(&unreadable)),
        ScanResult::Failed("the name of the element cannot be read".to_string())
    );
    assert_eq!(
        scan_reply(&scan_tree(Some(&unreadable))),
        "[SCAN_RESULT]{\"error\": \"the name of the element cannot be read\"}"
    );
}

#[test]
fn an_action_line_is_injected() {
    assert_eq!(
        handle_line(r#"{"action": "TYPE", "payload": {"text": "hi"}}"#),
        Reaction::Inject(vec![InputStep::Text("hi".to_string())])
    );
    assert_eq!(handle_line(""), Reaction::Nothing);
    assert_eq!(handle_line(" \r\n"), Reaction::Nothing);
}

#[test]
fn a_malformed_line_is_refused_and_the_server_goes_on() {
    assert_eq!(
        serve(&line("{not json")),
        ServerStep::Continue(Reaction::Rejected(EffectorError::MalformedJson))
    );
    assert_eq!(
        serve(&line(r#"{"action": "TYPE", "payload": {"text": "next"}}"#)),
        ServerStep::Continue(Reaction::Inject(vec![InputStep::Text("next".to_string())]))
    );
}

#[test]
fn every_line_keeps_the_server_open() {
    let lines = [
        "",
        "SCAN",
        "{not json",
        "null",
        "{\"action\": \"nothing\", \"payload\": 1}",
        "\u{0}",
        "{\"action\": \"KEY\", \"payload\": {\"key\": \"+\"}}",
    ];
    for text in lines {
        assert!(matches!(serve(&line(text)), ServerStep::Continue(_)), "{:?}", text);
    }
}

#[test]
fn the_end_of_input_ends_the_server() {
    assert_eq!(serve(&ServerInput::End), ServerStep::Stop);
    assert_eq!(serve(&ServerInput::ReadFailed), ServerStep::Stop);
}

#[test]
fn messages_are_quoted_as_json_strings() {
    assert_eq!(quote("plain"), "\"plain\"");
    assert_eq!(quote(""), "\"\"");
    assert_eq!(quote("a\"b"), "\"a\\\"b\"");
}
