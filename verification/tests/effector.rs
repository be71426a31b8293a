use sentinel::effector::{
    combo_key_from, combo_steps_of, command_kind_from, command_steps, delay_ms,
    execute_action_json, kind_steps, press_key_steps, single_key_from, single_key_steps,
    ActionKind, ActionPayload, ActionProposal, Direction, Effector, EffectorError, InputStep,
    Key, DEFAULT_DELAY_MS, RETURN_SETTLE_MS,
};
use sentinel::json::Json;

fn payload(text: &str) -> Json {
    Json::parse(text).unwrap()
}

fn click(key: Key) -> InputStep {
    InputStep::Key { key, direction: Direction::Click }
}

fn press(key: Key) -> InputStep {
    InputStep::Key { key, direction: Direction::Press }
}

fn release(key: Key) -> InputStep {
    InputStep::Key { key, direction: Direction::Release }
}

fn proposal(intent: &str, payload_text: &str) -> ActionProposal {
    ActionProposal {
        id: "0123456789abcdef".to_string(),
        intent: intent.to_string(),
        payload: payload(payload_text),
        domain: "desktop".to_string(),
        status: "approved".to_string(),
    }
}

#[test]
fn the_timing_constants() {
    assert_eq!(DEFAULT_DELAY_MS, 100);
    assert_eq!(RETURN_SETTLE_MS, 800);
}

#[test]
fn named_keys() {
    let table = [
        ("enter", Key::Return),
        ("RETURN", Key::Return),
        ("esc", Key::Escape),
        ("Escape", Key::Escape),
        ("space", Key::Space),
        ("tab", Key::Tab),
        ("backspace", Key::Backspace),
        ("delete", Key::Delete),
        ("left", Key::LeftArrow),
        ("right", Key::RightArrow),
        ("up", Key::UpArrow),
        ("down", Key::DownArrow),
        ("home", Key::Home),
        ("end", Key::End),
        ("pageup", Key::PageUp),
        ("PageDown", Key::PageDown),
        ("gui", Key::Meta),
        ("meta", Key::Meta),
        ("windows", Key::Meta),
    ];
    for (name, key) in table {
        let steps = press_key_steps(name).unwrap();
        assert_eq!(steps[0], click(key), "{}", name);
    }
}

#[test]
fn return_is_followed_by_the_settle_pause() {
    assert_eq!(
        press_key_steps("enter").unwrap(),
        vec![click(Key::Return), InputStep::Wait { ms: 800 }]
    );
    assert_eq!(press_key_steps("tab").unwrap(), vec![click(Key::Tab)]);
}

#[test]
fn a_single_character_keeps_its_case() {
    assert_eq!(press_key_steps("a").unwrap(), vec![click(Key::Unicode('a'))]);
    assert_eq!(press_key_steps("A").unwrap(), vec![click(Key::Unicode('A'))]);
    assert_eq!(press_key_steps("7").unwrap(), vec![click(Key::Unicode('7'))]);
    assert_eq!(press_key_steps(" ").unwrap(), vec![click(Key::Unicode(' '))]);
}

#[test]
fn unknown_keys_are_refused() {
    assert_eq!(press_key_steps("f13x"), Err(EffectorError::UnknownKey("f13x".to_string())));
    assert_eq!(press_key_steps(""), Err(EffectorError::UnknownKey("".to_string())));
    assert_eq!(press_key_steps("é"), Err(EffectorError::UnknownKey("é".to_string())));
    assert_eq!(press_key_steps("win"), Err(EffectorError::UnknownKey("win".to_string())));
    assert_eq!(press_key_steps("ctrl"), Err(EffectorError::UnknownKey("ctrl".to_string())));
}

#[test]
fn a_combination_presses_in_order_and_releases_in_reverse() {
    assert_eq!(
        press_key_steps("ctrl+shift+k").unwrap(),
        vec![
            press(Key::Control),
            press(Key::Shift),
            press(Key::Unicode('K')),
            release(Key::Unicode('K')),
            release(Key::Shift),
            release(Key::Control),
        ]
    );
    assert_eq!(
        press_key_steps("win+r").unwrap(),
        vec![
            press(Key::Meta),
            press(Key::Unicode('R')),
            release(Key::Unicode('R')),
            release(Key::Meta),
        ]
    );
}

#[test]
fn the_parts_of_a_combination_are_trimmed() {
    assert_eq!(
        press_key_steps(" alt + a ").unwrap(),
        vec![
            press(Key::Alt),
            press(Key::Unicode('A')),
            release(Key::Unicode('A')),
            release(Key::Alt),
        ]
    );
}

#[test]
fn every_modifier_name() {
    for (name, key) in [
        ("win", Key::Meta),
        ("GUI", Key::Meta),
        ("meta", Key::Meta),
        ("Windows", Key::Meta),
        ("ctrl", Key::Control),
        ("control", Key::Control),
        ("alt", Key::Alt),
        ("shift", Key::Shift),
    ] {
        let steps = press_key_steps(&format!("{}+x", name)).unwrap();
        assert_eq!(steps[0], press(key), "{}", name);
        assert_eq!(steps.len(), 4);
    }
}

#[test]
fn a_combination_with_an_unknown_part_presses_nothing() {
    assert_eq!(
        press_key_steps("ctrl+enter"),
        Err(EffectorError::UnknownComboPart("ENTER".to_string()))
    );
    assert_eq!(press_key_steps("ctrl+"), Err(EffectorError::UnknownComboPart("".to_string())));
    assert_eq!(press_key_steps("+"), Err(EffectorError::UnknownComboPart("".to_string())));
    assert_eq!(
        press_key_steps("foo+bar"),
        Err(EffectorError::UnknownComboPart("FOO".to_string()))
    );
    assert_eq!(
        press_key_steps("a+bar+baz"),
        Err(EffectorError::UnknownComboPart("BAR".to_string()))
    );
}

#[test]
fn key_readers_on_given_names() {
    assert_eq!(single_key_from("enter", "ENTER"), Ok(Key::Return));
    assert_eq!(single_key_from("q", "Q"), Ok(Key::Unicode('q')));
    assert_eq!(single_key_from("qq", "QQ"), Err(EffectorError::UnknownKey("qq".to_string())));
    assert_eq!(combo_key_from("SHIFT"), Ok(Key::Shift));
    assert_eq!(combo_key_from("Q"), Ok(Key::Unicode('Q')));
    assert_eq!(combo_key_from("TAB"), Err(EffectorError::UnknownComboPart("TAB".to_string())));
}

#[test]
fn the_steps_of_given_keys() {
    assert_eq!(combo_steps_of(&vec![]), vec![]);
    assert_eq!(
        combo_steps_of(&vec![Key::Control, Key::Alt]),
        vec![press(Key::Control), press(Key::Alt), release(Key::Alt), release(Key::Control)]
    );
    assert_eq!(
        combo_steps_of(&vec![Key::Shift]),
        vec![press(Key::Shift), release(Key::Shift)]
    );
}

#[test]
fn the_steps_of_a_key_with_its_name_in_upper_case() {
    assert_eq!(
        single_key_steps("enter", "ENTER"),
        Ok(vec![click(Key::Return), InputStep::Wait { ms: 800 }])
    );
    assert_eq!(single_key_steps("esc", "ESC"), Ok(vec![click(Key::Escape)]));
    assert_eq!(single_key_steps("x", "X"), Ok(vec![click(Key::Unicode('x'))]));
    assert_eq!(
        single_key_steps("ctrl", "CTRL"),
        Err(EffectorError::UnknownKey("ctrl".to_string()))
    );
    assert_eq!(single_key_steps("enter", "enter"), Err(EffectorError::UnknownKey("enter".to_string())));
}

#[test]
fn combinations_of_modifiers() {
    assert_eq!(
        press_key_steps("ctrl+alt"),
        Ok(vec![press(Key::Control), press(Key::Alt), release(Key::Alt), release(Key::Control)])
    );
    assert_eq!(
        press_key_steps("ctrl+foo"),
        Err(EffectorError::UnknownComboPart("FOO".to_string()))
    );
}

#[test]
fn kinds_of_commands() {
    assert_eq!(command_kind_from("TYPE"), Some(ActionKind::TypeText));
    assert_eq!(command_kind_from("KEY"), Some(ActionKind::PressKey));
    assert_eq!(command_kind_from("CLICK"), Some(ActionKind::Click));
    assert_eq!(command_kind_from("TYPE_TEXT"), None);
    assert_eq!(command_kind_from("type"), None);
    assert_eq!(command_kind_from(""), None);
}

#[test]
fn payloads_are_read_by_kind() {
    assert_eq!(
        ActionPayload::read(ActionKind::TypeText, &payload(r#"{"text": "hi\u0000"}"#)),
        Ok(ActionPayload::TypeText { text: "hi\0".to_string() })
    );
    assert_eq!(
        ActionPayload::read(ActionKind::Click, &payload(r#"{"x": 10, "y": -20}"#)),
        Ok(ActionPayload::Click { x: 10, y: -20 })
    );
    assert_eq!(
        ActionPayload::read(ActionKind::PressKey, &payload(r#"{"key": "ctrl+k"}"#)),
        Ok(ActionPayload::PressKey { key: "ctrl+k".to_string() })
    );
}

#[test]
fn payloads_with_missing_members_are_refused() {
    assert_eq!(
        ActionPayload::read(ActionKind::TypeText, &payload("{}")),
        Err(EffectorError::MissingText)
    );
    assert_eq!(
        ActionPayload::read(ActionKind::TypeText, &payload(r#"{"text": 5}"#)),
        Err(EffectorError::MissingText)
    );
    assert_eq!(
        ActionPayload::read(ActionKind::Click, &payload(r#"{"y": 1}"#)),
        Err(EffectorError::MissingX)
    );
    assert_eq!(
        ActionPayload::read(ActionKind::Click, &payload(r#"{"x": 1}"#)),
        Err(EffectorError::MissingY)
    );
    assert_eq!(
        ActionPayload::read(ActionKind::Click, &payload(r#"{"x": 1.5, "y": 1}"#)),
        Err(EffectorError::MissingX)
    );
    assert_eq!(
        ActionPayload::read(ActionKind::Click, &payload(r#"{"x": "1", "y": 1}"#)),
        Err(EffectorError::MissingX)
    );
    assert_eq!(
        ActionPayload::read(ActionKind::PressKey, &payload(r#"{"text": "a"}"#)),
        Err(EffectorError::MissingKey)
    );
    assert_eq!(
        ActionPayload::read(ActionKind::PressKey, &Json::Null),
        Err(EffectorError::MissingKey)
    );
}

#[test]
fn a_coordinate_outside_32_bits_is_refused() {
    assert_eq!(
        ActionPayload::read(ActionKind::Click, &payload(r#"{"x": 4294967297, "y": 2147483648}"#)),
        Err(EffectorError::CoordinateOutOfRange)
    );
    assert_eq!(
        ActionPayload::read(ActionKind::Click, &payload(r#"{"x": 0, "y": 2147483648}"#)),
        Err(EffectorError::CoordinateOutOfRange)
    );
    assert_eq!(
        ActionPayload::read(ActionKind::Click, &payload(r#"{"x": -2147483649, "y": 0}"#)),
        Err(EffectorError::CoordinateOutOfRange)
    );
    assert_eq!(
        ActionPayload::read(ActionKind::Click, &payload(r#"{"x": 4294967297}"#)),
        Err(EffectorError::MissingY)
    );
    assert_eq!(
        ActionPayload::read(
            ActionKind::Click,
            &payload(r#"{"x": -2147483648, "y": 2147483647}"#)
        ),
        Ok(ActionPayload::Click { x: i32::MIN, y: i32::MAX })
    );
    assert_eq!(
        execute_action_json(r#"{"action": "CLICK", "payload": {"x": 1, "y": 9999999999}}"#),
        Err(EffectorError::CoordinateOutOfRange)
    );
}

#[test]
fn the_pause_of_a_payload() {
    assert_eq!(delay_ms(&payload("{}")), 100);
    assert_eq!(delay_ms(&payload(r#"{"delay_ms": 250}"#)), 250);
    assert_eq!(delay_ms(&payload(r#"{"delay_ms": 0}"#)), 0);
    assert_eq!(delay_ms(&payload(r#"{"delay_ms": -5}"#)), 100);
    assert_eq!(delay_ms(&payload(r#"{"delay_ms": "250"}"#)), 100);
    assert_eq!(delay_ms(&Json::Null), 100);
}

#[test]
fn steps_of_each_kind() {
    assert_eq!(
        kind_steps(ActionKind::TypeText, &payload(r#"{"text": "a\u0007b\tc"}"#)),
        Ok(vec![InputStep::Text("ab\tc".to_string())])
    );
    assert_eq!(
        kind_steps(ActionKind::Click, &payload(r#"{"x": 3, "y": 4}"#)),
        Ok(vec![
            InputStep::MoveMouse { x: 3, y: 4 },
            InputStep::Wait { ms: 100 },
            InputStep::ClickLeft,
        ])
    );
    assert_eq!(
        kind_steps(ActionKind::Click, &payload(r#"{"x": 3, "y": 4, "delay_ms": 7}"#)),
        Ok(vec![
            InputStep::MoveMouse { x: 3, y: 4 },
            InputStep::Wait { ms: 7 },
            InputStep::ClickLeft,
        ])
    );
    assert_eq!(
        kind_steps(ActionKind::PressKey, &payload(r#"{"key": "esc"}"#)),
        Ok(vec![click(Key::Escape)])
    );
    assert_eq!(
        kind_steps(ActionKind::PressKey, &payload(r#"{"key": "nokey"}"#)),
        Err(EffectorError::UnknownKey("nokey".to_string()))
    );
}

#[test]
fn the_effector_records_in_order() {
    let mut effector = Effector::new();
    assert_eq!(effector.pending(), 0);
    effector.execute_type_text(&payload(r#"{"text": "one"}"#)).unwrap();
    effector.execute_press_key(&payload(r#"{"key": "enter"}"#)).unwrap();
    effector.execute_click(&payload(r#"{"x": 1, "y": 2, "delay_ms": 5}"#)).unwrap();
    assert_eq!(effector.pending(), 6);
    let steps = effector.take_steps();
    assert_eq!(
        steps,
        vec![
            InputStep::Text("one".to_string()),
            click(Key::Return),
            InputStep::Wait { ms: 800 },
            InputStep::MoveMouse { x: 1, y: 2 },
            InputStep::Wait { ms: 5 },
            InputStep::ClickLeft,
        ]
    );
    assert_eq!(effector.pending(), 0);
    assert_eq!(effector.take_steps(), vec![]);
}

#[test]
fn a_failed_action_records_nothing() {
    let mut effector = Effector::new();
    effector.execute_type_text(&payload(r#"{"text": "kept"}"#)).unwrap();
    assert_eq!(effector.execute_type_text(&payload("{}")), Err(EffectorError::MissingText));
    assert_eq!(effector.execute_click(&payload("{}")), Err(EffectorError::MissingX));
    assert_eq!(effector.execute_press_key(&payload("{}")), Err(EffectorError::MissingKey));
    assert_eq!(
        effector.execute_press_key(&payload(r#"{"key": "ctrl+nokey"}"#)),
        Err(EffectorError::UnknownComboPart("NOKEY".to_string()))
    );
    assert_eq!(effector.take_steps(), vec![InputStep::Text("kept".to_string())]);
}

#[test]
fn an_approved_action_pauses_first() {
    let mut effector = Effector::new();
    effector.execute_action(&proposal("type", r#"{"text": "hi"}"#)).unwrap();
    assert_eq!(
        effector.take_steps(),
        vec![InputStep::Wait { ms: 100 }, InputStep::Text("hi".to_string())]
    );
    effector.execute_action(&proposal("Click", r#"{"x": 1, "y": 2, "delay_ms": 30}"#)).unwrap();
    assert_eq!(
        effector.take_steps(),
        vec![
            InputStep::Wait { ms: 30 },
            InputStep::MoveMouse { x: 1, y: 2 },
            InputStep::Wait { ms: 30 },
            InputStep::ClickLeft,
        ]
    );
    effector.execute_action(&proposal("KEY", r#"{"key": "tab"}"#)).unwrap();
    assert_eq!(effector.take_steps(), vec![InputStep::Wait { ms: 100 }, click(Key::Tab)]);
}

#[test]
fn an_unknown_intent_is_no_error() {
    let mut effector = Effector::new();
    assert_eq!(effector.execute_action(&proposal("scroll", r#"{"text": "hi"}"#)), Ok(()));
    assert_eq!(effector.take_steps(), vec![InputStep::Wait { ms: 100 }]);
}

#[test]
fn an_intent_that_only_holds_a_type_is_unknown() {
    for intent in ["DOUBLECLICK", "type_text", "HOTKEY", "press key", "WAVE", "", " click"] {
        let mut effector = Effector::new();
        assert_eq!(
            effector.execute_action(&proposal(intent, r#"{"x": 1, "y": 2}"#)),
            Ok(()),
            "{:?}",
            intent
        );
        assert_eq!(effector.take_steps(), vec![InputStep::Wait { ms: 100 }], "{:?}", intent);
    }
}

#[test]
fn an_intent_in_upper_case() {
    let mut effector = Effector::new();
    assert_eq!(effector.execute_intent("DOUBLECLICK", &payload(r#"{"x": 1, "y": 2}"#)), Ok(()));
    assert_eq!(effector.take_steps(), vec![InputStep::Wait { ms: 100 }]);
    assert_eq!(effector.execute_intent("CLICK", &payload(r#"{"x": 1, "y": 2}"#)), Ok(()));
    assert_eq!(effector.pending(), 4);
    assert_eq!(effector.execute_intent("click", &payload(r#"{"x": 1, "y": 2}"#)), Ok(()));
    assert_eq!(effector.pending(), 5);
}

#[test]
fn an_approved_action_that_fails_has_paused() {
    let mut effector = Effector::new();
    assert_eq!(
        effector.execute_action(&proposal("type", r#"{"delay_ms": 9}"#)),
        Err(EffectorError::MissingText)
    );
    assert_eq!(effector.take_steps(), vec![InputStep::Wait { ms: 9 }]);
}

#[test]
fn the_intent_is_read_without_regard_to_case() {
    let mut effector = Effector::new();
    effector.execute_intent("TYPE", &payload(r#"{"text": "x"}"#)).unwrap();
    effector.execute_action(&proposal("tYpE", r#"{"text": "y"}"#)).unwrap();
    assert_eq!(
        effector.take_steps(),
        vec![
            InputStep::Wait { ms: 100 },
            InputStep::Text("x".to_string()),
            InputStep::Wait { ms: 100 },
            InputStep::Text("y".to_string()),
        ]
    );
}

#[test]
fn a_command_line_is_executed() {
    assert_eq!(
        execute_action_json(r#"{"action": "TYPE", "payload": {"text": "Hello\u0000World"}}"#),
        Ok(vec![InputStep::Text("HelloWorld".to_string())])
    );
    assert_eq!(
        execute_action_json(r#"{"action": "key", "payload": {"key": "win+r"}}"#),
        Ok(vec![
            press(Key::Meta),
            press(Key::Unicode('R')),
            release(Key::Unicode('R')),
            release(Key::Meta),
        ])
    );
    assert_eq!(
        execute_action_json(r#"{"action": "Click", "payload": {"x": 5, "y": 6}}"#),
        Ok(vec![
            InputStep::MoveMouse { x: 5, y: 6 },
            InputStep::Wait { ms: 100 },
            InputStep::ClickLeft,
        ])
    );
}

#[test]
fn a_command_line_fails_with_the_first_thing_that_is_wrong() {
    assert_eq!(execute_action_json("{not json"), Err(EffectorError::MalformedJson));
    assert_eq!(execute_action_json(""), Err(EffectorError::MalformedJson));
    assert_eq!(execute_action_json(r#"{"payload": {}}"#), Err(EffectorError::MissingAction));
    assert_eq!(
        execute_action_json(r#"{"action": 5, "payload": {}}"#),
        Err(EffectorError::MissingAction)
    );
    assert_eq!(execute_action_json(r#"[1, 2]"#), Err(EffectorError::MissingAction));
    assert_eq!(execute_action_json(r#"{"action": "TYPE"}"#), Err(EffectorError::MissingPayload));
    assert_eq!(
        execute_action_json(r#"{"action": "nothing"}"#),
        Err(EffectorError::MissingPayload)
    );
    assert_eq!(
        execute_action_json(r#"{"action": "Scroll", "payload": {}}"#),
        Err(EffectorError::UnknownActionType("Scroll".to_string()))
    );
    assert_eq!(
        execute_action_json(r#"{"action": "TYPE", "payload": null}"#),
        Err(EffectorError::MissingText)
    );
    assert_eq!(
        execute_action_json(r#"{"action": "CLICK", "payload": {"x": 1}}"#),
        Err(EffectorError::MissingY)
    );
    assert_eq!(
        execute_action_json(r#"{"action": "KEY", "payload": {"key": "f99"}}"#),
        Err(EffectorError::UnknownKey("f99".to_string()))
    );
}

#[test]
fn a_parsed_command_is_executed() {
    let doc = Json::parse(r#"{"action": "type", "payload": {"text": "x"}}"#).unwrap();
    assert_eq!(command_steps(&doc), Ok(vec![InputStep::Text("x".to_string())]));
    assert_eq!(command_steps(&Json::Null), Err(EffectorError::MissingAction));
}

#[test]
fn upper_case_follows_unicode() {
    assert_eq!(
        execute_action_json(r#"{"action": "ｔｙｐｅ", "payload": {"text": "x"}}"#),
        Err(EffectorError::UnknownActionType("ｔｙｐｅ".to_string()))
    );
    assert_eq!(
        press_key_steps("ctrl+ß"),
        Err(EffectorError::UnknownComboPart("SS".to_string()))
    );
}
