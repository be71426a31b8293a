use sentinel::effector::sanitize_text;

#[test]
fn test_sanitize_text_removes_null_bytes() {
    let input = "Hello\x00World";
    let result = sanitize_text(input);
    assert_eq!(result, "HelloWorld", "Null bytes should be removed");
}

#[test]
fn test_sanitize_text_removes_escape_codes() {
    let input = "Hello\x1B[31mWorld\x1B[0m";
    let result = sanitize_text(input);
    assert_eq!(result, "Hello[31mWorld[0m", "Escape codes should be removed");
}

#[test]
fn test_sanitize_text_preserves_whitespace() {
    let input = "Hello\tWorld\nNew Line\rCarriage";
    let result = sanitize_text(input);
    assert_eq!(result, input, "Tabs, newlines, and carriage returns should be preserved");
}

#[test]
fn test_sanitize_text_preserves_normal_text() {
    let input = "Hello World! 123 @#$%";
    let result = sanitize_text(input);
    assert_eq!(result, input, "Normal printable characters should be preserved");
}

#[test]
fn test_sanitize_text_handles_unicode() {
    let input = "Hello 世界 🌍 Émoji";
    let result = sanitize_text(input);
    assert_eq!(result, input, "Unicode characters should be preserved");
}

#[test]
fn test_sanitize_text_removes_multiple_control_chars() {
    let input = "\x00\x01\x02Hello\x03\x04World\x05\x06";
    let result = sanitize_text(input);
    assert_eq!(result, "HelloWorld", "All control characters should be removed");
}

#[test]
fn test_sanitize_text_empty_string() {
    let input = "";
    let result = sanitize_text(input);
    assert_eq!(result, "", "Empty string should remain empty");
}

#[test]
fn test_sanitize_text_only_control_chars() {
    let input = "\x00\x01\x02\x03\x04";
    let result = sanitize_text(input);
    assert_eq!(result, "", "String with only control chars should become empty");
}

#[test]
fn test_sanitize_text_bell_character() {
    let input = "Alert\x07Sound";
    let result = sanitize_text(input);
    assert_eq!(result, "AlertSound", "Bell character (0x07) should be removed");
}

#[test]
fn test_sanitize_text_backspace() {
    let input = "Hello\x08World";
    let result = sanitize_text(input);
    assert_eq!(result, "HelloWorld", "Backspace character should be removed");
}

#[test]
fn test_sanitize_text_never_panics_on_random_input() {
    let test_cases: Vec<String> = vec![
        format!("\u{0000}\u{FFFF}"),
        "a".repeat(10000),
        "\x00".repeat(1000),
        "🎉".repeat(500),
        "\n\r\t".repeat(100),
    ];

    for input in test_cases.iter() {
        let result = sanitize_text(input);
        assert!(
            result.len() <= input.len(),
            "sanitize_text should never panic on input: {:?}",
            input
        );
    }
}

#[test]
fn test_sanitize_text_idempotent() {
    let input = "Hello\x00World\x1B";
    let first_pass = sanitize_text(input);
    let second_pass = sanitize_text(&first_pass);
    assert_eq!(first_pass, second_pass, "Sanitizing twice should produce same result");
}

#[test]
fn test_sanitize_text_length_never_increases() {
    let inputs = vec![
        "Hello\x00World",
        "\x1B[31mRed\x1B[0m",
        "Normal text",
        "\x00\x01\x02",
    ];

    for input in inputs {
        let result = sanitize_text(input);
        assert!(
            result.len() <= input.len(),
            "Sanitized output should never be longer than input. Input: {:?}, Output: {:?}",
            input, result
        );
    }
}

#[test]
fn test_sanitize_text_preserves_order() {
    let input = "A\x00B\x01C\x02D";
    let result = sanitize_text(input);
    assert_eq!(result, "ABCD", "Character order should be preserved after sanitization");
}

#[test]
fn sanitize_text_agrees_with_std_on_every_character() {
    let mut all = String::new();
    let mut expected = String::new();
    for n in 0u32..=0x10FFFF {
        if let Some(c) = char::from_u32(n) {
            all.push(c);
            if c == '\t' || c == '\n' || c == '\r' || !c.is_control() {
                expected.push(c);
            }
        }
    }
    assert_eq!(sanitize_text(&all), expected);
}

#[test]
fn sanitize_text_removes_delete_and_c1_controls() {
    assert_eq!(sanitize_text("a\u{7f}b\u{80}c\u{9f}d\u{a0}e"), "abcd\u{a0}e");
}
