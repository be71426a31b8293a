use sentinel::side_channel::{
    auth_document, focus_document, framed_line, get_auth_token, load_auth_token,
    notify_kernel_focus, side_channel_endpoint, token_candidates, token_file_name,
    token_of_file, AuthTokenCache, FocusNotice, TokenLocation,
};

fn file(contents: &str) -> Option<String> {
    Some(contents.to_string())
}

#[test]
fn where_the_credential_is_looked_for() {
    assert_eq!(token_file_name(), "ghost.token");
    assert_eq!(token_candidates(false, false), vec![TokenLocation::WorkingDir, TokenLocation::BinDir]);
    assert_eq!(token_candidates(false, true), vec![TokenLocation::WorkingDir, TokenLocation::BinDir]);
    assert_eq!(
        token_candidates(true, false),
        vec![TokenLocation::WorkingDir, TokenLocation::BinDir, TokenLocation::ExeDir]
    );
    assert_eq!(
        token_candidates(true, true),
        vec![
            TokenLocation::WorkingDir,
            TokenLocation::BinDir,
            TokenLocation::ExeDir,
            TokenLocation::ExeParent,
        ]
    );
}

#[test]
fn the_credential_of_a_file_is_its_first_line_that_is_not_empty() {
    assert_eq!(token_of_file("secret"), Some("secret".to_string()));
    assert_eq!(token_of_file("secret\n"), Some("secret".to_string()));
    assert_eq!(token_of_file("  secret \r\n"), Some("secret".to_string()));
    assert_eq!(token_of_file("\n\n  \nfirst\nsecond\n"), Some("first".to_string()));
    assert_eq!(token_of_file("a b\nc"), Some("a b".to_string()));
    assert_eq!(token_of_file(""), None);
    assert_eq!(token_of_file("\n"), None);
    assert_eq!(token_of_file(" \t\r\n \n"), None);
}

#[test]
fn the_first_file_with_a_credential_wins() {
    assert_eq!(
        load_auth_token(&vec![file("one"), file("two")]),
        Some("one".to_string())
    );
    assert_eq!(
        load_auth_token(&vec![None, file(""), file("  \n"), file("three\n"), file("four")]),
        Some("three".to_string())
    );
}

#[test]
fn without_a_file_there_is_no_credential() {
    assert_eq!(load_auth_token(&vec![]), None);
    assert_eq!(load_auth_token(&vec![None, None, None, None]), None);
    assert_eq!(load_auth_token(&vec![file(""), None, file("\n\n")]), None);
}

#[test]
fn the_credential_is_read_once() {
    let mut cache = AuthTokenCache::new();
    assert!(!cache.is_loaded());
    assert_eq!(get_auth_token(&mut cache, &vec![None, file("first\n")]), Some("first".to_string()));
    assert!(cache.is_loaded());
    assert_eq!(get_auth_token(&mut cache, &vec![file("second")]), Some("first".to_string()));
    assert_eq!(get_auth_token(&mut cache, &vec![]), Some("first".to_string()));
}

#[test]
fn a_credential_that_was_missing_stays_missing() {
    let mut cache = AuthTokenCache::new();
    assert_eq!(get_auth_token(&mut cache, &vec![None, None]), None);
    assert!(cache.is_loaded());
    assert_eq!(get_auth_token(&mut cache, &vec![file("late")]), None);
}

#[test]
fn without_a_credential_nothing_is_sent() {
    assert_eq!(notify_kernel_focus(None, "Editor"), None);
    assert_eq!(notify_kernel_focus(None, ""), None);
}

#[test]
fn the_two_lines_of_a_notice() {
    assert_eq!(
        notify_kernel_focus(Some("s3cret"), "Editor - notes.txt"),
        Some(FocusNotice {
            auth_line: "{\"auth_token\":\"s3cret\"}\n".to_string(),
            focus_line: "{\"type\":\"focus_update\",\"window_name\":\"Editor - notes.txt\"}\n"
                .to_string(),
        })
    );
}

#[test]
fn the_lines_of_a_notice_are_escaped() {
    let notice = notify_kernel_focus(Some("a\"b"), "line\nbreak \\ \"quoted\"").unwrap();
    assert_eq!(notice.auth_line, "{\"auth_token\":\"a\\\"b\"}\n");
    let focus = notice.focus_line;
    assert_eq!(
        focus,
        "{\"type\":\"focus_update\",\"window_name\":\"line\\nbreak \\\\ \\\"quoted\\\"\"}\n"
    );
    assert_eq!(focus.matches('\n').count(), 1);
    assert!(focus.ends_with('\n'));
}

#[test]
fn the_documents_of_a_notice() {
    assert_eq!(auth_document("t").render(), "{\"auth_token\":\"t\"}");
    assert_eq!(
        focus_document("w").render(),
        "{\"type\":\"focus_update\",\"window_name\":\"w\"}"
    );
}

#[test]
fn a_line_ends_with_a_line_feed() {
    assert_eq!(framed_line("{}".to_string()), "{}\n");
    assert_eq!(framed_line(String::new()), "\n");
}

#[test]
fn the_address_of_the_side_channel() {
    assert_eq!(side_channel_endpoint(), "127.0.0.1:5005");
}
