use anchor_patch::lines::{join_lines, split_lines};

#[test]
fn split_empty_text() {
    assert_eq!(split_lines(""), Vec::<String>::new());
}

#[test]
fn split_without_trailing_newline() {
    assert_eq!(split_lines("a\nb"), vec!["a".to_string(), "b".to_string()]);
}

#[test]
fn split_with_trailing_newline() {
    assert_eq!(split_lines("a\nb\n"), vec!["a".to_string(), "b".to_string()]);
}

#[test]
fn split_crlf_endings() {
    assert_eq!(split_lines("a\r\nb\r\n"), vec!["a".to_string(), "b".to_string()]);
}

#[test]
fn split_keeps_lone_carriage_return() {
    assert_eq!(split_lines("a\rb"), vec!["a\rb".to_string()]);
}

#[test]
fn split_blank_lines() {
    assert_eq!(split_lines("\n\n"), vec!["".to_string(), "".to_string()]);
}

#[test]
fn join_no_lines() {
    assert_eq!(join_lines(&Vec::new()), "".to_string());
}

#[test]
fn join_two_lines() {
    assert_eq!(join_lines(&vec!["a".to_string(), "b".to_string()]), "a\nb".to_string());
}

#[test]
fn split_then_join_keeps_text() {
    let text = "x\ny\nz";
    assert_eq!(join_lines(&split_lines(text)), text.to_string());
}
