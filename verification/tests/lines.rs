use banzai::{check_single_line, frame_lines, split_lines};

fn bytes(lines: &[&str]) -> Vec<Vec<u8>> {
    lines.iter().map(|line| line.as_bytes().to_vec()).collect()
}

#[test]
fn an_empty_file_has_no_lines() {
    assert_eq!(split_lines(b""), Vec::<Vec<u8>>::new());
}

#[test]
fn closed_lines_are_split() {
    assert_eq!(split_lines(b"a\nbc\n"), bytes(&["a", "bc"]));
}

#[test]
fn an_open_last_line_counts() {
    assert_eq!(split_lines(b"a\nbc"), bytes(&["a", "bc"]));
}

#[test]
fn empty_lines_are_lines() {
    assert_eq!(split_lines(b"\n"), bytes(&[""]));
    assert_eq!(split_lines(b"a\n\nb\n"), bytes(&["a", "", "b"]));
}

#[test]
fn carriage_returns_stay_in_the_line() {
    assert_eq!(split_lines(b"a\r\nb\n"), bytes(&["a\r", "b"]));
}

#[test]
fn framing_closes_every_line() {
    assert_eq!(frame_lines(&bytes(&["a", "bc"])), Some(b"a\nbc\n".to_vec()));
    assert_eq!(frame_lines(&bytes(&[])), Some(Vec::new()));
    assert_eq!(frame_lines(&bytes(&[""])), Some(b"\n".to_vec()));
}

#[test]
fn a_line_with_a_newline_cannot_be_framed() {
    assert_eq!(frame_lines(&bytes(&["a", "b\nc"])), None);
    assert_eq!(frame_lines(&bytes(&["\n"])), None);
}

#[test]
fn framed_lines_read_back() {
    let lines = bytes(&["{\"content\":\"x\"}", "", "second line", "caf\u{e9}"]);
    let file = frame_lines(&lines).unwrap();
    assert_eq!(split_lines(&file), lines);
}

#[test]
fn single_lines_hold_no_newline() {
    assert!(check_single_line(b"abc"));
    assert!(check_single_line(b""));
    assert!(!check_single_line(b"a\nb"));
    assert!(!check_single_line(b"\n"));
}
