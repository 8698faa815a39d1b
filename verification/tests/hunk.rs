use gg_core::hunk::apply_hunk_to_text;
use gg_core::hunk::{apply_hunk_checked, apply_hunk_to_base, HunkError};
use gg_core::messages::{ChangeHunk, FileRange, HunkLocation, MultilineString};

fn hunk(start: usize, lines: &[&str]) -> ChangeHunk {
    ChangeHunk {
        location: HunkLocation {
            from_file: FileRange { start, len: 0 },
            to_file: FileRange { start, len: 0 },
        },
        lines: MultilineString { lines: lines.iter().map(|l| l.to_string()).collect() },
    }
}

#[test]
fn applies_an_addition_and_a_deletion() {
    let base = b"one\ntwo\nthree\nfour\n";
    let h = hunk(2, &[" two", "-three", "+THREE", " four"]);
    assert_eq!(apply_hunk_to_base(base, &h).unwrap(), b"one\ntwo\nTHREE\nfour\n".to_vec());
}

#[test]
fn keeps_missing_final_newline() {
    let base = b"a\nb";
    let h = hunk(1, &[" a", "+x"]);
    assert_eq!(apply_hunk_to_base(base, &h).unwrap(), b"a\nx\nb".to_vec());
}

#[test]
fn context_compares_without_trailing_space() {
    let base = b"a  \nb\n";
    let h = hunk(1, &[" a", "-b"]);
    assert_eq!(apply_hunk_to_base(base, &h).unwrap(), b"a  \n".to_vec());
}

#[test]
fn addition_drops_its_newlines() {
    let base = b"a\n";
    let h = hunk(1, &[" a", "+b\n\n"]);
    assert_eq!(apply_hunk_to_base(base, &h).unwrap(), b"a\nb\n".to_vec());
}

#[test]
fn start_zero_means_the_beginning() {
    let base = b"";
    let h = hunk(0, &["+new"]);
    assert_eq!(apply_hunk_to_base(base, &h).unwrap(), b"new".to_vec());
}

#[test]
fn mismatch_is_reported() {
    let base = b"one\ntwo\n";
    let h = hunk(1, &[" one", "-zwei"]);
    match apply_hunk_to_base(base, &h) {
        Err(HunkError::Mismatch { index, expected, found }) => {
            assert_eq!(index, 1);
            assert_eq!(expected, "zwei");
            assert_eq!(found, Some("two".to_string()));
        }
        other => panic!("unexpected {other:?}"),
    }
    let h = hunk(2, &[" two", " three"]);
    match apply_hunk_to_base(base, &h) {
        Err(HunkError::Mismatch { index, found, .. }) => {
            assert_eq!(index, 2);
            assert_eq!(found, None);
        }
        other => panic!("unexpected {other:?}"),
    }
}

#[test]
fn malformed_line_is_reported() {
    let h = hunk(1, &["?what"]);
    match apply_hunk_to_base(b"x\n", &h) {
        Err(HunkError::Malformed { line }) => assert_eq!(line, "?what"),
        other => panic!("unexpected {other:?}"),
    }
}

#[test]
fn out_of_range_start_is_refused() {
    let h = hunk(5, &["+x"]);
    assert!(apply_hunk_checked(b"a\n", &h).is_none());
    assert!(apply_hunk_checked(b"a\n", &hunk(2, &["+x"])).is_some());
}

#[test]
fn invalid_utf8_is_decoded_lossily() {
    let base = [0xffu8, b'\n', b'b', b'\n'];
    let h = hunk(2, &["-b", "+c"]);
    assert_eq!(apply_hunk_to_base(&base, &h).unwrap(), "\u{fffd}\nc\n".as_bytes().to_vec());
}

#[test]
fn applies_to_decoded_text() {
    let h = hunk(1, &[" x", "+y"]);
    assert_eq!(apply_hunk_to_text("x\nz", true, &h).unwrap(), b"x\ny\nz\n".to_vec());
    assert_eq!(apply_hunk_to_text("x\nz", false, &h).unwrap(), b"x\ny\nz".to_vec());
    assert_eq!(apply_hunk_to_text("x\r\nz\r\n", false, &h).unwrap(), b"x\ny\nz".to_vec());
}

#[test]
fn context_only_hunk_keeps_final_blank_line() {
    let h = hunk(1, &[" a"]);
    assert_eq!(apply_hunk_to_base(b"a\n\n", &h).unwrap(), b"a\n\n".to_vec());
    let h = hunk(1, &[" a", " "]);
    assert_eq!(apply_hunk_to_base(b"a\n\n", &h).unwrap(), b"a\n\n".to_vec());
    assert_eq!(apply_hunk_to_base(b"\n", &hunk(1, &[" "])).unwrap(), b"\n".to_vec());
}

#[test]
fn deleting_every_line_leaves_an_empty_file() {
    let h = hunk(1, &["-a"]);
    assert_eq!(apply_hunk_to_base(b"a\n", &h).unwrap(), b"".to_vec());
}

#[test]
fn added_blank_last_line_is_kept() {
    let h = hunk(1, &[" a", "+"]);
    assert_eq!(apply_hunk_to_base(b"a\n", &h).unwrap(), b"a\n\n".to_vec());
}

#[test]
fn hunk_error_messages() {
    let e = HunkError::Mismatch { index: 1, expected: "zwei".to_string(), found: Some("two".to_string()) };
    assert_eq!(e.message(), "Hunk mismatch at line 2: expected 'zwei', found 'two'");
    let e = HunkError::Mismatch { index: 2, expected: "three".to_string(), found: None };
    assert_eq!(e.message(), "Hunk mismatch at line 3: expected 'three', found '<EOF>'");
    let e = HunkError::Malformed { line: "?what".to_string() };
    assert_eq!(e.message(), "Malformed diff line: ?what");
}
