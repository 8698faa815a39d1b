use gg_core::messages::{ChangeHunk, FileRange, HunkLocation, MultilineString};
use gg_core::restore::{restore_hunk, RestoreError};

fn hunk(from: (usize, usize), to: (usize, usize), lines: &[&str]) -> ChangeHunk {
    ChangeHunk {
        location: HunkLocation {
            from_file: FileRange { start: from.0, len: from.1 },
            to_file: FileRange { start: to.0, len: to.1 },
        },
        lines: MultilineString { lines: lines.iter().map(|l| l.to_string()).collect() },
    }
}

#[test]
fn restores_source_lines() {
    let h = hunk((2, 1), (2, 1), &["-B", "+b"]);
    let restored = restore_hunk(b"a\nb\nc\n", b"a\nB\nc\n", &h).unwrap();
    assert_eq!(restored, Some(b"a\nB\nc\n".to_vec()));
}

#[test]
fn restores_with_context_and_different_lengths() {
    let h = hunk((1, 2), (1, 3), &[" a", "-X", "+y", "+z"]);
    let restored = restore_hunk(b"a\ny\nz\ntail", b"a\nX\n", &h).unwrap();
    assert_eq!(restored, Some(b"a\nX\ntail".to_vec()));
}

#[test]
fn unchanged_when_source_matches() {
    let h = hunk((2, 1), (2, 1), &["+b"]);
    assert_eq!(restore_hunk(b"a\nb\n", b"a\nb\n", &h).unwrap(), None);
}

#[test]
fn destination_out_of_bounds() {
    let h = hunk((1, 1), (3, 2), &["+x", "+y"]);
    match restore_hunk(b"a\nb\n", b"a\n", &h) {
        Err(RestoreError::DestinationOutOfBounds { lines, start, end }) => {
            assert_eq!((lines, start, end), (2, 3, 4));
        }
        other => panic!("unexpected {other:?}"),
    }
}

#[test]
fn line_count_mismatch() {
    let h = hunk((1, 1), (1, 2), &["+a"]);
    match restore_hunk(b"a\nb\n", b"a\n", &h) {
        Err(RestoreError::LineCount { expected, found }) => assert_eq!((expected, found), (1, 2)),
        other => panic!("unexpected {other:?}"),
    }
}

#[test]
fn line_mismatch() {
    let h = hunk((1, 2), (1, 2), &[" a", "+q"]);
    match restore_hunk(b"a  \nb\n", b"a\nr\n", &h) {
        Err(RestoreError::LineMismatch { line, expected, found }) => {
            assert_eq!(line, 2);
            assert_eq!(expected, "q");
            assert_eq!(found, "b");
        }
        other => panic!("unexpected {other:?}"),
    }
}

#[test]
fn source_out_of_bounds() {
    let h = hunk((2, 5), (1, 1), &["+a"]);
    match restore_hunk(b"a\n", b"x\ny\n", &h) {
        Err(RestoreError::SourceOutOfBounds { lines, start, end }) => {
            assert_eq!((lines, start, end), (2, 2, 6));
        }
        other => panic!("unexpected {other:?}"),
    }
}

#[test]
fn destination_final_blank_line_is_joined_away() {
    let h = hunk((2, 1), (2, 1), &["-B", "+b"]);
    let restored = restore_hunk(b"a\nb\n\n", b"a\nB\n", &h).unwrap();
    assert_eq!(restored, Some(b"a\nB\n".to_vec()));
}

#[test]
fn same_lines_with_final_blank_line_still_rewrite() {
    let h = hunk((1, 1), (1, 1), &["+a"]);
    assert_eq!(restore_hunk(b"a\n\n", b"a\n", &h).unwrap(), Some(b"a\n".to_vec()));
    assert_eq!(restore_hunk(b"a\nz\n", b"a\n", &h).unwrap(), None);
}

#[test]
fn restore_error_messages() {
    let e = RestoreError::DestinationOutOfBounds { lines: 2, start: 3, end: 4 };
    assert_eq!(e.message(), "Hunk location out of bounds: file has 2 lines, hunk requires lines 3-4");
    let e = RestoreError::LineCount { expected: 1, found: 2 };
    assert_eq!(e.message(), "Hunk validation failed: expected 1 lines, found 2 lines at destination");
    let e = RestoreError::LineMismatch { line: 2, expected: "q".to_string(), found: "b".to_string() };
    assert_eq!(e.message(), "Hunk validation failed at line 2: expected 'q', found 'b'");
    let e = RestoreError::SourceOutOfBounds { lines: 2, start: 2, end: 6 };
    assert_eq!(
        e.message(),
        "Source hunk location out of bounds: file has 2 lines, hunk requires lines 2-6"
    );
}
