use gg_core::messages::mutations::MutationOptions;
use gg_core::messages::queries::{ChangeKind, LogCoordinates};
use gg_core::messages::{DisplayPath, InputField, MultilineString};

#[test]
fn multiline_from_text() {
    assert_eq!(MultilineString::from_text("a\nb").lines, vec!["a", "b"]);
    assert_eq!(MultilineString::from_text("a\n").lines, vec!["a", ""]);
    assert_eq!(MultilineString::from_text("").lines, vec![""]);
    assert_eq!(MultilineString::from_text("x\r\ny").lines, vec!["x\r", "y"]);
}

#[test]
fn display_paths() {
    assert_eq!(DisplayPath::from_path("/home/u/repo").0, "/home/u/repo");
    assert_eq!(DisplayPath::from_path("relative/dir").0, "relative/dir");
}

#[test]
fn input_field_from_label() {
    let f = InputField::from_label("Password");
    assert_eq!(f.label, "Password");
    assert!(f.choices.is_empty());
}

#[test]
fn plain_values() {
    assert!(!MutationOptions::default().ignore_immutable);
    assert_eq!(LogCoordinates(1, 2), LogCoordinates(1, 2));
    assert_ne!(ChangeKind::Added, ChangeKind::NoChange);
}
