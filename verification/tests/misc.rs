use eesha::clipboard::ClipboardError;
use eesha::messages::{Icon, PositionType, SizeType, UserScript};
use eesha::text::{byte_length, chars_of, has_text, same_text, splice_string, trimmed};

#[test]
fn clipboard_error_text() {
    let e = ClipboardError::new("no display".to_string());
    assert_eq!(e.describe(), "ClipboardError: no display");
}

#[test]
fn user_script_from_text() {
    let s = UserScript::from("alert(1)".to_string());
    assert_eq!(s.script, "alert(1)");
    assert!(s.source_file.is_none());
}

#[test]
fn plain_message_types() {
    let i = Icon { rgba: vec![0, 0, 0, 255], width: 1, height: 1 };
    assert_eq!(i.rgba.len(), 4);
    assert_ne!(PositionType::Inner, PositionType::Outer);
    assert_eq!(SizeType::Outer, SizeType::Outer);
}

#[test]
fn text_helpers() {
    assert_eq!(byte_length("aé中😀"), 10);
    assert_eq!(chars_of("aé"), vec!['a', 'é']);
    assert!(has_text("http://x", "://"));
    assert!(!has_text("http:/x", "://"));
    assert!(same_text("ab", "ab"));
    assert!(!same_text("ab", "abc"));
    assert_eq!(splice_string("aéc", 1, 3, "XY"), "aXYc");
    assert_eq!(trimmed("\u{3000} a b \n"), "a b");
}
