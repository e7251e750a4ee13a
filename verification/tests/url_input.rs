use eesha::keys::{KeyCode, KeyModifiers};
use eesha::url_input::{encode, UrlInputAction, UrlInputState};

fn plain() -> KeyModifiers {
    KeyModifiers { shift: false, control: false, alt: false }
}

fn shift() -> KeyModifiers {
    KeyModifiers { shift: true, control: false, alt: false }
}

fn ctrl() -> KeyModifiers {
    KeyModifiers { shift: false, control: true, alt: false }
}

fn focused_with(text: &str) -> UrlInputState {
    let mut s = UrlInputState::new();
    s.set_url(text);
    s.focus();
    s.selection_start = None;
    s
}

#[test]
fn new_state_is_empty_and_unfocused() {
    let s = UrlInputState::new();
    assert_eq!(s.text, "");
    assert_eq!(s.cursor_pos, 0);
    assert_eq!(s.selection_start, None);
    assert!(!s.is_focused);
    assert!(s.composition_text.is_none());
    assert_eq!(s.placeholder, "Search or enter URL");
}

#[test]
fn set_url_puts_cursor_at_byte_end() {
    let mut s = UrlInputState::new();
    s.set_url("héllo");
    assert_eq!(s.text, "héllo");
    assert_eq!(s.cursor_pos, 6);
    assert_eq!(s.selection_start, None);
}

#[test]
fn focus_selects_everything() {
    let mut s = UrlInputState::new();
    s.set_url("abc");
    s.focus();
    assert!(s.is_focused);
    assert_eq!(s.selection_start, Some(0));
    assert_eq!(s.cursor_pos, 3);
    assert_eq!(s.selection_range(), Some((0, 3)));
    assert!(s.has_selection());
}

#[test]
fn blur_clears_selection_and_composition() {
    let mut s = UrlInputState::new();
    s.set_url("abc");
    s.focus();
    s.handle_ime_composition("x".to_string());
    s.blur();
    assert!(!s.is_focused);
    assert_eq!(s.selection_start, None);
    assert!(s.composition_text.is_none());
    assert_eq!(s.text, "abc");
}

#[test]
fn char_ignored_when_unfocused() {
    let mut s = UrlInputState::new();
    s.set_url("abc");
    assert!(matches!(s.handle_char('x'), UrlInputAction::NoAction));
    assert_eq!(s.text, "abc");
    assert_eq!(s.cursor_pos, 3);
}

#[test]
fn typing_after_focus_replaces_everything() {
    let mut s = UrlInputState::new();
    s.set_url("example.org");
    s.focus();
    s.handle_char('x');
    assert_eq!(s.text, "x");
    assert_eq!(s.cursor_pos, 1);
    assert_eq!(s.selection_start, None);
}

#[test]
fn typing_multibyte_advances_by_its_width() {
    let mut s = focused_with("é");
    s.handle_char('ü');
    assert_eq!(s.text, "éü");
    assert_eq!(s.cursor_pos, 4);
    s.handle_char('中');
    assert_eq!(s.text, "éü中");
    assert_eq!(s.cursor_pos, 7);
    s.handle_char('😀');
    assert_eq!(s.cursor_pos, 11);
}

#[test]
fn typing_in_the_middle() {
    let mut s = focused_with("ac");
    s.handle_key(KeyCode::ArrowLeft, plain());
    s.handle_char('b');
    assert_eq!(s.text, "abc");
    assert_eq!(s.cursor_pos, 2);
}

#[test]
fn backspace_removes_previous_character() {
    let mut s = focused_with("aé");
    assert_eq!(s.cursor_pos, 3);
    s.handle_key(KeyCode::Backspace, plain());
    assert_eq!(s.text, "a");
    assert_eq!(s.cursor_pos, 1);
    s.handle_key(KeyCode::Backspace, plain());
    assert_eq!(s.text, "");
    assert_eq!(s.cursor_pos, 0);
    s.handle_key(KeyCode::Backspace, plain());
    assert_eq!(s.text, "");
    assert_eq!(s.cursor_pos, 0);
}

#[test]
fn backspace_removes_selection() {
    let mut s = UrlInputState::new();
    s.set_url("hello");
    s.focus();
    s.handle_key(KeyCode::Backspace, plain());
    assert_eq!(s.text, "");
    assert_eq!(s.cursor_pos, 0);
    assert_eq!(s.selection_start, None);
}

#[test]
fn delete_removes_next_character() {
    let mut s = focused_with("éa");
    s.handle_key(KeyCode::Home, plain());
    s.handle_key(KeyCode::Delete, plain());
    assert_eq!(s.text, "a");
    assert_eq!(s.cursor_pos, 0);
    s.handle_key(KeyCode::End, plain());
    s.handle_key(KeyCode::Delete, plain());
    assert_eq!(s.text, "a");
}

#[test]
fn arrows_step_over_whole_characters() {
    let mut s = focused_with("aé");
    s.handle_key(KeyCode::ArrowLeft, plain());
    assert_eq!(s.cursor_pos, 1);
    s.handle_key(KeyCode::ArrowLeft, plain());
    assert_eq!(s.cursor_pos, 0);
    s.handle_key(KeyCode::ArrowLeft, plain());
    assert_eq!(s.cursor_pos, 0);
    s.handle_key(KeyCode::ArrowRight, plain());
    assert_eq!(s.cursor_pos, 1);
    s.handle_key(KeyCode::ArrowRight, plain());
    assert_eq!(s.cursor_pos, 3);
    s.handle_key(KeyCode::ArrowRight, plain());
    assert_eq!(s.cursor_pos, 3);
}

#[test]
fn shift_arrows_extend_selection() {
    let mut s = focused_with("abc");
    s.handle_key(KeyCode::ArrowLeft, shift());
    assert_eq!(s.selection_start, Some(3));
    assert_eq!(s.cursor_pos, 2);
    s.handle_key(KeyCode::ArrowLeft, shift());
    assert_eq!(s.selection_start, Some(3));
    assert_eq!(s.selection_range(), Some((1, 3)));
    s.handle_char('Z');
    assert_eq!(s.text, "aZ");
    assert_eq!(s.cursor_pos, 2);
}

#[test]
fn arrow_without_shift_drops_selection() {
    let mut s = UrlInputState::new();
    s.set_url("abc");
    s.focus();
    s.handle_key(KeyCode::ArrowRight, plain());
    assert_eq!(s.selection_start, None);
    assert_eq!(s.cursor_pos, 3);
}

#[test]
fn home_and_end() {
    let mut s = UrlInputState::new();
    s.set_url("abc");
    s.focus();
    s.handle_key(KeyCode::Home, shift());
    assert_eq!(s.cursor_pos, 0);
    assert_eq!(s.selection_start, Some(0));
    s.handle_key(KeyCode::End, plain());
    assert_eq!(s.cursor_pos, 3);
    assert_eq!(s.selection_start, None);
}

#[test]
fn ctrl_a_selects_all() {
    let mut s = focused_with("abc");
    s.handle_key(KeyCode::Home, plain());
    s.handle_key(KeyCode::KeyA, ctrl());
    assert_eq!(s.selection_start, Some(0));
    assert_eq!(s.cursor_pos, 3);
    let mut t = focused_with("abc");
    t.handle_key(KeyCode::KeyA, plain());
    assert_eq!(t.selection_start, None);
    assert_eq!(t.cursor_pos, 3);
}

#[test]
fn enter_navigates_to_normalized_trimmed_text() {
    let mut s = focused_with("  example.com  ");
    match s.handle_key(KeyCode::Enter, plain()) {
        UrlInputAction::Navigate(u) => assert_eq!(u, "https://example.com"),
        _ => panic!("expected navigation"),
    }
    assert!(!s.is_focused);
    assert_eq!(s.text, "  example.com  ");
}

#[test]
fn numpad_enter_navigates_too() {
    let mut s = focused_with("rust lang");
    match s.handle_key(KeyCode::NumpadEnter, plain()) {
        UrlInputAction::Navigate(u) => {
            assert_eq!(u, "https://duckduckgo.com/?q=rust%20lang")
        }
        _ => panic!("expected navigation"),
    }
}

#[test]
fn enter_on_blank_text_does_nothing() {
    let mut s = focused_with(" \t ");
    assert!(matches!(s.handle_key(KeyCode::Enter, plain()), UrlInputAction::NoAction));
    assert!(s.is_focused);
}

#[test]
fn escape_blurs() {
    let mut s = focused_with("abc");
    assert!(matches!(s.handle_key(KeyCode::Escape, plain()), UrlInputAction::Blur));
    assert!(!s.is_focused);
}

#[test]
fn keys_ignored_when_unfocused() {
    let mut s = UrlInputState::new();
    s.set_url("abc");
    assert!(matches!(s.handle_key(KeyCode::Backspace, plain()), UrlInputAction::NoAction));
    assert_eq!(s.text, "abc");
}

#[test]
fn display_text_shows_composition() {
    let mut s = focused_with("ab");
    s.handle_key(KeyCode::ArrowLeft, plain());
    assert_eq!(s.display_text(), "ab");
    s.handle_ime_composition("X".to_string());
    assert_eq!(s.display_text(), "aXb");
    s.selection_start = Some(0);
    assert_eq!(s.display_text(), "Xb");
}

#[test]
fn ime_commit_inserts_text() {
    let mut s = focused_with("ab");
    s.handle_ime_composition("中".to_string());
    s.handle_ime_commit("中文".to_string());
    assert_eq!(s.text, "ab中文");
    assert_eq!(s.cursor_pos, 8);
    assert!(s.composition_text.is_none());
}

#[test]
fn ime_commit_replaces_selection() {
    let mut s = UrlInputState::new();
    s.set_url("old");
    s.focus();
    s.handle_ime_commit("new".to_string());
    assert_eq!(s.text, "new");
    assert_eq!(s.cursor_pos, 3);
    assert_eq!(s.selection_start, None);
}

#[test]
fn selection_range_orders_ends() {
    let mut s = focused_with("abcd");
    s.selection_start = Some(1);
    assert_eq!(s.selection_range(), Some((1, 4)));
    s.cursor_pos = 0;
    assert_eq!(s.selection_range(), Some((0, 1)));
    s.cursor_pos = 1;
    assert!(!s.has_selection());
    assert_eq!(s.selection_range(), Some((1, 1)));
    s.selection_start = None;
    assert_eq!(s.selection_range(), None);
}

#[test]
fn delete_selection_removes_range() {
    let mut s = focused_with("abcd");
    s.selection_start = Some(1);
    s.cursor_pos = 3;
    s.delete_selection();
    assert_eq!(s.text, "ad");
    assert_eq!(s.cursor_pos, 1);
    assert_eq!(s.selection_start, None);
}

#[test]
fn normalize_url_cases() {
    let s = UrlInputState::new();
    assert_eq!(s.normalize_url("http://a.b"), "http://a.b");
    assert_eq!(s.normalize_url("https://a.b/c"), "https://a.b/c");
    assert_eq!(s.normalize_url("eesha://newtab"), "eesha://newtab");
    assert_eq!(s.normalize_url("://x.y"), "https://x.y");
    assert_eq!(s.normalize_url("example.com"), "https://example.com");
    assert_eq!(s.normalize_url("a.b c"), "https://duckduckgo.com/?q=a.b%20c");
    assert_eq!(s.normalize_url("hello"), "https://duckduckgo.com/?q=hello");
}

#[test]
fn normalize_is_idempotent_on_examples() {
    let s = UrlInputState::new();
    for input in ["://x.y", "example.com", "what is rust", "http://a", "ftp://x"] {
        let once = s.normalize_url(input);
        assert_eq!(s.normalize_url(&once), once);
    }
}

#[test]
fn encode_cases() {
    assert_eq!(encode("a b"), "a%20b");
    assert_eq!(encode("AZaz09-_.~"), "AZaz09-_.~");
    assert_eq!(encode("/"), "%2F");
    assert_eq!(encode("é"), "%C3%A9");
    assert_eq!(encode("中"), "%E4%B8%AD");
    assert_eq!(encode("\u{5}"), "%05");
    assert_eq!(encode("😀"), "%F0%9F%98%80");
    assert_eq!(encode(""), "");
}

#[test]
fn backspace_undoes_typing_example() {
    let mut s = focused_with("héllo");
    s.handle_key(KeyCode::ArrowLeft, plain());
    let before_text = s.text.clone();
    let before_cursor = s.cursor_pos;
    s.handle_char('中');
    s.handle_key(KeyCode::Backspace, plain());
    assert_eq!(s.text, before_text);
    assert_eq!(s.cursor_pos, before_cursor);
}

#[test]
fn delete_undoes_typing_example() {
    let mut s = focused_with("ab");
    s.handle_key(KeyCode::ArrowLeft, plain());
    s.handle_char('é');
    s.handle_key(KeyCode::ArrowLeft, plain());
    s.handle_key(KeyCode::Delete, plain());
    assert_eq!(s.text, "ab");
    assert_eq!(s.cursor_pos, 1);
}

#[test]
fn left_then_right_returns_example() {
    let mut s = focused_with("x中y");
    s.handle_key(KeyCode::ArrowLeft, plain());
    let c = s.cursor_pos;
    s.handle_key(KeyCode::ArrowLeft, plain());
    s.handle_key(KeyCode::ArrowRight, plain());
    assert_eq!(s.cursor_pos, c);
}

#[test]
fn normalize_only_adds_https() {
    let s = UrlInputState::new();
    for input in ["example.com", "://x.y", "plain words", "eesha://newtab", "a.b c"] {
        let out = s.normalize_url(input);
        assert!(!out.starts_with("http://"), "{} gave {}", input, out);
    }
    assert!(s.normalize_url("http://plain.org").starts_with("http://"));
}

fn percent_decode(r: &str) -> Vec<u8> {
    let b = r.as_bytes();
    let mut out = Vec::new();
    let mut i = 0;
    while i < b.len() {
        if b[i] == b'%' && i + 2 < b.len() {
            let hi = (b[i + 1] as char).to_digit(16).unwrap() as u8;
            let lo = (b[i + 2] as char).to_digit(16).unwrap() as u8;
            out.push(hi * 16 + lo);
            i += 3;
        } else {
            out.push(b[i]);
            i += 1;
        }
    }
    out
}

#[test]
fn encode_output_decodes_to_utf8_bytes() {
    for input in ["a b/c?d=e&f", "é中😀", "AZaz09-_.~", "", "100% sure"] {
        let out = encode(input);
        assert!(out.chars().all(|c| c.is_ascii_alphanumeric() || "-_.~%".contains(c)));
        assert_eq!(percent_decode(&out), input.as_bytes().to_vec());
    }
}

#[test]
fn encode_changes_input_exactly_when_something_is_reserved() {
    assert_eq!(encode("Rust-1.0_x~"), "Rust-1.0_x~");
    assert_ne!(encode("a+b"), "a+b");
    assert!(encode("a+b").len() > "a+b".len());
}

#[test]
fn key_and_display_checks() {
    let mut s = focused_with("aé");
    s.cursor_pos = 2;
    s.selection_start = None;
    assert!(!s.key_is_safe(KeyCode::Backspace));
    assert!(!s.key_is_safe(KeyCode::ArrowRight));
    assert!(s.key_is_safe(KeyCode::Enter));
    s.cursor_pos = 3;
    assert!(s.key_is_safe(KeyCode::Backspace));
    assert!(s.display_is_safe());
    s.composition_text = Some("x".to_string());
    s.cursor_pos = 2;
    assert!(!s.display_is_safe());
    s.cursor_pos = 1;
    assert!(s.display_is_safe());
}
