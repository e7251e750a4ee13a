use eesha::event::{
    bar_key_is_safe, load_request, navigation_url, ChromeEventHandler, ChromeEventResult, ConstellationMessage,
    TraversalDirection,
};
use eesha::keys::{KeyModifiers, KeyState, LogicalKey, MouseButton};
use eesha::state::ChromeState;
use eesha::widget::{WebViewId, WidgetId, WidgetKind};

fn mods() -> KeyModifiers {
    KeyModifiers { shift: false, control: false, alt: false }
}

fn state_with_tab(url: &str) -> ChromeState {
    let mut s = ChromeState::new();
    s.add_tab(WebViewId(7), url.to_string());
    s
}

#[test]
fn mouse_move_sets_hover() {
    let mut s = ChromeState::new();
    assert!(ChromeEventHandler::handle_mouse_move(&mut s, Some(WidgetId(2))));
    assert_eq!(s.hovered_widget(), Some(WidgetId(2)));
    assert!(!ChromeEventHandler::handle_mouse_move(&mut s, None));
    assert_eq!(s.hovered_widget(), None);
}

#[test]
fn left_button_only() {
    assert!(ChromeEventHandler::is_left_button(MouseButton::Left));
    assert!(!ChromeEventHandler::is_left_button(MouseButton::Right));
    let mut s = ChromeState::new();
    let (consumed, r) = ChromeEventHandler::handle_mouse_down(&mut s, Some(WidgetId(1)), MouseButton::Right);
    assert!(!consumed);
    assert!(matches!(r, ChromeEventResult::NoAction));
    assert_eq!(s.pressed_widget(), None);
}

#[test]
fn press_and_release_on_same_widget_clicks() {
    let mut s = state_with_tab("a");
    s.nav_state.can_go_back = true;
    let (down, _) = ChromeEventHandler::handle_mouse_down(&mut s, Some(WidgetId(5)), MouseButton::Left);
    assert!(down);
    assert_eq!(s.pressed_widget(), Some(WidgetId(5)));
    let (up, r) = ChromeEventHandler::handle_mouse_up(&mut s, Some((WidgetId(5), WidgetKind::BackButton)), MouseButton::Left);
    assert!(up);
    assert!(matches!(r, ChromeEventResult::GoBack));
    assert_eq!(s.pressed_widget(), None);
}

#[test]
fn release_elsewhere_does_not_click() {
    let mut s = ChromeState::new();
    ChromeEventHandler::handle_mouse_down(&mut s, Some(WidgetId(5)), MouseButton::Left);
    let (up, r) = ChromeEventHandler::handle_mouse_up(&mut s, Some((WidgetId(6), WidgetKind::HomeButton)), MouseButton::Left);
    assert!(up);
    assert!(matches!(r, ChromeEventResult::NoAction));
    assert_eq!(s.pressed_widget(), None);
    ChromeEventHandler::handle_mouse_down(&mut s, Some(WidgetId(5)), MouseButton::Left);
    let (up, r) = ChromeEventHandler::handle_mouse_up(&mut s, None, MouseButton::Left);
    assert!(!up);
    assert!(matches!(r, ChromeEventResult::NoAction));
}

#[test]
fn widget_clicks() {
    let mut s = ChromeState::new();
    let c = |s: &ChromeState, k: WidgetKind| ChromeEventHandler::handle_widget_click(s, &k);
    assert!(matches!(c(&s, WidgetKind::BackButton), ChromeEventResult::NoAction));
    assert!(matches!(c(&s, WidgetKind::ForwardButton), ChromeEventResult::NoAction));
    assert!(matches!(c(&s, WidgetKind::RefreshButton), ChromeEventResult::Refresh));
    s.nav_state.loading = true;
    s.nav_state.can_go_forward = true;
    assert!(matches!(c(&s, WidgetKind::RefreshButton), ChromeEventResult::StopLoading));
    assert!(matches!(c(&s, WidgetKind::ForwardButton), ChromeEventResult::GoForward));
    assert!(matches!(c(&s, WidgetKind::HomeButton), ChromeEventResult::GoHome));
    assert!(matches!(c(&s, WidgetKind::UrlBar), ChromeEventResult::FocusUrlBar));
    assert!(matches!(c(&s, WidgetKind::NewTabButton), ChromeEventResult::NewTab));
    assert!(matches!(c(&s, WidgetKind::Tab { index: 3 }), ChromeEventResult::SwitchTab(3)));
    assert!(matches!(c(&s, WidgetKind::TabClose { index: 2 }), ChromeEventResult::CloseTab(2)));
    assert!(matches!(c(&s, WidgetKind::BookmarkButton { index: 0 }), ChromeEventResult::NoAction));
    assert!(matches!(c(&s, WidgetKind::MenuButton), ChromeEventResult::NoAction));
    assert!(matches!(c(&s, WidgetKind::DownloadsButton), ChromeEventResult::NoAction));
}

fn key(s: &mut ChromeState, k: LogicalKey) -> (bool, ChromeEventResult) {
    ChromeEventHandler::handle_url_bar_key_event(s, &k, KeyState::Down, mods())
}

#[test]
fn url_bar_keys_ignored_when_unfocused() {
    let mut s = state_with_tab("a");
    let (consumed, _) = key(&mut s, LogicalKey::Character("x".to_string()));
    assert!(!consumed);
    assert_eq!(s.url_bar.text, "a");
}

#[test]
fn url_bar_key_up_is_consumed() {
    let mut s = state_with_tab("a");
    s.url_bar.focused = true;
    let (consumed, r) = ChromeEventHandler::handle_url_bar_key_event(&mut s, &LogicalKey::Enter, KeyState::Up, mods());
    assert!(consumed);
    assert!(matches!(r, ChromeEventResult::NoAction));
    assert!(s.url_bar.focused);
}

#[test]
fn url_bar_typing_and_editing() {
    let mut s = ChromeState::new();
    s.url_bar.focused = true;
    key(&mut s, LogicalKey::Character("ab".to_string()));
    key(&mut s, LogicalKey::Character("c".to_string()));
    assert_eq!(s.url_bar.text, "abc");
    assert_eq!(s.url_bar.cursor_pos, 3);
    key(&mut s, LogicalKey::ArrowLeft);
    assert_eq!(s.url_bar.cursor_pos, 2);
    key(&mut s, LogicalKey::Backspace);
    assert_eq!(s.url_bar.text, "ac");
    assert_eq!(s.url_bar.cursor_pos, 1);
    key(&mut s, LogicalKey::Delete);
    assert_eq!(s.url_bar.text, "a");
    key(&mut s, LogicalKey::Home);
    assert_eq!(s.url_bar.cursor_pos, 0);
    key(&mut s, LogicalKey::End);
    assert_eq!(s.url_bar.cursor_pos, 1);
    key(&mut s, LogicalKey::ArrowRight);
    assert_eq!(s.url_bar.cursor_pos, 1);
    key(&mut s, LogicalKey::Delete);
    assert_eq!(s.url_bar.text, "a");
}

#[test]
fn url_bar_selection_replaced() {
    let mut s = ChromeState::new();
    s.url_bar.focused = true;
    s.url_bar.text = "hello".to_string();
    s.url_bar.cursor_pos = 1;
    s.url_bar.selection_start = Some(4);
    key(&mut s, LogicalKey::Character("é".to_string()));
    assert_eq!(s.url_bar.text, "héo");
    assert_eq!(s.url_bar.cursor_pos, 3);
    assert_eq!(s.url_bar.selection_start, None);
    s.url_bar.selection_start = Some(0);
    key(&mut s, LogicalKey::Backspace);
    assert_eq!(s.url_bar.text, "o");
    assert_eq!(s.url_bar.cursor_pos, 0);
}

#[test]
fn url_bar_enter_submits_trimmed() {
    let mut s = state_with_tab("a");
    s.url_bar.focused = true;
    s.url_bar.text = "  example.com ".to_string();
    let (consumed, r) = key(&mut s, LogicalKey::Enter);
    assert!(consumed);
    match r {
        ChromeEventResult::NavigateToUrl(u) => assert_eq!(u, "example.com"),
        _ => panic!("expected navigation"),
    }
    assert!(!s.url_bar.focused);
    let mut e = ChromeState::new();
    e.url_bar.focused = true;
    e.url_bar.text = "   ".to_string();
    let (_, r) = key(&mut e, LogicalKey::Enter);
    assert!(matches!(r, ChromeEventResult::NoAction));
    assert!(e.url_bar.focused);
}

#[test]
fn url_bar_escape_restores_tab_url() {
    let mut s = state_with_tab("https://a.org");
    s.url_bar.focused = true;
    s.url_bar.text = "typed".to_string();
    key(&mut s, LogicalKey::Escape);
    assert_eq!(s.url_bar.text, "https://a.org");
    assert!(!s.url_bar.focused);
}

#[test]
fn navigation_url_cases() {
    assert_eq!(navigation_url("ftp://x"), "ftp://x");
    assert_eq!(navigation_url("example.com"), "https://example.com");
    assert_eq!(navigation_url("hello big world"), "https://duckduckgo.com/?q=hello+big+world");
    assert_eq!(navigation_url("a.b c"), "https://duckduckgo.com/?q=a.b+c");
}

#[test]
fn load_request_cases() {
    match load_request(Some(WebViewId(3)), Some("https://x/".to_string())) {
        Some(ConstellationMessage::LoadUrl(id, u)) => {
            assert_eq!(id, WebViewId(3));
            assert_eq!(u, "https://x/");
        }
        _ => panic!("expected a load"),
    }
    assert!(load_request(None, Some("https://x/".to_string())).is_none());
    assert!(load_request(Some(WebViewId(3)), None).is_none());
}

#[test]
fn execute_history_and_reload() {
    let mut s = state_with_tab("a");
    assert!(matches!(
        ChromeEventHandler::execute_result(ChromeEventResult::GoBack, &mut s),
        Some(ConstellationMessage::TraverseHistory(WebViewId(7), TraversalDirection::Back(1)))
    ));
    assert!(matches!(
        ChromeEventHandler::execute_result(ChromeEventResult::GoForward, &mut s),
        Some(ConstellationMessage::TraverseHistory(WebViewId(7), TraversalDirection::Forward(1)))
    ));
    assert!(matches!(
        ChromeEventHandler::execute_result(ChromeEventResult::Refresh, &mut s),
        Some(ConstellationMessage::Reload(WebViewId(7)))
    ));
    let mut e = ChromeState::new();
    assert!(ChromeEventHandler::execute_result(ChromeEventResult::GoBack, &mut e).is_none());
}

#[test]
fn execute_navigation_parses_url() {
    let mut s = state_with_tab("a");
    match ChromeEventHandler::execute_result(ChromeEventResult::NavigateToUrl("example.com".to_string()), &mut s) {
        Some(ConstellationMessage::LoadUrl(id, u)) => {
            assert_eq!(id, WebViewId(7));
            assert_eq!(u, "https://example.com/");
        }
        _ => panic!("expected a load"),
    }
    match ChromeEventHandler::execute_result(ChromeEventResult::NavigateToUrl("rust book".to_string()), &mut s) {
        Some(ConstellationMessage::LoadUrl(_, u)) => assert_eq!(u, "https://duckduckgo.com/?q=rust+book"),
        _ => panic!("expected a load"),
    }
    assert!(ChromeEventHandler::execute_result(ChromeEventResult::NavigateToUrl("http://".to_string()), &mut s).is_none());
    match ChromeEventHandler::execute_result(ChromeEventResult::GoHome, &mut s) {
        Some(ConstellationMessage::LoadUrl(_, u)) => assert_eq!(u, "eesha://newtab"),
        _ => panic!("expected a load"),
    }
}

#[test]
fn execute_tab_actions() {
    let mut s = state_with_tab("a");
    s.add_tab(WebViewId(8), "b".to_string());
    assert!(ChromeEventHandler::execute_result(ChromeEventResult::SwitchTab(0), &mut s).is_none());
    assert_eq!(s.active_tab_index, 0);
    assert_eq!(s.url_bar.text, "a");
    assert!(matches!(
        ChromeEventHandler::execute_result(ChromeEventResult::CloseTab(1), &mut s),
        Some(ConstellationMessage::CloseWebView(WebViewId(8)))
    ));
    assert_eq!(s.tabs.len(), 2);
    assert!(ChromeEventHandler::execute_result(ChromeEventResult::CloseTab(9), &mut s).is_none());
    assert!(ChromeEventHandler::execute_result(ChromeEventResult::NewTab, &mut s).is_none());
    assert!(ChromeEventHandler::execute_result(ChromeEventResult::StopLoading, &mut s).is_none());
}

#[test]
fn execute_focus_url_bar_selects_all() {
    let mut s = state_with_tab("héllo");
    assert!(ChromeEventHandler::execute_result(ChromeEventResult::FocusUrlBar, &mut s).is_none());
    assert!(s.url_bar.focused);
    assert_eq!(s.url_bar.cursor_pos, 6);
    assert_eq!(s.url_bar.selection_start, Some(0));
}

#[test]
fn addresses_without_scheme_use_https() {
    for input in ["example.com", "rust book", "a.b c", "localhost"] {
        assert!(navigation_url(input).starts_with("https://"), "{}", input);
    }
}

#[test]
fn bar_key_checks() {
    let mut s = state_with_tab("https://a.org");
    s.url_bar.text = "aé".to_string();
    s.url_bar.cursor_pos = 3;
    s.url_bar.selection_start = None;
    assert!(!bar_key_is_safe(&s.url_bar, &LogicalKey::Backspace));
    s.url_bar.cursor_pos = 2;
    assert!(bar_key_is_safe(&s.url_bar, &LogicalKey::Backspace));
    assert!(!bar_key_is_safe(&s.url_bar, &LogicalKey::Character("x".to_string())));
    s.url_bar.selection_start = Some(0);
    s.url_bar.cursor_pos = 3;
    assert!(bar_key_is_safe(&s.url_bar, &LogicalKey::Delete));
    assert!(bar_key_is_safe(&s.url_bar, &LogicalKey::Home));
}
