use eesha::state::{ChromeState, NavigationState};
use eesha::widget::{WebViewId, WidgetId, WidgetIdCounter};

fn state_with_tabs(urls: &[&str]) -> ChromeState {
    let mut s = ChromeState::new();
    for (i, u) in urls.iter().enumerate() {
        s.add_tab(WebViewId(i as u64 + 1), u.to_string());
    }
    s
}

#[test]
fn new_state() {
    let mut s = ChromeState::new();
    assert!(s.tabs.is_empty());
    assert_eq!(s.active_tab_index, 0);
    assert_eq!(s.nav_state, NavigationState { can_go_back: false, can_go_forward: false, loading: false });
    assert_eq!(s.url_bar.text, "");
    assert!(!s.url_bar.focused);
    assert!(!s.show_bookmark_bar);
    assert_eq!(s.hovered_widget(), None);
    assert_eq!(s.pressed_widget(), None);
    assert!(s.take_dirty());
    assert!(!s.take_dirty());
    assert_eq!(s.active_webview_id(), None);
    assert!(s.active_tab().is_none());
}

#[test]
fn add_tab_titles_and_activates() {
    let mut s = ChromeState::new();
    s.add_tab(WebViewId(1), "eesha://newtab".to_string());
    assert_eq!(s.tabs[0].title, "New Tab");
    assert_eq!(s.tabs[0].url, "eesha://newtab");
    s.add_tab(WebViewId(2), "https://rust-lang.org".to_string());
    assert_eq!(s.tabs[1].title, "https://rust-lang.org");
    assert_eq!(s.active_tab_index, 1);
    assert_eq!(s.url_bar.text, "https://rust-lang.org");
    assert_eq!(s.active_webview_id(), Some(WebViewId(2)));
    assert!(!s.tabs[1].loading && !s.tabs[1].can_go_back && !s.tabs[1].can_go_forward);
}

#[test]
fn close_tab_out_of_range() {
    let mut s = state_with_tabs(&["a", "b"]);
    s.take_dirty();
    assert!(s.close_tab(5).is_none());
    assert_eq!(s.tabs.len(), 2);
    assert!(!s.take_dirty());
    let mut e = ChromeState::new();
    assert!(e.close_tab(0).is_none());
}

#[test]
fn close_last_active_tab_moves_back() {
    let mut s = state_with_tabs(&["a", "b", "c"]);
    let closed = s.close_tab(2).unwrap();
    assert_eq!(closed.url, "c");
    assert_eq!(s.tabs.len(), 2);
    assert_eq!(s.active_tab_index, 1);
    assert_eq!(s.url_bar.text, "b");
}

#[test]
fn close_tab_before_active_keeps_index() {
    let mut s = state_with_tabs(&["a", "b", "c"]);
    s.set_active_tab(1);
    s.close_tab(0);
    assert_eq!(s.active_tab_index, 1);
    assert_eq!(s.url_bar.text, "c");
}

#[test]
fn close_only_tab() {
    let mut s = state_with_tabs(&["a"]);
    let t = s.close_tab(0).unwrap();
    assert_eq!(t.webview_id, WebViewId(1));
    assert!(s.tabs.is_empty());
    assert_eq!(s.url_bar.text, "a");
    assert_eq!(s.active_webview_id(), None);
}

#[test]
fn close_undoes_add_example() {
    let mut s = state_with_tabs(&["a", "b"]);
    s.add_tab(WebViewId(9), "z".to_string());
    let t = s.close_tab(2).unwrap();
    assert_eq!(t.webview_id, WebViewId(9));
    let urls: Vec<&str> = s.tabs.iter().map(|t| t.url.as_str()).collect();
    assert_eq!(urls, vec!["a", "b"]);
}

#[test]
fn set_active_tab_copies_nav_state() {
    let mut s = state_with_tabs(&["a", "b"]);
    s.tabs[0].can_go_back = true;
    s.tabs[0].loading = true;
    s.set_active_tab(0);
    assert_eq!(s.active_tab_index, 0);
    assert_eq!(s.url_bar.text, "a");
    assert_eq!(s.nav_state, NavigationState { can_go_back: true, can_go_forward: false, loading: true });
    s.set_active_tab(7);
    assert_eq!(s.active_tab_index, 0);
}

#[test]
fn update_tab_url_follows_active_unless_editing() {
    let mut s = state_with_tabs(&["a", "b"]);
    s.update_tab_url(WebViewId(2), "b2".to_string());
    assert_eq!(s.tabs[1].url, "b2");
    assert_eq!(s.url_bar.text, "b2");
    s.update_tab_url(WebViewId(1), "a2".to_string());
    assert_eq!(s.tabs[0].url, "a2");
    assert_eq!(s.url_bar.text, "b2");
    s.url_bar.focused = true;
    s.url_bar.text = "typing".to_string();
    s.update_tab_url(WebViewId(2), "b3".to_string());
    assert_eq!(s.tabs[1].url, "b3");
    assert_eq!(s.url_bar.text, "typing");
    s.take_dirty();
    s.update_tab_url(WebViewId(42), "x".to_string());
    assert!(!s.take_dirty());
}

#[test]
fn update_tab_title() {
    let mut s = state_with_tabs(&["a", "b"]);
    s.update_tab_title(WebViewId(1), "Alpha".to_string());
    assert_eq!(s.tabs[0].title, "Alpha");
    assert_eq!(s.tabs[1].title, "b");
}

#[test]
fn update_nav_state_sets_active_tab() {
    let mut s = state_with_tabs(&["a", "b"]);
    s.update_nav_state(true, false);
    assert!(s.nav_state.can_go_back);
    assert!(s.tabs[1].can_go_back);
    assert!(!s.tabs[0].can_go_back);
}

#[test]
fn set_loading_tracks_active_tab() {
    let mut s = state_with_tabs(&["a", "b"]);
    s.set_loading(WebViewId(1), true);
    assert!(s.tabs[0].loading);
    assert!(!s.nav_state.loading);
    s.set_loading(WebViewId(2), true);
    assert!(s.nav_state.loading);
    s.take_dirty();
    s.set_loading(WebViewId(77), true);
    assert!(s.take_dirty());
}

#[test]
fn tab_index_by_webview_id_finds_first() {
    let mut s = state_with_tabs(&["a", "b"]);
    s.add_tab(WebViewId(1), "dup".to_string());
    assert_eq!(s.tab_index_by_webview_id(WebViewId(1)), Some(0));
    assert_eq!(s.tab_index_by_webview_id(WebViewId(2)), Some(1));
    assert_eq!(s.tab_index_by_webview_id(WebViewId(3)), None);
}

#[test]
fn hover_marks_dirty_only_on_change() {
    let mut s = ChromeState::new();
    s.take_dirty();
    s.set_hovered(None);
    assert!(!s.take_dirty());
    s.set_hovered(Some(WidgetId(3)));
    assert!(s.take_dirty());
    assert_eq!(s.hovered_widget(), Some(WidgetId(3)));
    s.set_pressed(Some(WidgetId(4)));
    assert_eq!(s.pressed_widget(), Some(WidgetId(4)));
    assert!(s.take_dirty());
    s.mark_dirty();
    assert!(s.take_dirty());
}

#[test]
fn widget_ids_are_consecutive() {
    let mut s = ChromeState::new();
    assert_eq!(s.next_widget_id(), WidgetId(0));
    assert_eq!(s.next_widget_id(), WidgetId(1));
    let mut c = WidgetIdCounter::default();
    assert_eq!(c.next(), WidgetId(0));
    assert_eq!(c.next(), WidgetId(1));
    assert_eq!(c.next(), WidgetId(2));
}

#[test]
fn active_tab_reference() {
    let s = state_with_tabs(&["a", "b"]);
    assert_eq!(s.active_tab().unwrap().url, "b");
    let d = ChromeState::default();
    assert!(d.tabs.is_empty());
}

#[test]
fn dirty_flag_between_takes() {
    let mut s = ChromeState::new();
    assert!(s.take_dirty());
    assert!(!s.take_dirty());
    let _ = s.next_widget_id();
    s.set_hovered(None);
    s.close_tab(5);
    s.update_tab_title(WebViewId(9), "x".to_string());
    assert!(!s.take_dirty());
    s.set_hovered(Some(WidgetId(3)));
    assert!(s.take_dirty());
    assert!(!s.take_dirty());
    s.add_tab(WebViewId(1), "a".to_string());
    assert!(s.take_dirty());
}
