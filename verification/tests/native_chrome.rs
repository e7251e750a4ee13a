use eesha::native_chrome::{
    tab_title_label, title_label_fits_at, url_label_fits_at, url_text_label, ChromeAction, ChromeElementId, ChromeFocusTarget, NativeChrome,
};
use eesha::widget::{BookmarkId, WebViewId};

fn actives(c: &NativeChrome) -> Vec<bool> {
    c.tabs.iter().map(|t| t.is_active).collect()
}

#[test]
fn new_chrome() {
    let c = NativeChrome::new(true);
    assert!(c.has_csd);
    assert!(c.tabs.is_empty());
    assert_eq!(c.active_tab_id, None);
    assert_eq!(c.focused_element, ChromeFocusTarget::Unfocused);
}

#[test]
fn add_tabs() {
    let mut c = NativeChrome::new(false);
    c.add_tab(WebViewId(1), true);
    c.add_tab(WebViewId(2), false);
    assert_eq!(actives(&c), vec![true, false]);
    assert_eq!(c.active_tab_id, Some(WebViewId(1)));
    c.add_tab(WebViewId(3), true);
    assert_eq!(actives(&c), vec![false, false, true]);
    assert_eq!(c.active_tab_id, Some(WebViewId(3)));
    assert_eq!(c.tabs[2].title, "New Tab");
    assert_eq!(c.tabs[2].url, "eesha://newtab");
}

#[test]
fn close_active_tab_activates_neighbour() {
    let mut c = NativeChrome::new(false);
    c.add_tab(WebViewId(1), false);
    c.add_tab(WebViewId(2), true);
    c.add_tab(WebViewId(3), false);
    assert_eq!(c.close_tab(WebViewId(2)), Some(WebViewId(3)));
    assert_eq!(actives(&c), vec![false, true]);
    assert_eq!(c.close_tab(WebViewId(3)), Some(WebViewId(1)));
    assert_eq!(actives(&c), vec![true]);
    assert_eq!(c.close_tab(WebViewId(1)), None);
    assert!(c.tabs.is_empty());
}

#[test]
fn close_other_tab_keeps_active() {
    let mut c = NativeChrome::new(false);
    c.add_tab(WebViewId(1), true);
    c.add_tab(WebViewId(2), false);
    assert_eq!(c.close_tab(WebViewId(2)), Some(WebViewId(1)));
    assert_eq!(c.close_tab(WebViewId(9)), None);
    assert_eq!(c.tabs.len(), 1);
}

#[test]
fn activate_tab_marks_exactly_that_tab() {
    let mut c = NativeChrome::new(false);
    c.add_tab(WebViewId(1), true);
    c.add_tab(WebViewId(2), false);
    c.add_tab(WebViewId(3), false);
    c.activate_tab(WebViewId(2));
    assert_eq!(actives(&c), vec![false, true, false]);
    assert_eq!(c.active_tab_id, Some(WebViewId(2)));
}

#[test]
fn set_url_respects_focus() {
    let mut c = NativeChrome::new(false);
    c.set_url("https://a.org");
    assert_eq!(c.url_input.text, "https://a.org");
    c.focus_url_bar();
    assert!(c.url_input.is_focused);
    assert_eq!(c.url_input.selection_start, Some(0));
    c.set_url("https://b.org");
    assert_eq!(c.url_input.text, "https://a.org");
    c.handle_chrome_click_outside();
    assert_eq!(c.focused_element, ChromeFocusTarget::Unfocused);
    assert!(!c.url_input.is_focused);
}

#[test]
fn tab_titles_and_nav_buttons() {
    let mut c = NativeChrome::new(false);
    c.add_tab(WebViewId(1), true);
    c.set_tab_title(WebViewId(1), "Docs".to_string());
    assert_eq!(c.tabs[0].title, "Docs");
    c.set_nav_buttons(true, false);
    assert!(c.can_go_back && !c.can_go_forward);
}

#[test]
fn clicks() {
    let mut c = NativeChrome::new(true);
    assert!(c.handle_click(&ChromeElementId::BackButton).is_none());
    c.set_nav_buttons(true, true);
    assert!(matches!(c.handle_click(&ChromeElementId::BackButton), Some(ChromeAction::GoBack)));
    assert!(matches!(c.handle_click(&ChromeElementId::ForwardButton), Some(ChromeAction::GoForward)));
    assert!(matches!(c.handle_click(&ChromeElementId::RefreshButton), Some(ChromeAction::Refresh)));
    assert!(matches!(c.handle_click(&ChromeElementId::NewTabButton), Some(ChromeAction::NewTab)));
    assert!(matches!(c.handle_click(&ChromeElementId::Tab(WebViewId(4))), Some(ChromeAction::ActivateTab(WebViewId(4)))));
    assert!(matches!(c.handle_click(&ChromeElementId::TabClose(WebViewId(4))), Some(ChromeAction::CloseTab(WebViewId(4)))));
    assert!(matches!(c.handle_click(&ChromeElementId::BookmarkStar), Some(ChromeAction::ToggleBookmark)));
    assert!(matches!(c.handle_click(&ChromeElementId::WindowMinimize), Some(ChromeAction::Minimize)));
    assert!(matches!(c.handle_click(&ChromeElementId::WindowMaximize), Some(ChromeAction::Maximize)));
    assert!(matches!(c.handle_click(&ChromeElementId::WindowClose), Some(ChromeAction::CloseWindow)));
    assert!(matches!(c.handle_click(&ChromeElementId::DragRegion), Some(ChromeAction::DragWindow)));
    assert!(matches!(c.handle_click(&ChromeElementId::DownloadButton), Some(ChromeAction::OpenDownloads)));
    assert!(c.handle_click(&ChromeElementId::MenuButton).is_none());
    assert!(c.handle_click(&ChromeElementId::HomeButton).is_none());
    assert!(c.handle_click(&ChromeElementId::BookmarkItem(BookmarkId(1))).is_none());
    assert_eq!(c.focused_element, ChromeFocusTarget::Unfocused);
    assert!(c.handle_click(&ChromeElementId::UrlInput).is_none());
    assert_eq!(c.focused_element, ChromeFocusTarget::UrlInput);
    assert!(c.url_input.is_focused);
}

#[test]
fn hover_tracking() {
    let mut c = NativeChrome::new(false);
    c.handle_mouse_move(Some(ChromeElementId::NewTabButton));
    assert_eq!(c.hover_element, Some(ChromeElementId::NewTabButton));
    c.handle_mouse_move(None);
    assert_eq!(c.hover_element, None);
}

fn flags_agree(c: &NativeChrome) -> bool {
    let mut ids: Vec<u64> = c.tabs.iter().map(|t| t.id.0).collect();
    ids.sort();
    ids.dedup();
    ids.len() == c.tabs.len()
        && c.tabs.iter().all(|t| t.is_active == (c.active_tab_id == Some(t.id)))
        && c.active_tab_id.map_or(true, |a| c.tabs.iter().any(|t| t.id == a))
}

#[test]
fn tab_flags_follow_active_id_through_edits() {
    let mut c = NativeChrome::new(false);
    assert!(flags_agree(&c));
    c.add_tab(WebViewId(10), true);
    c.add_tab(WebViewId(11), false);
    c.add_tab(WebViewId(12), true);
    assert!(flags_agree(&c));
    c.activate_tab(WebViewId(11));
    assert!(flags_agree(&c));
    c.set_tab_title(WebViewId(11), "Docs".to_string());
    assert!(flags_agree(&c));
    c.close_tab(WebViewId(11));
    assert!(flags_agree(&c));
    assert_eq!(c.active_tab_id, Some(WebViewId(12)));
    c.close_tab(WebViewId(12));
    assert!(flags_agree(&c));
    assert_eq!(c.active_tab_id, Some(WebViewId(10)));
    c.close_tab(WebViewId(10));
    assert!(flags_agree(&c));
    assert_eq!(c.active_tab_id, None);
}

#[test]
fn tab_title_label_cuts_long_titles() {
    assert_eq!(tab_title_label("Hello World", 8), "Hello...");
    assert_eq!(tab_title_label("Hello", 8), "Hello");
    assert_eq!(tab_title_label("Hello World", 3), "Hello World");
    assert_eq!(tab_title_label("Hello World", 11), "Hello World");
    assert_eq!(tab_title_label("héllo world", 6), "hé...");
}

#[test]
fn url_text_label_keeps_the_tail() {
    assert_eq!(url_text_label("https://example.com/path", 10), "...om/path");
    assert_eq!(url_text_label("https://a.org", 20), "https://a.org");
    assert_eq!(url_text_label("https://a.org", 2), "https://a.org");
}

#[test]
fn url_field_label_shows_placeholder_or_text() {
    let mut c = NativeChrome::new(false);
    assert_eq!(c.url_field_label(40), ("Search or enter URL".to_string(), true));
    c.focus_url_bar();
    assert_eq!(c.url_field_label(40), (String::new(), false));
    c.handle_chrome_click_outside();
    c.set_url("https://example.com/path");
    assert_eq!(c.url_field_label(10), ("...om/path".to_string(), false));
}

#[test]
fn label_cut_checks() {
    assert!(title_label_fits_at("Hello World", 8));
    assert!(!title_label_fits_at("héllo world", 5));
    assert!(title_label_fits_at("héllo world", 6));
    assert!(title_label_fits_at("short", 2));
    assert!(url_label_fits_at("https://example.com/path", 10));
    assert!(!url_label_fits_at("xxxé", 4));
    assert!(url_label_fits_at("xxé", 4));
}
