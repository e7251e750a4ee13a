//! Pointer and keyboard event decisions of the browser chrome, and the
//! messages that carry its results to the browser engine.

use vstd::prelude::*;
use vstd::string::*;
use crate::keys::{KeyModifiers, KeyState, LogicalKey, MouseButton};
use crate::state::{ChromeState, NavigationState, UrlBarState};
use crate::text;
use crate::widget::{WebViewId, WidgetId, WidgetKind};

verus! {

/// Result of handling a chrome event.
#[derive(Clone, Debug)]
pub enum ChromeEventResult {
    /// No action needed.
    NoAction,
    /// Navigate back.
    GoBack,
    /// Navigate forward.
    GoForward,
    /// Refresh the current page.
    Refresh,
    /// Stop loading the current page.
    StopLoading,
    /// Navigate to home page.
    GoHome,
    /// Navigate to a URL.
    NavigateToUrl(String),
    /// Open a new tab.
    NewTab,
    /// Switch to a tab by index.
    SwitchTab(usize),
    /// Close a tab by index.
    CloseTab(usize),
    /// Focus the URL bar.
    FocusUrlBar,
    /// Request repaint.
    RepaintNeeded,
}

/// Direction of a history traversal, with the number of steps.
#[derive(Clone, Copy, Debug, PartialEq, Eq, Structural)]
pub enum TraversalDirection {
    Back(usize),
    Forward(usize),
}

/// A request to the browser engine that a chrome event result calls for.
#[derive(Clone, Debug)]
pub enum ConstellationMessage {
    /// Move through the session history of a web view.
    TraverseHistory(WebViewId, TraversalDirection),
    /// Reload a web view.
    Reload(WebViewId),
    /// Load a URL (already parsed and serialized) in a web view.
    LoadUrl(WebViewId, String),
    /// Close a web view.
    CloseWebView(WebViewId),
}

/// Event handler for the native browser chrome.
pub struct ChromeEventHandler;

/// What a click on a widget of the given kind asks for.
pub open spec fn click_result(nav: NavigationState, kind: WidgetKind) -> ChromeEventResult {
    match kind {
        WidgetKind::BackButton => if nav.can_go_back {
            ChromeEventResult::GoBack
        } else {
            ChromeEventResult::NoAction
        },
        WidgetKind::ForwardButton => if nav.can_go_forward {
            ChromeEventResult::GoForward
        } else {
            ChromeEventResult::NoAction
        },
        WidgetKind::RefreshButton => if nav.loading {
            ChromeEventResult::StopLoading
        } else {
            ChromeEventResult::Refresh
        },
        WidgetKind::HomeButton => ChromeEventResult::GoHome,
        WidgetKind::UrlBar => ChromeEventResult::FocusUrlBar,
        WidgetKind::NewTabButton => ChromeEventResult::NewTab,
        WidgetKind::Tab { index } => ChromeEventResult::SwitchTab(index),
        WidgetKind::TabClose { index } => ChromeEventResult::CloseTab(index),
        _ => ChromeEventResult::NoAction,
    }
}

/// The ends of the URL bar's selection, lower first.
pub open spec fn bar_selection(bar: UrlBarState) -> Option<(usize, usize)> {
    match bar.selection_start {
        Some(s) => if s <= bar.cursor_pos {
            Some((s, bar.cursor_pos))
        } else {
            Some((bar.cursor_pos, s))
        },
        None => None,
    }
}

/// The URL bar `bar` with its selection replaced by `ins`, or `ins` put at
/// the cursor: the new text and the new cursor.
pub open spec fn bar_typed(bar: UrlBarState, ins: Seq<char>) -> (Seq<char>, int) {
    match bar_selection(bar) {
        Some((a, b)) => (text::splice(bar.text@, a as int, b as int, ins), a + text::byte_len(ins)),
        None => (
            text::splice(bar.text@, bar.cursor_pos as int, bar.cursor_pos as int, ins),
            bar.cursor_pos + text::byte_len(ins),
        ),
    }
}

/// The key does not make `handle_url_bar_key_event` panic: the bytes it
/// replaces or removes are cut at character boundaries.
pub open spec fn bar_key_safe(bar: UrlBarState, key: LogicalKey) -> bool {
    let sel_ok = match bar_selection(bar) {
        Some((a, b)) => text::is_boundary(bar.text@, a as int) && text::is_boundary(
            bar.text@,
            b as int,
        ),
        None => true,
    };
    match key {
        LogicalKey::Backspace => if bar.selection_start is Some {
            sel_ok
        } else {
            bar.cursor_pos > 0 ==> text::is_boundary(bar.text@, bar.cursor_pos - 1)
                && bar.cursor_pos - 1 < text::byte_len(bar.text@)
        },
        LogicalKey::Delete => if bar.selection_start is Some {
            sel_ok
        } else {
            bar.cursor_pos < text::byte_len(bar.text@) ==> text::is_boundary(
                bar.text@,
                bar.cursor_pos as int,
            )
        },
        LogicalKey::Character(_) => if bar.selection_start is Some {
            sel_ok
        } else {
            text::is_boundary(bar.text@, bar.cursor_pos as int)
        },
        _ => true,
    }
}

/// The text a typed address stands for: kept when it has a scheme, given
/// `https://` when it looks like a host name, and otherwise searched for.
pub open spec fn navigation_candidate(url: Seq<char>) -> Seq<char> {
    if text::contains_text(url, "://"@) {
        url
    } else if url.contains('.') && !url.contains(' ') {
        "https://"@ + url
    } else {
        "https://duckduckgo.com/?q="@ + plus_for_space(url)
    }
}

/// The address of the home page, the new-tab page.
pub open spec fn home_page() -> Seq<char> {
    "eesha://newtab"@
}

/// `s` with every space turned into `+`.
pub open spec fn plus_for_space(s: Seq<char>) -> Seq<char> {
    Seq::new(s.len(), |i: int| if s[i] == ' ' { '+' } else { s[i] })
}

/// What `url::Url::parse` makes of `input`: the serialization of the parsed
/// URL, or nothing when the input is not a URL.
pub uninterp spec fn url_parse(input: Seq<char>) -> Option<Seq<char>>;

/// Parses `input` with `url::Url::parse` and serializes the result. The
/// contract only names the result (`url_parse`); what the URL standard
/// makes of an input is not restated here.
#[verifier::external_body]
fn parse_url(input: &str) -> (r: Option<String>)
    ensures
        match r {
            Some(s) => url_parse(input@) == Some(s@),
            None => url_parse(input@) is None,
        },
{
    match url::Url::parse(input) {
        Ok(u) => Some(u.into()),
        Err(_) => None,
    }
}

/// What the URL bar's editing keys make of its text, cursor and selection.
pub open spec fn bar_edit(bar: UrlBarState, key: LogicalKey) -> (Seq<char>, int, Option<usize>) {
    let t = bar.text@;
    let c = bar.cursor_pos as int;
    let unchanged = (t, c, bar.selection_start);
    match key {
        LogicalKey::Backspace => match bar_selection(bar) {
            Some((a, b)) => (text::splice(t, a as int, b as int, Seq::empty()), a as int, None),
            None => if c > 0 {
                (
                    text::splice(t, c - 1, text::next_boundary(t, c - 1), Seq::empty()),
                    c - 1,
                    bar.selection_start,
                )
            } else {
                unchanged
            },
        },
        LogicalKey::Delete => match bar_selection(bar) {
            Some((a, b)) => (text::splice(t, a as int, b as int, Seq::empty()), a as int, None),
            None => if c < text::byte_len(t) {
                (
                    text::splice(t, c, text::next_boundary(t, c), Seq::empty()),
                    c,
                    bar.selection_start,
                )
            } else {
                unchanged
            },
        },
        LogicalKey::ArrowLeft => (t, if c > 0 { c - 1 } else { c }, bar.selection_start),
        LogicalKey::ArrowRight => (
            t,
            if c < text::byte_len(t) { c + 1 } else { c },
            bar.selection_start,
        ),
        LogicalKey::Home => (t, 0, bar.selection_start),
        LogicalKey::End => (t, text::byte_len(t) as int, bar.selection_start),
        LogicalKey::Character(s) => {
            let r = bar_typed(bar, s@);
            (r.0, r.1, None)
        },
        _ => unchanged,
    }
}

/// In the URL bar the arrow keys move the cursor by exactly one byte when
/// there is room on that side, Home and End go to the two ends, and none of
/// them changes the text or the selection.
pub proof fn law_bar_motions(bar: UrlBarState)
    ensures
        ({
            let r = bar_edit(bar, LogicalKey::ArrowRight);
            &&& r.0 == bar.text@ && r.2 == bar.selection_start
            &&& bar.cursor_pos < text::byte_len(bar.text@) ==> r.1 == bar.cursor_pos + 1
            &&& bar.cursor_pos >= text::byte_len(bar.text@) ==> r.1 == bar.cursor_pos
        }),
        ({
            let r = bar_edit(bar, LogicalKey::ArrowLeft);
            &&& r.0 == bar.text@ && r.2 == bar.selection_start
            &&& bar.cursor_pos > 0 ==> r.1 == bar.cursor_pos - 1
            &&& bar.cursor_pos == 0 ==> r.1 == 0
        }),
        ({
            let r = bar_edit(bar, LogicalKey::Home);
            r.0 == bar.text@ && r.1 == 0 && r.2 == bar.selection_start
        }),
        ({
            let r = bar_edit(bar, LogicalKey::End);
            r.0 == bar.text@ && r.1 == text::byte_len(bar.text@) && r.2 == bar.selection_start
        }),
{
}

/// In the URL bar, typing replaces the selection (or inserts at the cursor)
/// and puts the cursor after the typed text; Backspace and Delete remove the
/// selection when there is one, and otherwise Backspace removes the
/// character starting one byte before the cursor and moves the cursor back
/// one byte, while Delete removes the character at the cursor.
pub proof fn law_bar_edits(bar: UrlBarState, typed: String)
    requires
        bar_key_safe(bar, LogicalKey::Backspace),
        bar_key_safe(bar, LogicalKey::Delete),
        bar_key_safe(bar, LogicalKey::Character(typed)),
    ensures
        ({
            let t = bar.text@;
            let c = bar.cursor_pos as int;
            match bar_selection(bar) {
                None => {
                    &&& bar_edit(bar, LogicalKey::Character(typed)) == (
                        t.take(text::index_at(t, c)) + typed@ + t.skip(text::index_at(t, c)),
                        c + text::byte_len(typed@),
                        None::<usize>,
                    )
                    &&& c > 0 ==> bar_edit(bar, LogicalKey::Backspace) == (
                        t.remove(text::index_at(t, c - 1)),
                        c - 1,
                        bar.selection_start,
                    )
                    &&& c < text::byte_len(t) ==> bar_edit(bar, LogicalKey::Delete) == (
                        t.remove(text::index_at(t, c)),
                        c,
                        bar.selection_start,
                    )
                },
                Some((lo, hi)) => {
                    let rest = t.take(text::index_at(t, lo as int)) + t.skip(
                        text::index_at(t, hi as int),
                    );
                    &&& bar_edit(bar, LogicalKey::Character(typed)) == (
                        t.take(text::index_at(t, lo as int)) + typed@ + t.skip(
                            text::index_at(t, hi as int),
                        ),
                        lo + text::byte_len(typed@),
                        None::<usize>,
                    )
                    &&& bar_edit(bar, LogicalKey::Backspace) == (rest, lo as int, None::<usize>)
                    &&& bar_edit(bar, LogicalKey::Delete) == (rest, lo as int, None::<usize>)
                },
            }
        }),
{
    let t = bar.text@;
    let c = bar.cursor_pos as int;
    if bar_selection(bar) is None {
        if c > 0 {
            text::lemma_boundary(t, c - 1);
            text::lemma_next_boundary(t, c - 1);
            let k = text::index_at(t, c - 1);
            assert(text::splice(t, c - 1, text::next_boundary(t, c - 1), Seq::empty()) =~= t.remove(
                k,
            ));
        }
        if c < text::byte_len(t) {
            text::lemma_boundary(t, c);
            text::lemma_next_boundary(t, c);
            let k = text::index_at(t, c);
            assert(text::splice(t, c, text::next_boundary(t, c), Seq::empty()) =~= t.remove(k));
        }
    } else {
        let (lo, hi) = bar_selection(bar)->0;
        assert(text::splice(t, lo as int, hi as int, Seq::empty()) =~= t.take(
            text::index_at(t, lo as int),
        ) + t.skip(text::index_at(t, hi as int)));
    }
}

/// What an address typed into the bar is loaded as: with `://` in it, as
/// typed; else, when it holds a dot and no space (whatever else it holds,
/// such as `/`), as `https://` followed by the address; else as a DuckDuckGo
/// search whose query is the address with each space turned into `+`.
pub proof fn law_candidate_cases(url: Seq<char>)
    ensures
        text::contains_text(url, "://"@) ==> navigation_candidate(url) == url,
        !text::contains_text(url, "://"@) && url.contains('.') && !url.contains(' ')
            ==> navigation_candidate(url) == "https://"@ + url,
        !text::contains_text(url, "://"@) && !(url.contains('.') && !url.contains(' ')) ==> {
            let p = "https://duckduckgo.com/?q="@;
            let r = navigation_candidate(url);
            &&& r.len() == p.len() + url.len()
            &&& r.take(p.len() as int) == p
            &&& forall|i: int|
                0 <= i < url.len() ==> #[trigger] r[p.len() + i] == if url[i] == ' ' {
                    '+'
                } else {
                    url[i]
                }
        },
{
    let p = "https://duckduckgo.com/?q="@;
    let r = navigation_candidate(url);
    if !text::contains_text(url, "://"@) && !(url.contains('.') && !url.contains(' ')) {
        assert(r.take(p.len() as int) =~= p);
        assert forall|i: int| 0 <= i < url.len() implies #[trigger] r[p.len() + i] == if url[i]
            == ' ' {
            '+'
        } else {
            url[i]
        } by {
            assert(r[p.len() + i] == plus_for_space(url)[i]);
        }
    }
}

/// The home page is the new-tab page.
pub proof fn law_home_page()
    ensures
        home_page() == "eesha://newtab"@,
{
}

/// A click on a widget asks for: going back exactly when back is possible,
/// going forward exactly when forward is possible (nothing otherwise),
/// stopping a load while loading and reloading otherwise, the home page, the
/// address bar's focus, a new tab, switching to or closing the tab with the
/// widget's index; bookmark, menu and downloads buttons ask for nothing.
pub proof fn law_click_results(nav: NavigationState, index: usize)
    ensures
        click_result(nav, WidgetKind::BackButton) is GoBack <==> nav.can_go_back,
        !nav.can_go_back ==> click_result(nav, WidgetKind::BackButton) is NoAction,
        click_result(nav, WidgetKind::ForwardButton) is GoForward <==> nav.can_go_forward,
        !nav.can_go_forward ==> click_result(nav, WidgetKind::ForwardButton) is NoAction,
        click_result(nav, WidgetKind::RefreshButton) is StopLoading <==> nav.loading,
        !nav.loading ==> click_result(nav, WidgetKind::RefreshButton) is Refresh,
        click_result(nav, WidgetKind::HomeButton) is GoHome,
        click_result(nav, WidgetKind::UrlBar) is FocusUrlBar,
        click_result(nav, WidgetKind::NewTabButton) is NewTab,
        click_result(nav, WidgetKind::Tab { index }) == ChromeEventResult::SwitchTab(index),
        click_result(nav, WidgetKind::TabClose { index }) == ChromeEventResult::CloseTab(index),
        click_result(nav, WidgetKind::BookmarkButton { index }) is NoAction,
        click_result(nav, WidgetKind::MenuButton) is NoAction,
        click_result(nav, WidgetKind::DownloadsButton) is NoAction,
{
}

/// An address typed without a scheme is always loaded over `https`, as a
/// host name or as a search.
pub proof fn law_candidate_uses_https(url: Seq<char>)
    ensures
        !text::contains_text(url, "://"@) ==> text::starts_with(
            navigation_candidate(url),
            "https://"@,
        ),
{
    reveal_strlit("https://");
    reveal_strlit("https://duckduckgo.com/?q=");
    let r = navigation_candidate(url);
    if !text::contains_text(url, "://"@) {
        if url.contains('.') && !url.contains(' ') {
            assert(r.take(8) =~= "https://"@);
        } else {
            let g = "https://duckduckgo.com/?q="@;
            assert(r.take(8) =~= g.take(8));
            assert(g.take(8) =~= "https://"@);
        }
    }
}

/// Whether `handle_url_bar_key_event` can take `key` in the bar's present
/// state without cutting its text inside a character (`bar_key_safe`).
pub fn bar_key_is_safe(bar: &UrlBarState, key: &LogicalKey) -> (b: bool)
    ensures
        b == bar_key_safe(*bar, *key),
{
    let t = bar.text.as_str();
    let c = bar.cursor_pos;
    let sel_ok = match bar.selection_start {
        Some(s) => {
            let lo = if s <= c { s } else { c };
            let hi = if s <= c { c } else { s };
            text::boundary_at(t, lo) && text::boundary_at(t, hi)
        },
        None => true,
    };
    match key {
        LogicalKey::Backspace => match bar.selection_start {
            Some(_) => sel_ok,
            None => c == 0 || (c - 1 < text::byte_length(t) && text::boundary_at(t, c - 1)),
        },
        LogicalKey::Delete => match bar.selection_start {
            Some(_) => sel_ok,
            None => c >= text::byte_length(t) || text::boundary_at(t, c),
        },
        LogicalKey::Character(_) => match bar.selection_start {
            Some(_) => sel_ok,
            None => text::boundary_at(t, c),
        },
        _ => true,
    }
}

/// The address `navigation_candidate` builds.
pub fn navigation_url(url: &str) -> (r: String)
    ensures
        r@ == navigation_candidate(url@),
{
    if text::has_text(url, "://") {
        String::from_str(url)
    } else if text::has_char(url, '.') && !text::has_char(url, ' ') {
        String::from_str("https://").concat(url)
    } else {
        let v = text::chars_of(url);
        let mut q = String::from_str("https://duckduckgo.com/?q=");
        let ghost start = q@;
        let mut i: usize = 0;
        while i < v.len()
            invariant
                v@ == url@,
                i <= v.len(),
                q@ == start + plus_for_space(url@.take(i as int)),
            decreases v.len() - i,
        {
            let c = if v[i] == ' ' { '+' } else { v[i] };
            text::push_char(&mut q, c);
            assert(plus_for_space(url@.take(i + 1)) =~= plus_for_space(url@.take(i as int)).push(c));
            i = i + 1;
        }
        assert(url@.take(v.len() as int) =~= url@);
        q
    }
}

/// The load request for a parsed address: the URL goes to the active web
/// view, and nothing is sent when the address did not parse or no tab is
/// active.
pub fn load_request(active: Option<WebViewId>, parsed: Option<String>) -> (r: Option<ConstellationMessage>)
    ensures
        match (active, parsed) {
            (Some(id), Some(u)) => r matches Some(ConstellationMessage::LoadUrl(i, v)) && i == id
                && v@ == u@,
            _ => r is None,
        },
{
    match (active, parsed) {
        (Some(id), Some(u)) => Some(ConstellationMessage::LoadUrl(id, u)),
        _ => None,
    }
}

impl ChromeEventHandler {
    /// Check if a mouse button is the left button.
    pub fn is_left_button(button: MouseButton) -> (b: bool)
        ensures
            b == (button == MouseButton::Left),
    {
        match button {
            MouseButton::Left => true,
            _ => false,
        }
    }

    /// Handle a mouse move within the chrome area, given the widget under the
    /// pointer (if any). Returns true if the event was consumed by the chrome.
    pub fn handle_mouse_move(state: &mut ChromeState, hit: Option<WidgetId>) -> (consumed: bool)
        ensures
            consumed == hit is Some,
            final(state).hovered() == hit,
            final(state).is_dirty() == (old(state).is_dirty() || old(state).hovered() != hit),
            final(state).pressed() == old(state).pressed(),
            final(state).upcoming_widget_id() == old(state).upcoming_widget_id(),
            final(state).tabs == old(state).tabs,
            final(state).active_tab_index == old(state).active_tab_index,
            final(state).nav_state == old(state).nav_state,
            final(state).url_bar == old(state).url_bar,
            final(state).show_bookmark_bar == old(state).show_bookmark_bar,
    {
        let old_hovered = state.hovered_widget();
        if old_hovered != hit {
            state.set_hovered(hit);
        }
        hit.is_some()
    }

    /// Handle a mouse button down within the chrome area, given the widget
    /// under the pointer. Returns (consumed, result).
    pub fn handle_mouse_down(
        state: &mut ChromeState,
        hit: Option<WidgetId>,
        button: MouseButton,
    ) -> (r: (bool, ChromeEventResult))
        ensures
            r.1 is NoAction,
            r.0 == (button == MouseButton::Left && hit is Some),
            r.0 ==> final(state).pressed() == hit && final(state).is_dirty(),
            !r.0 ==> final(state).pressed() == old(state).pressed() && final(state).is_dirty()
                == old(state).is_dirty(),
            final(state).hovered() == old(state).hovered(),
            final(state).upcoming_widget_id() == old(state).upcoming_widget_id(),
            final(state).tabs == old(state).tabs,
            final(state).active_tab_index == old(state).active_tab_index,
            final(state).nav_state == old(state).nav_state,
            final(state).url_bar == old(state).url_bar,
            final(state).show_bookmark_bar == old(state).show_bookmark_bar,
    {
        if !Self::is_left_button(button) {
            return (false, ChromeEventResult::NoAction);
        }
        match hit {
            Some(id) => {
                state.set_pressed(Some(id));
                (true, ChromeEventResult::NoAction)
            },
            None => (false, ChromeEventResult::NoAction),
        }
    }

    /// Handle a mouse button up within the chrome area, given the widget under
    /// the pointer. A click happens only when the button comes up on the
    /// widget it went down on. Returns (consumed, result).
    pub fn handle_mouse_up(
        state: &mut ChromeState,
        hit: Option<(WidgetId, WidgetKind)>,
        button: MouseButton,
    ) -> (r: (bool, ChromeEventResult))
        ensures
            button != MouseButton::Left ==> r.0 == false && r.1 is NoAction && *final(state)
                == *old(state),
            button == MouseButton::Left ==> {
                &&& final(state).pressed() is None
                &&& final(state).is_dirty()
                &&& match (old(state).pressed(), hit) {
                    (Some(p), Some((id, kind))) => if p == id {
                        r.0 && r.1 == click_result(old(state).nav_state, kind)
                    } else {
                        r.0 && r.1 is NoAction
                    },
                    _ => r.0 == hit is Some && r.1 is NoAction,
                }
            },
            final(state).hovered() == old(state).hovered(),
            final(state).upcoming_widget_id() == old(state).upcoming_widget_id(),
            final(state).tabs == old(state).tabs,
            final(state).active_tab_index == old(state).active_tab_index,
            final(state).nav_state == old(state).nav_state,
            final(state).url_bar == old(state).url_bar,
            final(state).show_bookmark_bar == old(state).show_bookmark_bar,
    {
        if !Self::is_left_button(button) {
            return (false, ChromeEventResult::NoAction);
        }
        let pressed = state.pressed_widget();
        match (pressed, hit) {
            (Some(pressed_id), Some((release_id, kind))) => {
                if pressed_id == release_id {
                    let result = Self::handle_widget_click(state, &kind);
                    state.set_pressed(None);
                    return (true, result);
                }
            },
            _ => {},
        }
        state.set_pressed(None);
        (hit.is_some(), ChromeEventResult::NoAction)
    }

    /// Handle a click on a specific widget.
    pub fn handle_widget_click(state: &ChromeState, kind: &WidgetKind) -> (r: ChromeEventResult)
        ensures
            r == click_result(state.nav_state, *kind),
    {
        match kind {
            WidgetKind::BackButton => {
                if state.nav_state.can_go_back {
                    ChromeEventResult::GoBack
                } else {
                    ChromeEventResult::NoAction
                }
            },
            WidgetKind::ForwardButton => {
                if state.nav_state.can_go_forward {
                    ChromeEventResult::GoForward
                } else {
                    ChromeEventResult::NoAction
                }
            },
            WidgetKind::RefreshButton => {
                if state.nav_state.loading {
                    ChromeEventResult::StopLoading
                } else {
                    ChromeEventResult::Refresh
                }
            },
            WidgetKind::HomeButton => ChromeEventResult::GoHome,
            WidgetKind::UrlBar => ChromeEventResult::FocusUrlBar,
            WidgetKind::NewTabButton => ChromeEventResult::NewTab,
            WidgetKind::Tab { index } => ChromeEventResult::SwitchTab(*index),
            WidgetKind::TabClose { index } => ChromeEventResult::CloseTab(*index),
            WidgetKind::BookmarkButton { index: _ } => ChromeEventResult::NoAction,
            WidgetKind::MenuButton => ChromeEventResult::NoAction,
            WidgetKind::DownloadsButton => ChromeEventResult::NoAction,
        }
    }
    /// Handle a keyboard event while the URL bar is focused.
    /// Returns (consumed, result).
    pub fn handle_url_bar_key_event(
        state: &mut ChromeState,
        key: &LogicalKey,
        state_key: KeyState,
        _modifiers: KeyModifiers,
    ) -> (r: (bool, ChromeEventResult))
        requires
            old(state).url_bar.focused && state_key == KeyState::Down ==> bar_key_safe(
                old(state).url_bar,
                *key,
            ),
        ensures
            !old(state).url_bar.focused ==> !r.0 && r.1 is NoAction && *final(state) == *old(
                state,
            ),
            old(state).url_bar.focused && state_key == KeyState::Up ==> r.0 && r.1 is NoAction
                && *final(state) == *old(state),
            old(state).url_bar.focused && state_key == KeyState::Down ==> r.0 && match *key {
                LogicalKey::Enter => if text::trim(old(state).url_bar.text@).len() > 0 {
                    &&& r.1 matches ChromeEventResult::NavigateToUrl(u) && u@ == text::trim(
                        old(state).url_bar.text@,
                    )
                    &&& !final(state).url_bar.focused
                    &&& final(state).url_bar.text == old(state).url_bar.text
                    &&& final(state).url_bar.cursor_pos == old(state).url_bar.cursor_pos
                    &&& final(state).url_bar.selection_start == old(state).url_bar.selection_start
                    &&& final(state).same_but_url_bar(old(state))
                    &&& final(state).is_dirty()
                } else {
                    r.1 is NoAction && *final(state) == *old(state)
                },
                LogicalKey::Escape => {
                    &&& r.1 is NoAction
                    &&& !final(state).url_bar.focused
                    &&& final(state).url_bar.text == match old(state).active() {
                        Some(t) => t.url,
                        None => old(state).url_bar.text,
                    }
                    &&& final(state).url_bar.cursor_pos == old(state).url_bar.cursor_pos
                    &&& final(state).url_bar.selection_start == old(state).url_bar.selection_start
                    &&& final(state).same_but_url_bar(old(state))
                    &&& final(state).is_dirty()
                },
                LogicalKey::Other => r.1 is NoAction && *final(state) == *old(state),
                _ => {
                    &&& r.1 is NoAction
                    &&& bar_edit(old(state).url_bar, *key) == (
                        final(state).url_bar.text@,
                        final(state).url_bar.cursor_pos as int,
                        final(state).url_bar.selection_start,
                    )
                    &&& final(state).url_bar.focused
                    &&& final(state).same_but_url_bar(old(state))
                    &&& final(state).is_dirty()
                },
            },
    {
        if !state.url_bar.focused {
            return (false, ChromeEventResult::NoAction);
        }
        if state_key == KeyState::Up {
            return (true, ChromeEventResult::NoAction);
        }
        match key {
            LogicalKey::Enter => {
                let url = text::trimmed(state.url_bar.text.as_str());
                if !url.as_str().is_empty() {
                    state.url_bar.focused = false;
                    state.mark_dirty();
                    return (true, ChromeEventResult::NavigateToUrl(url));
                }
                (true, ChromeEventResult::NoAction)
            },
            LogicalKey::Escape => {
                if state.active_tab_index < state.tabs.len() {
                    state.url_bar.text = state.tabs[state.active_tab_index].url.clone();
                }
                state.url_bar.focused = false;
                state.mark_dirty();
                (true, ChromeEventResult::NoAction)
            },
            LogicalKey::Backspace => {
                if let Some(sel_start) = state.url_bar.selection_start {
                    let start = if sel_start <= state.url_bar.cursor_pos {
                        sel_start
                    } else {
                        state.url_bar.cursor_pos
                    };
                    let end = if sel_start <= state.url_bar.cursor_pos {
                        state.url_bar.cursor_pos
                    } else {
                        sel_start
                    };
                    state.url_bar.text = text::remove_bytes(state.url_bar.text.as_str(), start, end);
                    state.url_bar.cursor_pos = start;
                    state.url_bar.selection_start = None;
                } else if state.url_bar.cursor_pos > 0 {
                    let pos = state.url_bar.cursor_pos - 1;
                    let next = text::next_boundary_of(state.url_bar.text.as_str(), pos);
                    state.url_bar.text = text::remove_bytes(state.url_bar.text.as_str(), pos, next);
                    state.url_bar.cursor_pos = pos;
                }
                state.mark_dirty();
                (true, ChromeEventResult::NoAction)
            },
            LogicalKey::Delete => {
                if let Some(sel_start) = state.url_bar.selection_start {
                    let start = if sel_start <= state.url_bar.cursor_pos {
                        sel_start
                    } else {
                        state.url_bar.cursor_pos
                    };
                    let end = if sel_start <= state.url_bar.cursor_pos {
                        state.url_bar.cursor_pos
                    } else {
                        sel_start
                    };
                    state.url_bar.text = text::remove_bytes(state.url_bar.text.as_str(), start, end);
                    state.url_bar.cursor_pos = start;
                    state.url_bar.selection_start = None;
                } else if state.url_bar.cursor_pos < text::byte_length(state.url_bar.text.as_str()) {
                    let pos = state.url_bar.cursor_pos;
                    let next = text::next_boundary_of(state.url_bar.text.as_str(), pos);
                    state.url_bar.text = text::remove_bytes(state.url_bar.text.as_str(), pos, next);
                }
                state.mark_dirty();
                (true, ChromeEventResult::NoAction)
            },
            LogicalKey::ArrowLeft => {
                if state.url_bar.cursor_pos > 0 {
                    state.url_bar.cursor_pos = state.url_bar.cursor_pos - 1;
                }
                state.mark_dirty();
                (true, ChromeEventResult::NoAction)
            },
            LogicalKey::ArrowRight => {
                if state.url_bar.cursor_pos < text::byte_length(state.url_bar.text.as_str()) {
                    state.url_bar.cursor_pos = state.url_bar.cursor_pos + 1;
                }
                state.mark_dirty();
                (true, ChromeEventResult::NoAction)
            },
            LogicalKey::Home => {
                state.url_bar.cursor_pos = 0;
                state.mark_dirty();
                (true, ChromeEventResult::NoAction)
            },
            LogicalKey::End => {
                state.url_bar.cursor_pos = text::byte_length(state.url_bar.text.as_str());
                state.mark_dirty();
                (true, ChromeEventResult::NoAction)
            },
            LogicalKey::Character(c) => {
                let ghost bar = state.url_bar;
                let (start, end) = match state.url_bar.selection_start {
                    Some(sel_start) => if sel_start <= state.url_bar.cursor_pos {
                        (sel_start, state.url_bar.cursor_pos)
                    } else {
                        (state.url_bar.cursor_pos, sel_start)
                    },
                    None => (state.url_bar.cursor_pos, state.url_bar.cursor_pos),
                };
                let new_text = text::splice_string(state.url_bar.text.as_str(), start, end, c.as_str());
                let total = text::byte_length(new_text.as_str());
                let n = text::byte_length(c.as_str());
                proof {
                    crate::editing::lemma_splice(bar.text@, start as int, end as int, c@);
                }
                state.url_bar.text = new_text;
                state.url_bar.cursor_pos = start + n;
                state.url_bar.selection_start = None;
                state.mark_dirty();
                (true, ChromeEventResult::NoAction)
            },
            LogicalKey::Other => (true, ChromeEventResult::NoAction),
        }
    }

    /// Carry out a chrome event result: the chrome's own state changes here,
    /// and the request for the browser engine, if any, is returned.
    pub fn execute_result(result: ChromeEventResult, state: &mut ChromeState) -> (m: Option<
        ConstellationMessage,
    >)
        ensures
            match result {
                ChromeEventResult::GoBack => *final(state) == *old(state) && m == match old(
                    state,
                ).active() {
                    Some(t) => Some(
                        ConstellationMessage::TraverseHistory(
                            t.webview_id,
                            TraversalDirection::Back(1),
                        ),
                    ),
                    None => None,
                },
                ChromeEventResult::GoForward => *final(state) == *old(state) && m == match old(
                    state,
                ).active() {
                    Some(t) => Some(
                        ConstellationMessage::TraverseHistory(
                            t.webview_id,
                            TraversalDirection::Forward(1),
                        ),
                    ),
                    None => None,
                },
                ChromeEventResult::Refresh => *final(state) == *old(state) && m == match old(
                    state,
                ).active() {
                    Some(t) => Some(ConstellationMessage::Reload(t.webview_id)),
                    None => None,
                },
                ChromeEventResult::GoHome => *final(state) == *old(state) && match (
                    old(state).active(),
                    url_parse(home_page()),
                ) {
                    (Some(t), Some(p)) => m matches Some(ConstellationMessage::LoadUrl(id, u)) && id
                        == t.webview_id && u@ == p,
                    _ => m is None,
                },
                ChromeEventResult::NavigateToUrl(url) => *final(state) == *old(state) && match (
                    old(state).active(),
                    url_parse(navigation_candidate(url@)),
                ) {
                    (Some(t), Some(p)) => m matches Some(ConstellationMessage::LoadUrl(id, u)) && id
                        == t.webview_id && u@ == p,
                    _ => m is None,
                },
                ChromeEventResult::SwitchTab(index) => m is None && final(state).activated(
                    old(state),
                    index,
                ),
                ChromeEventResult::CloseTab(index) => *final(state) == *old(state) && m == if index
                    < old(state).tabs.len() {
                    Some(ConstellationMessage::CloseWebView(old(state).tabs@[index as int].webview_id))
                } else {
                    None
                },
                ChromeEventResult::FocusUrlBar => {
                    &&& m is None
                    &&& final(state).url_bar.focused
                    &&& final(state).url_bar.text == old(state).url_bar.text
                    &&& final(state).url_bar.cursor_pos == text::byte_len(old(state).url_bar.text@)
                    &&& final(state).url_bar.selection_start == Some(0usize)
                    &&& final(state).same_but_url_bar(old(state))
                    &&& final(state).is_dirty()
                },
                _ => m is None && *final(state) == *old(state),
            },
    {
        match result {
            ChromeEventResult::GoBack => match state.active_webview_id() {
                Some(id) => Some(ConstellationMessage::TraverseHistory(id, TraversalDirection::Back(1))),
                None => None,
            },
            ChromeEventResult::GoForward => match state.active_webview_id() {
                Some(id) => Some(
                    ConstellationMessage::TraverseHistory(id, TraversalDirection::Forward(1)),
                ),
                None => None,
            },
            ChromeEventResult::Refresh => match state.active_webview_id() {
                Some(id) => Some(ConstellationMessage::Reload(id)),
                None => None,
            },
            ChromeEventResult::StopLoading => None,
            ChromeEventResult::GoHome => {
                load_request(state.active_webview_id(), parse_url("eesha://newtab"))
            },
            ChromeEventResult::NavigateToUrl(url) => {
                let candidate = navigation_url(url.as_str());
                let parsed = parse_url(candidate.as_str());
                load_request(state.active_webview_id(), parsed)
            },
            ChromeEventResult::NewTab => None,
            ChromeEventResult::SwitchTab(index) => {
                state.set_active_tab(index);
                None
            },
            ChromeEventResult::CloseTab(index) => {
                if index < state.tabs.len() {
                    Some(ConstellationMessage::CloseWebView(state.tabs[index].webview_id))
                } else {
                    None
                }
            },
            ChromeEventResult::FocusUrlBar => {
                state.url_bar.focused = true;
                state.url_bar.cursor_pos = text::byte_length(state.url_bar.text.as_str());
                state.url_bar.selection_start = Some(0);
                state.mark_dirty();
                None
            },
            ChromeEventResult::RepaintNeeded | ChromeEventResult::NoAction => None,
        }
    }
}

} // verus!
