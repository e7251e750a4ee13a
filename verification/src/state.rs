//! State of the browser chrome: the tabs, which one is active, the
//! navigation flags, the address bar, and the widget interaction state.

use vstd::prelude::*;
use vstd::string::*;
use crate::text;
use crate::widget::{WebViewId, WidgetId, WidgetIdCounter};

verus! {

/// Information about a single tab.
#[derive(Clone, Debug)]
pub struct TabInfo {
    /// The WebView ID for this tab.
    pub webview_id: WebViewId,
    /// The title of the page.
    pub title: String,
    /// The URL of the page.
    pub url: String,
    /// Whether this tab is loading.
    pub loading: bool,
    /// Whether this tab can go back.
    pub can_go_back: bool,
    /// Whether this tab can go forward.
    pub can_go_forward: bool,
}

/// State of the URL bar.
#[derive(Clone, Debug)]
pub struct UrlBarState {
    /// The current text in the URL bar.
    pub text: String,
    /// Whether the URL bar is focused.
    pub focused: bool,
    /// The cursor position (byte offset).
    pub cursor_pos: usize,
    /// The selection start (if any).
    pub selection_start: Option<usize>,
}

impl Default for UrlBarState {
    fn default() -> (s: Self)
        ensures
            s.text@ == Seq::<char>::empty(),
            !s.focused,
            s.cursor_pos == 0,
            s.selection_start is None,
    {
        Self { text: String::new(), focused: false, cursor_pos: 0, selection_start: None }
    }
}

/// Navigation state for the current tab.
#[derive(Clone, Copy, Debug, PartialEq, Eq, Structural)]
pub struct NavigationState {
    /// Can navigate back.
    pub can_go_back: bool,
    /// Can navigate forward.
    pub can_go_forward: bool,
    /// Current page is loading.
    pub loading: bool,
}

impl Default for NavigationState {
    fn default() -> (s: Self)
        ensures
            !s.can_go_back && !s.can_go_forward && !s.loading,
    {
        NavigationState { can_go_back: false, can_go_forward: false, loading: false }
    }
}

/// Index of the first tab that shows the web view `id`.
pub open spec fn tab_position(tabs: Seq<TabInfo>, id: WebViewId) -> Option<int>
    decreases tabs.len(),
{
    if tabs.len() == 0 {
        None
    } else {
        match tab_position(tabs.drop_last(), id) {
            Some(i) => Some(i),
            None => if tabs.last().webview_id == id {
                Some(tabs.len() - 1)
            } else {
                None
            },
        }
    }
}

proof fn lemma_position_extends(s: Seq<TabInfo>, k: int, id: WebViewId)
    requires
        0 <= k <= s.len(),
        tab_position(s.take(k), id) is Some,
    ensures
        tab_position(s, id) == tab_position(s.take(k), id),
    decreases s.len(),
{
    if k == s.len() {
        assert(s.take(k) =~= s);
    } else {
        assert(s.drop_last().take(k) =~= s.take(k));
        lemma_position_extends(s.drop_last(), k, id);
    }
}

proof fn lemma_position_bounds(s: Seq<TabInfo>, id: WebViewId)
    ensures
        tab_position(s, id) matches Some(i) ==> 0 <= i < s.len() && s[i].webview_id == id,
    decreases s.len(),
{
    if s.len() > 0 {
        lemma_position_bounds(s.drop_last(), id);
    }
}

/// Finds the first tab that shows `id`.
fn find_tab(tabs: &Vec<TabInfo>, id: WebViewId) -> (r: Option<usize>)
    ensures
        match r {
            Some(i) => tab_position(tabs@, id) == Some(i as int),
            None => tab_position(tabs@, id) is None,
        },
{
    let mut i: usize = 0;
    assert(tabs@.take(0) =~= Seq::<TabInfo>::empty());
    while i < tabs.len()
        invariant
            i <= tabs.len(),
            tab_position(tabs@.take(i as int), id) is None,
        decreases tabs.len() - i,
    {
        assert(tabs@.take(i + 1).drop_last() =~= tabs@.take(i as int));
        if tabs[i].webview_id == id {
            proof {
                lemma_position_extends(tabs@, i + 1, id);
            }
            return Some(i);
        }
        i = i + 1;
    }
    assert(tabs@.take(tabs.len() as int) =~= tabs@);
    None
}

/// The overall state of the browser chrome.
pub struct ChromeState {
    /// Tab information.
    pub tabs: Vec<TabInfo>,
    /// Index of the active tab.
    pub active_tab_index: usize,
    /// Navigation state.
    pub nav_state: NavigationState,
    /// URL bar state.
    pub url_bar: UrlBarState,
    /// Whether the bookmark bar is visible.
    pub show_bookmark_bar: bool,
    /// Widget ID counter.
    pub widget_id_counter: WidgetIdCounter,
    /// Currently hovered widget ID.
    pub hovered_widget: Option<WidgetId>,
    /// Currently pressed widget ID.
    pub pressed_widget: Option<WidgetId>,
    /// Whether the chrome needs repainting.
    pub dirty: bool,
}

impl ChromeState {
    /// The widget under the pointer.
    pub open spec fn hovered(&self) -> Option<WidgetId> {
        self.hovered_widget
    }

    /// The widget the pointer went down on.
    pub open spec fn pressed(&self) -> Option<WidgetId> {
        self.pressed_widget
    }

    /// Whether the chrome must be painted again.
    pub open spec fn is_dirty(&self) -> bool {
        self.dirty
    }

    /// The widget ID that `next_widget_id` hands out next.
    pub open spec fn upcoming_widget_id(&self) -> u64 {
        self.widget_id_counter.upcoming()
    }

    /// The pointer and widget bookkeeping of `self` and `other` agree.
    pub open spec fn same_widgets(&self, other: &Self) -> bool {
        &&& self.hovered() == other.hovered()
        &&& self.pressed() == other.pressed()
        &&& self.upcoming_widget_id() == other.upcoming_widget_id()
    }

    /// The active index names a tab whenever there is one.
    pub open spec fn active_in_range(&self) -> bool {
        self.tabs.len() == 0 || self.active_tab_index < self.tabs.len()
    }

    /// The active tab, if the active index names one.
    pub open spec fn active(&self) -> Option<TabInfo> {
        if self.active_tab_index < self.tabs.len() {
            Some(self.tabs@[self.active_tab_index as int])
        } else {
            None
        }
    }

    /// `self` is `old` with only the tab list and the dirty flag changed.
    pub open spec fn only_tabs_changed(&self, old: &Self) -> bool {
        &&& self.active_tab_index == old.active_tab_index
        &&& self.nav_state == old.nav_state
        &&& self.url_bar.focused == old.url_bar.focused
        &&& self.url_bar.cursor_pos == old.url_bar.cursor_pos
        &&& self.url_bar.selection_start == old.url_bar.selection_start
        &&& self.show_bookmark_bar == old.show_bookmark_bar
        &&& self.same_widgets(old)
    }

    /// `self` is `old` with at most the URL bar and the dirty flag changed.
    pub open spec fn same_but_url_bar(&self, old: &Self) -> bool {
        &&& self.tabs == old.tabs
        &&& self.active_tab_index == old.active_tab_index
        &&& self.nav_state == old.nav_state
        &&& self.show_bookmark_bar == old.show_bookmark_bar
        &&& self.same_widgets(old)
    }

    /// `self` is `old` after `set_active_tab(index)`.
    pub open spec fn activated(&self, old: &Self, index: usize) -> bool {
        if index < old.tabs.len() {
            let t = old.tabs@[index as int];
            &&& self.active_tab_index == index
            &&& self.tabs == old.tabs
            &&& self.url_bar.text == t.url
            &&& self.url_bar.focused == old.url_bar.focused
            &&& self.url_bar.cursor_pos == old.url_bar.cursor_pos
            &&& self.url_bar.selection_start == old.url_bar.selection_start
            &&& self.nav_state == (NavigationState {
                can_go_back: t.can_go_back,
                can_go_forward: t.can_go_forward,
                loading: t.loading,
            })
            &&& self.show_bookmark_bar == old.show_bookmark_bar
            &&& self.same_widgets(old)
            &&& self.is_dirty()
        } else {
            *self == *old
        }
    }

    /// Create a new ChromeState.
    pub fn new() -> (s: Self)
        ensures
            s.tabs@ == Seq::<TabInfo>::empty(),
            s.active_tab_index == 0,
            s.nav_state == (NavigationState { can_go_back: false, can_go_forward: false, loading: false }),
            s.url_bar.text@ == Seq::<char>::empty(),
            !s.url_bar.focused,
            s.url_bar.cursor_pos == 0,
            s.url_bar.selection_start is None,
            !s.show_bookmark_bar,
            s.upcoming_widget_id() == 0,
            s.hovered() is None,
            s.pressed() is None,
            s.is_dirty(),
    {
        Self {
            tabs: Vec::new(),
            active_tab_index: 0,
            nav_state: NavigationState::default(),
            url_bar: UrlBarState::default(),
            show_bookmark_bar: false,
            widget_id_counter: WidgetIdCounter::default(),
            hovered_widget: None,
            pressed_widget: None,
            dirty: true,
        }
    }

    /// Add a new tab showing `url` and make it active; the new-tab page is
    /// titled "New Tab", any other page by its URL until it reports a title.
    pub fn add_tab(&mut self, webview_id: WebViewId, url: String)
        ensures
            final(self).tabs.len() == old(self).tabs.len() + 1,
            final(self).tabs@.drop_last() == old(self).tabs@,
            final(self).tabs@.last().webview_id == webview_id,
            final(self).tabs@.last().url == url,
            final(self).tabs@.last().title@ == (if url@ == "eesha://newtab"@ {
                "New Tab"@
            } else {
                url@
            }),
            !final(self).tabs@.last().loading,
            !final(self).tabs@.last().can_go_back,
            !final(self).tabs@.last().can_go_forward,
            final(self).active_tab_index == old(self).tabs.len(),
            final(self).url_bar.text == url,
            final(self).url_bar.focused == old(self).url_bar.focused,
            final(self).url_bar.cursor_pos == old(self).url_bar.cursor_pos,
            final(self).url_bar.selection_start == old(self).url_bar.selection_start,
            final(self).nav_state == old(self).nav_state,
            final(self).show_bookmark_bar == old(self).show_bookmark_bar,
            final(self).same_widgets(old(self)),
            final(self).is_dirty(),
            final(self).active_in_range(),
    {
        let title = if text::same_text(url.as_str(), "eesha://newtab") {
            String::from_str("New Tab")
        } else {
            url.clone()
        };
        let tab = TabInfo {
            webview_id,
            title,
            url: url.clone(),
            loading: false,
            can_go_back: false,
            can_go_forward: false,
        };
        self.tabs.push(tab);
        self.active_tab_index = self.tabs.len() - 1;
        self.url_bar.text = url;
        self.mark_dirty();
        assert(self.tabs@.drop_last() =~= old(self).tabs@);
    }

    /// Close a tab by index. The active index is pulled back onto the last
    /// tab when it falls off the end, and the URL bar shows the active tab.
    pub fn close_tab(&mut self, index: usize) -> (r: Option<TabInfo>)
        ensures
            index >= old(self).tabs.len() ==> r is None && *final(self) == *old(self),
            index < old(self).tabs.len() ==> {
                let n = (old(self).tabs.len() - 1) as usize;
                &&& r == Some(old(self).tabs@[index as int])
                &&& final(self).tabs@ == old(self).tabs@.remove(index as int)
                &&& final(self).active_tab_index == if old(self).active_tab_index >= n && n > 0 {
                    (n - 1) as usize
                } else {
                    old(self).active_tab_index
                }
                &&& final(self).url_bar.text == match final(self).active() {
                    Some(t) => t.url,
                    None => old(self).url_bar.text,
                }
                &&& final(self).url_bar.focused == old(self).url_bar.focused
                &&& final(self).url_bar.cursor_pos == old(self).url_bar.cursor_pos
                &&& final(self).url_bar.selection_start == old(self).url_bar.selection_start
                &&& final(self).nav_state == old(self).nav_state
                &&& final(self).show_bookmark_bar == old(self).show_bookmark_bar
                &&& final(self).same_widgets(old(self))
                &&& final(self).is_dirty()
                &&& final(self).active_in_range()
            },
    {
        if self.tabs.len() == 0 {
            return None;
        }
        if index >= self.tabs.len() {
            return None;
        }
        let tab = self.tabs.remove(index);
        if self.active_tab_index >= self.tabs.len() && self.tabs.len() > 0 {
            self.active_tab_index = self.tabs.len() - 1;
        }
        if self.active_tab_index < self.tabs.len() {
            self.url_bar.text = self.tabs[self.active_tab_index].url.clone();
        }
        self.mark_dirty();
        Some(tab)
    }

    /// Set the active tab by index, showing its URL and navigation flags.
    pub fn set_active_tab(&mut self, index: usize)
        ensures
            final(self).activated(old(self), index),
            old(self).active_in_range() ==> final(self).active_in_range(),
    {
        if index < self.tabs.len() {
            self.active_tab_index = index;
            let url = self.tabs[index].url.clone();
            let back = self.tabs[index].can_go_back;
            let forward = self.tabs[index].can_go_forward;
            let loading = self.tabs[index].loading;
            self.url_bar.text = url;
            self.nav_state.can_go_back = back;
            self.nav_state.can_go_forward = forward;
            self.nav_state.loading = loading;
            self.mark_dirty();
        }
    }

    /// Update the URL of the first tab showing `webview_id`; the URL bar
    /// follows when that web view is the active one and the bar is not being
    /// edited.
    pub fn update_tab_url(&mut self, webview_id: WebViewId, url: String)
        ensures
            match tab_position(old(self).tabs@, webview_id) {
                None => *final(self) == *old(self),
                Some(i) => {
                    &&& final(self).tabs@ == old(self).tabs@.update(
                        i,
                        TabInfo { url: url, ..old(self).tabs@[i] },
                    )
                    &&& final(self).url_bar.text == if old(self).active() matches Some(a)
                        && a.webview_id == webview_id && !old(self).url_bar.focused {
                        url
                    } else {
                        old(self).url_bar.text
                    }
                    &&& final(self).only_tabs_changed(old(self))
                    &&& final(self).is_dirty()
                },
            },
    {
        match find_tab(&self.tabs, webview_id) {
            Some(i) => {
                proof {
                    lemma_position_bounds(self.tabs@, webview_id);
                }
                self.tabs[i].url = url.clone();
                let is_active = self.active_tab_index < self.tabs.len()
                    && self.tabs[self.active_tab_index].webview_id == webview_id;
                if is_active {
                    if !self.url_bar.focused {
                        self.url_bar.text = url;
                    }
                }
                self.mark_dirty();
            },
            None => {},
        }
    }

    /// Update the title of the first tab showing `webview_id`.
    pub fn update_tab_title(&mut self, webview_id: WebViewId, title: String)
        ensures
            match tab_position(old(self).tabs@, webview_id) {
                None => *final(self) == *old(self),
                Some(i) => {
                    &&& final(self).tabs@ == old(self).tabs@.update(
                        i,
                        TabInfo { title: title, ..old(self).tabs@[i] },
                    )
                    &&& final(self).url_bar.text == old(self).url_bar.text
                    &&& final(self).only_tabs_changed(old(self))
                    &&& final(self).is_dirty()
                },
            },
    {
        match find_tab(&self.tabs, webview_id) {
            Some(i) => {
                proof {
                    lemma_position_bounds(self.tabs@, webview_id);
                }
                self.tabs[i].title = title;
                self.mark_dirty();
            },
            None => {},
        }
    }

    /// Update navigation state, for the chrome and for the active tab.
    pub fn update_nav_state(&mut self, can_go_back: bool, can_go_forward: bool)
        ensures
            final(self).nav_state == (NavigationState {
                can_go_back,
                can_go_forward,
                loading: old(self).nav_state.loading,
            }),
            final(self).tabs@ == (if old(self).active_tab_index < old(self).tabs.len() {
                old(self).tabs@.update(
                    old(self).active_tab_index as int,
                    TabInfo {
                        can_go_back,
                        can_go_forward,
                        ..old(self).tabs@[old(self).active_tab_index as int]
                    },
                )
            } else {
                old(self).tabs@
            }),
            final(self).active_tab_index == old(self).active_tab_index,
            final(self).url_bar.text == old(self).url_bar.text,
            final(self).url_bar.focused == old(self).url_bar.focused,
            final(self).url_bar.cursor_pos == old(self).url_bar.cursor_pos,
            final(self).url_bar.selection_start == old(self).url_bar.selection_start,
            final(self).show_bookmark_bar == old(self).show_bookmark_bar,
            final(self).same_widgets(old(self)),
            final(self).is_dirty(),
    {
        self.nav_state.can_go_back = can_go_back;
        self.nav_state.can_go_forward = can_go_forward;
        if self.active_tab_index < self.tabs.len() {
            let i = self.active_tab_index;
            self.tabs[i].can_go_back = can_go_back;
            self.tabs[i].can_go_forward = can_go_forward;
        }
        self.mark_dirty();
    }

    /// Set loading state for the first tab showing `webview_id`; the
    /// navigation state follows when that web view is the active one.
    pub fn set_loading(&mut self, webview_id: WebViewId, loading: bool)
        ensures
            match tab_position(old(self).tabs@, webview_id) {
                None => final(self).tabs@ == old(self).tabs@ && final(self).nav_state
                    == old(self).nav_state,
                Some(i) => {
                    &&& final(self).tabs@ == old(self).tabs@.update(
                        i,
                        TabInfo { loading: loading, ..old(self).tabs@[i] },
                    )
                    &&& final(self).nav_state == if old(self).active() matches Some(a)
                        && a.webview_id == webview_id {
                        NavigationState { loading: loading, ..old(self).nav_state }
                    } else {
                        old(self).nav_state
                    }
                },
            },
            final(self).active_tab_index == old(self).active_tab_index,
            final(self).url_bar.text == old(self).url_bar.text,
            final(self).url_bar.focused == old(self).url_bar.focused,
            final(self).url_bar.cursor_pos == old(self).url_bar.cursor_pos,
            final(self).url_bar.selection_start == old(self).url_bar.selection_start,
            final(self).show_bookmark_bar == old(self).show_bookmark_bar,
            final(self).same_widgets(old(self)),
            final(self).is_dirty(),
    {
        match find_tab(&self.tabs, webview_id) {
            Some(i) => {
                proof {
                    lemma_position_bounds(self.tabs@, webview_id);
                }
                self.tabs[i].loading = loading;
                if self.active_tab_index < self.tabs.len() {
                    if self.tabs[self.active_tab_index].webview_id == webview_id {
                        self.nav_state.loading = loading;
                    }
                }
            },
            None => {},
        }
        self.mark_dirty();
    }

    /// Get the active tab's WebView ID.
    pub fn active_webview_id(&self) -> (r: Option<WebViewId>)
        ensures
            r == match self.active() {
                Some(t) => Some(t.webview_id),
                None => None,
            },
    {
        if self.active_tab_index < self.tabs.len() {
            Some(self.tabs[self.active_tab_index].webview_id)
        } else {
            None
        }
    }

    /// Generate a new widget ID.
    pub fn next_widget_id(&mut self) -> (id: WidgetId)
        requires
            old(self).upcoming_widget_id() < u64::MAX,
        ensures
            id.0 == old(self).upcoming_widget_id(),
            final(self).upcoming_widget_id() == old(self).upcoming_widget_id() + 1,
            final(self).hovered() == old(self).hovered(),
            final(self).pressed() == old(self).pressed(),
            final(self).is_dirty() == old(self).is_dirty(),
            final(self).tabs == old(self).tabs,
            final(self).active_tab_index == old(self).active_tab_index,
            final(self).nav_state == old(self).nav_state,
            final(self).url_bar == old(self).url_bar,
            final(self).show_bookmark_bar == old(self).show_bookmark_bar,
    {
        self.widget_id_counter.next()
    }

    /// Set the hovered widget; the chrome is repainted when it changes.
    pub fn set_hovered(&mut self, widget_id: Option<WidgetId>)
        ensures
            final(self).hovered() == widget_id,
            final(self).is_dirty() == (old(self).is_dirty() || old(self).hovered() != widget_id),
            final(self).pressed() == old(self).pressed(),
            final(self).upcoming_widget_id() == old(self).upcoming_widget_id(),
            final(self).tabs == old(self).tabs,
            final(self).active_tab_index == old(self).active_tab_index,
            final(self).nav_state == old(self).nav_state,
            final(self).url_bar == old(self).url_bar,
            final(self).show_bookmark_bar == old(self).show_bookmark_bar,
    {
        if self.hovered_widget != widget_id {
            self.hovered_widget = widget_id;
            self.mark_dirty();
        }
    }

    /// Get the hovered widget ID.
    pub fn hovered_widget(&self) -> (r: Option<WidgetId>)
        ensures
            r == self.hovered(),
    {
        self.hovered_widget
    }

    /// Set the pressed widget.
    pub fn set_pressed(&mut self, widget_id: Option<WidgetId>)
        ensures
            final(self).pressed() == widget_id,
            final(self).is_dirty(),
            final(self).hovered() == old(self).hovered(),
            final(self).upcoming_widget_id() == old(self).upcoming_widget_id(),
            final(self).tabs == old(self).tabs,
            final(self).active_tab_index == old(self).active_tab_index,
            final(self).nav_state == old(self).nav_state,
            final(self).url_bar == old(self).url_bar,
            final(self).show_bookmark_bar == old(self).show_bookmark_bar,
    {
        self.pressed_widget = widget_id;
        self.mark_dirty();
    }

    /// Get the pressed widget ID.
    pub fn pressed_widget(&self) -> (r: Option<WidgetId>)
        ensures
            r == self.pressed(),
    {
        self.pressed_widget
    }

    /// Mark the chrome as needing repaint.
    pub fn mark_dirty(&mut self)
        ensures
            final(self).is_dirty(),
            final(self).same_widgets(old(self)),
            final(self).tabs == old(self).tabs,
            final(self).active_tab_index == old(self).active_tab_index,
            final(self).nav_state == old(self).nav_state,
            final(self).url_bar == old(self).url_bar,
            final(self).show_bookmark_bar == old(self).show_bookmark_bar,
    {
        self.dirty = true;
    }

    /// Check if the chrome needs repaint and clear the dirty flag.
    pub fn take_dirty(&mut self) -> (r: bool)
        ensures
            r == old(self).is_dirty(),
            !final(self).is_dirty(),
            final(self).same_widgets(old(self)),
            final(self).tabs == old(self).tabs,
            final(self).active_tab_index == old(self).active_tab_index,
            final(self).nav_state == old(self).nav_state,
            final(self).url_bar == old(self).url_bar,
            final(self).show_bookmark_bar == old(self).show_bookmark_bar,
    {
        let dirty = self.dirty;
        self.dirty = false;
        dirty
    }

    /// Get the active tab info.
    pub fn active_tab(&self) -> (r: Option<&TabInfo>)
        ensures
            match r {
                Some(t) => self.active() == Some(*t),
                None => self.active() is None,
            },
    {
        if self.active_tab_index < self.tabs.len() {
            Some(&self.tabs[self.active_tab_index])
        } else {
            None
        }
    }

    /// Get the tab index by WebView ID.
    pub fn tab_index_by_webview_id(&self, webview_id: WebViewId) -> (r: Option<usize>)
        ensures
            match r {
                Some(i) => tab_position(self.tabs@, webview_id) == Some(i as int),
                None => tab_position(self.tabs@, webview_id) is None,
            },
    {
        find_tab(&self.tabs, webview_id)
    }
}

/// Closing the tab that `add_tab` has just appended (the last one) gives
/// back the tab list as it was before, and hands out the added tab.
pub proof fn law_close_undoes_add(before: Seq<TabInfo>, after: Seq<TabInfo>)
    requires
        after.len() == before.len() + 1,
        after.drop_last() == before,
    ensures
        after.remove(before.len() as int) == before,
        after[before.len() as int] == after.last(),
{
    assert(after.remove(before.len() as int) =~= after.drop_last());
}

/// The repaint flag across a run of updates: every update of the chrome
/// state either marks it dirty (`marks[k]`) or leaves the flag as it was,
/// which is what the flag clauses of `new`, `mark_dirty`, `add_tab`,
/// `close_tab`, `set_active_tab`, `update_*`, `set_loading`, `set_hovered`,
/// `set_pressed` and `next_widget_id` say. So `take_dirty` at the end of the
/// run returns true exactly when the run started dirty (made by `new`) or
/// some update in it marked the chrome dirty; when the run starts right
/// after a `take_dirty`, which leaves the flag clear, and nothing marks it,
/// the next `take_dirty` returns false.
pub proof fn law_dirty_between_takes(states: Seq<ChromeState>, marks: Seq<bool>)
    requires
        states.len() == marks.len() + 1,
        forall|k: int|
            0 <= k < marks.len() ==> #[trigger] states[k + 1].is_dirty() == (states[k].is_dirty()
                || marks[k]),
    ensures
        states.last().is_dirty() == (states[0].is_dirty() || exists|k: int|
            0 <= k < marks.len() && #[trigger] marks[k]),
    decreases marks.len(),
{
    if marks.len() > 0 {
        let n = marks.len() - 1;
        let s2 = states.drop_last();
        let m2 = marks.drop_last();
        assert forall|k: int| 0 <= k < m2.len() implies #[trigger] s2[k + 1].is_dirty() == (
        s2[k].is_dirty() || m2[k]) by {
            assert(s2[k + 1] == states[k + 1]);
            assert(s2[k] == states[k]);
            assert(m2[k] == marks[k]);
        }
        law_dirty_between_takes(s2, m2);
        assert(states[n + 1].is_dirty() == (states[n].is_dirty() || marks[n]));
        assert(s2.last() == states[n]);
        if exists|k: int| 0 <= k < marks.len() && #[trigger] marks[k] {
            let k = choose|k: int| 0 <= k < marks.len() && #[trigger] marks[k];
            if k < n {
                assert(m2[k] == marks[k]);
            }
        }
        if exists|k: int| 0 <= k < m2.len() && #[trigger] m2[k] {
            let k = choose|k: int| 0 <= k < m2.len() && #[trigger] m2[k];
            assert(marks[k] == m2[k]);
        }
    }
}

impl Default for ChromeState {
    fn default() -> (s: Self)
        ensures
            s.tabs@ == Seq::<TabInfo>::empty(),
            s.active_tab_index == 0,
            !s.url_bar.focused,
            s.url_bar.text@ == Seq::<char>::empty(),
            s.is_dirty(),
    {
        Self::new()
    }
}

/// `tab_position` finds the first tab showing the web view: its answer is an
/// index of such a tab with none before it, and nothing exactly when no tab
/// shows it.
pub proof fn law_tab_position(tabs: Seq<TabInfo>, id: WebViewId)
    ensures
        tab_position(tabs, id) matches Some(i) ==> 0 <= i < tabs.len() && tabs[i].webview_id == id
            && forall|j: int| 0 <= j < i ==> #[trigger] tabs[j].webview_id != id,
        tab_position(tabs, id) is None <==> forall|j: int|
            0 <= j < tabs.len() ==> #[trigger] tabs[j].webview_id != id,
    decreases tabs.len(),
{
    if tabs.len() > 0 {
        let t = tabs.drop_last();
        let n = tabs.len() - 1;
        law_tab_position(t, id);
        match tab_position(t, id) {
            Some(i) => {
                assert(t[i] == tabs[i]);
                assert forall|j: int| 0 <= j < i implies #[trigger] tabs[j].webview_id != id by {
                    assert(t[j] == tabs[j]);
                }
            },
            None => {
                assert forall|j: int| 0 <= j < n implies #[trigger] tabs[j].webview_id != id by {
                    assert(t[j] == tabs[j]);
                }
            },
        }
    }
}

/// What the state relations used by the chrome's updates keep: switching
/// to a tab shows its URL and navigation flags and keeps everything else;
/// the other relations name exactly the fields they keep.
pub proof fn law_state_relations(a: ChromeState, b: ChromeState, index: usize)
    ensures
        index < b.tabs.len() ==> (a.activated(&b, index) ==> {
            &&& a.active_tab_index == index
            &&& a.tabs == b.tabs
            &&& a.url_bar.text == b.tabs@[index as int].url
            &&& a.nav_state.can_go_back == b.tabs@[index as int].can_go_back
            &&& a.nav_state.can_go_forward == b.tabs@[index as int].can_go_forward
            &&& a.nav_state.loading == b.tabs@[index as int].loading
            &&& a.url_bar.focused == b.url_bar.focused
            &&& a.show_bookmark_bar == b.show_bookmark_bar
            &&& a.hovered() == b.hovered() && a.pressed() == b.pressed()
            &&& a.is_dirty()
        }),
        index >= b.tabs.len() ==> (a.activated(&b, index) <==> a == b),
        a.same_widgets(&b) <==> (a.hovered_widget == b.hovered_widget && a.pressed_widget
            == b.pressed_widget && a.upcoming_widget_id() == b.upcoming_widget_id()),
        a.only_tabs_changed(&b) ==> (a.active_tab_index == b.active_tab_index && a.nav_state
            == b.nav_state && a.url_bar.focused == b.url_bar.focused && a.url_bar.cursor_pos
            == b.url_bar.cursor_pos && a.url_bar.selection_start == b.url_bar.selection_start
            && a.show_bookmark_bar == b.show_bookmark_bar && a.same_widgets(&b)),
        a.same_but_url_bar(&b) ==> (a.tabs == b.tabs && a.active_tab_index == b.active_tab_index
            && a.nav_state == b.nav_state && a.show_bookmark_bar == b.show_bookmark_bar
            && a.same_widgets(&b)),
        a.active() == (if a.active_tab_index < a.tabs.len() {
            Some(a.tabs@[a.active_tab_index as int])
        } else {
            None::<TabInfo>
        }),
{
}

} // verus!
