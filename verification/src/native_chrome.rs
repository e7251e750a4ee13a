//! The native chrome's tab strip, navigation buttons and address bar state,
//! and what a click on each of its elements asks for.

use vstd::prelude::*;
use vstd::string::*;
use crate::url_input::UrlInputState;
use crate::editing;
use crate::text;
use crate::widget::{BookmarkId, WebViewId};

verus! {

/// Actions that can be triggered by interacting with the chrome.
#[derive(Debug, Clone)]
pub enum ChromeAction {
    /// Navigate to URL.
    Navigate(String),
    /// Go back in history.
    GoBack,
    /// Go forward in history.
    GoForward,
    /// Refresh current page.
    Refresh,
    /// Create a new tab.
    NewTab,
    /// Create a new window.
    NewWindow,
    /// Close a specific tab.
    CloseTab(WebViewId),
    /// Activate (switch to) a specific tab.
    ActivateTab(WebViewId),
    /// Minimize the window.
    Minimize,
    /// Toggle maximize/restore.
    Maximize,
    /// Close the window.
    CloseWindow,
    /// Start window drag.
    DragWindow,
    /// Toggle bookmark on current page.
    ToggleBookmark,
    /// Open bookmark manager.
    OpenBookmarkManager,
    /// Open history menu.
    OpenHistoryMenu,
    /// Open downloads.
    OpenDownloads,
    /// Focus the URL bar.
    FocusUrlBar,
}

/// Identifies a specific element in the chrome for hit testing.
#[derive(Debug, Clone, Copy, PartialEq, Eq, Structural)]
pub enum ChromeElementId {
    BackButton,
    ForwardButton,
    RefreshButton,
    HomeButton,
    UrlInput,
    BookmarkStar,
    DownloadButton,
    MenuButton,
    Tab(WebViewId),
    TabClose(WebViewId),
    NewTabButton,
    BookmarkItem(BookmarkId),
    WindowMinimize,
    WindowMaximize,
    WindowClose,
    DragRegion,
}

/// Current focus target in the chrome.
#[derive(Debug, Clone, Copy, PartialEq, Eq, Structural)]
pub enum ChromeFocusTarget {
    /// Nothing in the chrome has the keyboard focus.
    Unfocused,
    UrlInput,
}

/// Tab state for rendering.
#[derive(Debug, Clone)]
pub struct TabState {
    pub id: WebViewId,
    pub title: String,
    pub url: String,
    pub is_active: bool,
    pub is_loading: bool,
}

/// The native chrome: tabs, navigation flags, the address bar and what has
/// focus and hover.
pub struct NativeChrome {
    /// URL input state.
    pub url_input: UrlInputState,
    /// Tab states.
    pub tabs: Vec<TabState>,
    /// Currently active tab ID.
    pub active_tab_id: Option<WebViewId>,
    /// Navigation state.
    pub can_go_back: bool,
    pub can_go_forward: bool,
    pub is_loading: bool,
    /// Bookmark state.
    pub show_bookmark_bar: bool,
    pub current_page_bookmarked: bool,
    /// Download state.
    pub download_active: bool,
    /// Interaction state.
    pub focused_element: ChromeFocusTarget,
    pub hover_element: Option<ChromeElementId>,
    /// Whether we're on a platform with client-side decorations.
    pub has_csd: bool,
}

/// Index of the first tab with the given ID.
pub open spec fn position_of(tabs: Seq<TabState>, id: WebViewId) -> Option<int>
    decreases tabs.len(),
{
    if tabs.len() == 0 {
        None
    } else {
        match position_of(tabs.drop_last(), id) {
            Some(i) => Some(i),
            None => if tabs.last().id == id {
                Some(tabs.len() - 1)
            } else {
                None
            },
        }
    }
}

proof fn lemma_position_extends(s: Seq<TabState>, k: int, id: WebViewId)
    requires
        0 <= k <= s.len(),
        position_of(s.take(k), id) is Some,
    ensures
        position_of(s, id) == position_of(s.take(k), id),
    decreases s.len(),
{
    if k == s.len() {
        assert(s.take(k) =~= s);
    } else {
        assert(s.drop_last().take(k) =~= s.take(k));
        lemma_position_extends(s.drop_last(), k, id);
    }
}

proof fn lemma_position_bounds(s: Seq<TabState>, id: WebViewId)
    ensures
        position_of(s, id) matches Some(i) ==> 0 <= i < s.len() && s[i].id == id,
    decreases s.len(),
{
    if s.len() > 0 {
        lemma_position_bounds(s.drop_last(), id);
    }
}

fn find_tab(tabs: &Vec<TabState>, id: WebViewId) -> (r: Option<usize>)
    ensures
        match r {
            Some(i) => position_of(tabs@, id) == Some(i as int) && i < tabs.len(),
            None => position_of(tabs@, id) is None,
        },
{
    let mut i: usize = 0;
    assert(tabs@.take(0) =~= Seq::<TabState>::empty());
    while i < tabs.len()
        invariant
            i <= tabs.len(),
            position_of(tabs@.take(i as int), id) is None,
        decreases tabs.len() - i,
    {
        assert(tabs@.take(i + 1).drop_last() =~= tabs@.take(i as int));
        if tabs[i].id == id {
            proof {
                lemma_position_extends(tabs@, i + 1, id);
            }
            return Some(i);
        }
        i = i + 1;
    }
    assert(tabs@.take(tabs.len() as int) =~= tabs@);
    None
}

/// No two tabs share an ID.
pub open spec fn distinct_ids(tabs: Seq<TabState>) -> bool {
    forall|i: int, j: int| 0 <= i < j < tabs.len() ==> tabs[i].id != tabs[j].id
}

/// No tab has the ID `id`.
pub open spec fn fresh_id(tabs: Seq<TabState>, id: WebViewId) -> bool {
    forall|i: int| 0 <= i < tabs.len() ==> #[trigger] tabs[i].id != id
}

/// Tab IDs are distinct, the tabs marked active are exactly those with the
/// active ID, and an active ID names one of the tabs.
pub open spec fn tabs_agree(tabs: Seq<TabState>, active: Option<WebViewId>) -> bool {
    &&& distinct_ids(tabs)
    &&& forall|i: int|
        0 <= i < tabs.len() ==> (#[trigger] tabs[i].is_active <==> active == Some(tabs[i].id))
    &&& active matches Some(a) ==> !fresh_id(tabs, a)
}

proof fn lemma_add_keeps_agreement(
    o: Seq<TabState>,
    oa: Option<WebViewId>,
    id: WebViewId,
    active: bool,
    f: Seq<TabState>,
    fa: Option<WebViewId>,
)
    requires
        tabs_agree(o, oa),
        fresh_id(o, id),
        f.len() == o.len() + 1,
        forall|i: int|
            0 <= i < o.len() ==> #[trigger] f[i] == (TabState {
                is_active: o[i].is_active && !active,
                ..o[i]
            }),
        f.last().id == id,
        f.last().is_active == active,
        fa == if active { Some(id) } else { oa },
    ensures
        tabs_agree(f, fa),
{
    let n = o.len() as int;
    assert forall|i: int, j: int| 0 <= i < j < f.len() implies f[i].id != f[j].id by {
        assert(f[i].id == o[i].id);
        if j < n {
            assert(f[j].id == o[j].id);
        }
    }
    assert forall|i: int| 0 <= i < f.len() implies (#[trigger] f[i].is_active <==> fa == Some(f[i].id)) by {
        if i < n {
            assert(o[i].id != id);
        } else if !active {
            if let Some(a) = oa {
                let k = choose|k: int| 0 <= k < o.len() && !(o[k].id != a);
                assert(o[k].id != id);
            }
        }
    }
    if let Some(a) = fa {
        if active {
            assert(f[n].id == a);
        } else {
            let k = choose|k: int| 0 <= k < o.len() && !(o[k].id != a);
            assert(f[k].id == o[k].id);
        }
    }
}

proof fn lemma_close_keeps_agreement(
    o: Seq<TabState>,
    oa: Option<WebViewId>,
    id: WebViewId,
    idx: int,
    f: Seq<TabState>,
    fa: Option<WebViewId>,
)
    requires
        tabs_agree(o, oa),
        0 <= idx < o.len(),
        o[idx].id == id,
        if oa == Some(id) {
            let rest = o.remove(idx);
            if rest.len() == 0 {
                f == rest && fa is None
            } else {
                let n = if idx < rest.len() { idx } else { rest.len() - 1 };
                &&& f == rest.update(n, TabState { is_active: true, ..rest[n] })
                &&& fa == Some(rest[n].id)
            }
        } else {
            f == o.remove(idx) && fa == oa
        },
    ensures
        tabs_agree(f, fa),
{
    let rest = o.remove(idx);
    assert forall|i: int| 0 <= i < rest.len() implies #[trigger] rest[i] == if i < idx {
        o[i]
    } else {
        o[i + 1]
    } by {}
    assert forall|i: int, j: int| 0 <= i < j < rest.len() implies rest[i].id != rest[j].id by {
        let oi = if i < idx { i } else { i + 1 };
        let oj = if j < idx { j } else { j + 1 };
        assert(rest[i] == o[oi]);
        assert(rest[j] == o[oj]);
    }
    if oa == Some(id) {
        if rest.len() > 0 {
            let n = if idx < rest.len() { idx } else { rest.len() - 1 };
            assert forall|i: int| 0 <= i < f.len() implies (#[trigger] f[i].is_active <==> fa
                == Some(f[i].id)) by {
                if i != n {
                    let oi = if i < idx { i } else { i + 1 };
                    assert(rest[i] == o[oi]);
                    assert(o[oi].id != id);
                    let on = if n < idx { n } else { n + 1 };
                    assert(rest[n] == o[on]);
                }
            }
            assert(f[n].id == rest[n].id);
        }
    } else {
        assert forall|i: int| 0 <= i < f.len() implies (#[trigger] f[i].is_active <==> fa == Some(
            f[i].id,
        )) by {
            let oi = if i < idx { i } else { i + 1 };
            assert(rest[i] == o[oi]);
        }
        if let Some(a) = oa {
            let k = choose|k: int| 0 <= k < o.len() && !(o[k].id != a);
            if k < idx {
                assert(f[k] == o[k]);
            } else {
                assert(k != idx);
                assert(f[k - 1] == o[k]);
            }
        }
    }
}

/// A tab title cut to fit a box of `max_chars` bytes: when it is longer and
/// the box holds more than the ellipsis, its first `max_chars - 3` bytes
/// followed by `...`; otherwise the whole title.
pub open spec fn title_label(title: Seq<char>, max_chars: nat) -> Seq<char> {
    if text::byte_len(title) > max_chars && max_chars > 3 {
        text::head(title, max_chars - 3) + "..."@
    } else {
        title
    }
}

/// Cutting `title` for `title_label` falls on a character boundary.
pub open spec fn title_label_fits(title: Seq<char>, max_chars: nat) -> bool {
    text::byte_len(title) > max_chars && max_chars > 3 ==> text::is_boundary(
        title,
        max_chars - 3,
    )
}

/// An address cut to fit a box of `max_chars` bytes: when it is longer and
/// the box holds more than the ellipsis, `...` followed by its last
/// `max_chars - 3` bytes; otherwise the whole address.
pub open spec fn url_label(s: Seq<char>, max_chars: nat) -> Seq<char> {
    if text::byte_len(s) > max_chars && max_chars > 3 {
        "..."@ + text::rest(s, text::byte_len(s) - max_chars + 3)
    } else {
        s
    }
}

/// Cutting `s` for `url_label` falls on a character boundary.
pub open spec fn url_label_fits(s: Seq<char>, max_chars: nat) -> bool {
    text::byte_len(s) > max_chars && max_chars > 3 ==> text::is_boundary(
        s,
        text::byte_len(s) - max_chars + 3,
    )
}

/// Whether `tab_title_label` can cut `title` for a box of `max_chars`
/// bytes without cutting inside a character (`title_label_fits`).
pub fn title_label_fits_at(title: &str, max_chars: usize) -> (b: bool)
    ensures
        b == title_label_fits(title@, max_chars as nat),
{
    let n = text::byte_length(title);
    !(n > max_chars && max_chars > 3) || text::boundary_at(title, max_chars - 3)
}

/// Whether `url_text_label` can cut `s` for a box of `max_chars` bytes
/// without cutting inside a character (`url_label_fits`).
pub fn url_label_fits_at(s: &str, max_chars: usize) -> (b: bool)
    ensures
        b == url_label_fits(s@, max_chars as nat),
{
    let n = text::byte_length(s);
    !(n > max_chars && max_chars > 3) || text::boundary_at(s, n - max_chars + 3)
}

proof fn lemma_ellipsis_len()
    ensures
        text::byte_len("..."@) == 3,
{
    reveal_strlit("...");
    let e = "..."@;
    assert(e =~= seq!['.', '.', '.']);
    reveal_with_fuel(text::byte_len, 4);
    assert(e.drop_last() =~= seq!['.', '.']);
    assert(e.drop_last().drop_last() =~= seq!['.']);
    assert(e.drop_last().drop_last().drop_last() =~= Seq::<char>::empty());
}

/// A title or address that fits its box (or a box too small for the
/// ellipsis) is shown whole. A cut title is its first `max_chars - 3` bytes
/// and `...`; a cut address is `...` and its last `max_chars - 3` bytes;
/// either way the label is exactly `max_chars` bytes long.
pub proof fn law_labels(s: Seq<char>, max_chars: nat)
    ensures
        !(text::byte_len(s) > max_chars && max_chars > 3) ==> title_label(s, max_chars) == s
            && url_label(s, max_chars) == s,
        title_label_fits(s, max_chars) && text::byte_len(s) > max_chars && max_chars > 3 ==> {
            let head = s.take(text::index_at(s, max_chars - 3));
            &&& title_label(s, max_chars) == head + "..."@
            &&& text::byte_len(head) == max_chars - 3
            &&& text::byte_len(title_label(s, max_chars)) == max_chars
        },
        url_label_fits(s, max_chars) && text::byte_len(s) > max_chars && max_chars > 3 ==> {
            let tail = s.skip(text::index_at(s, text::byte_len(s) - max_chars + 3));
            &&& url_label(s, max_chars) == "..."@ + tail
            &&& text::byte_len(tail) == max_chars - 3
            &&& text::byte_len(url_label(s, max_chars)) == max_chars
        },
{
    lemma_ellipsis_len();
    if text::byte_len(s) > max_chars && max_chars > 3 {
        if title_label_fits(s, max_chars) {
            let b = max_chars - 3;
            text::lemma_boundary(s, b);
            let head = s.take(text::index_at(s, b));
            text::lemma_byte_len_concat(head, "..."@);
        }
        if url_label_fits(s, max_chars) {
            let b = text::byte_len(s) - max_chars + 3;
            text::lemma_boundary(s, b);
            let k = text::index_at(s, b);
            let tail = s.skip(k);
            assert(s =~= s.take(k) + tail);
            text::lemma_byte_len_concat(s.take(k), tail);
            text::lemma_byte_len_concat("..."@, tail);
        }
    }
}

/// The label of a tab whose title box holds `max_chars` bytes.
pub fn tab_title_label(title: &str, max_chars: usize) -> (r: String)
    requires
        title_label_fits(title@, max_chars as nat),
    ensures
        r@ == title_label(title@, max_chars as nat),
{
    let n = text::byte_length(title);
    if n > max_chars && max_chars > 3 {
        text::head_of(title, max_chars - 3).concat("...")
    } else {
        String::from_str(title)
    }
}

/// The text of an address box that holds `max_chars` bytes.
pub fn url_text_label(s: &str, max_chars: usize) -> (r: String)
    requires
        url_label_fits(s@, max_chars as nat),
    ensures
        r@ == url_label(s@, max_chars as nat),
{
    let n = text::byte_length(s);
    if n > max_chars && max_chars > 3 {
        let tail = text::rest_of(s, n - max_chars + 3);
        String::from_str("...").concat(tail.as_str())
    } else {
        String::from_str(s)
    }
}

/// What a click on `element` asks for.
pub open spec fn click_action(
    can_go_back: bool,
    can_go_forward: bool,
    element: ChromeElementId,
) -> Option<ChromeAction> {
    match element {
        ChromeElementId::BackButton => if can_go_back {
            Some(ChromeAction::GoBack)
        } else {
            None
        },
        ChromeElementId::ForwardButton => if can_go_forward {
            Some(ChromeAction::GoForward)
        } else {
            None
        },
        ChromeElementId::RefreshButton => Some(ChromeAction::Refresh),
        ChromeElementId::NewTabButton => Some(ChromeAction::NewTab),
        ChromeElementId::Tab(id) => Some(ChromeAction::ActivateTab(id)),
        ChromeElementId::TabClose(id) => Some(ChromeAction::CloseTab(id)),
        ChromeElementId::BookmarkStar => Some(ChromeAction::ToggleBookmark),
        ChromeElementId::WindowMinimize => Some(ChromeAction::Minimize),
        ChromeElementId::WindowMaximize => Some(ChromeAction::Maximize),
        ChromeElementId::WindowClose => Some(ChromeAction::CloseWindow),
        ChromeElementId::DragRegion => Some(ChromeAction::DragWindow),
        ChromeElementId::DownloadButton => Some(ChromeAction::OpenDownloads),
        _ => None,
    }
}

/// A click on the back or forward button asks to go back or forward exactly
/// when that is possible and for nothing otherwise; the other elements ask
/// for their own action: reload, new tab, activating or closing the tab with
/// that ID, the bookmark, the window buttons and drag region, the downloads;
/// the address bar, home, menu and bookmark items ask for no action.
pub proof fn law_click_actions(back: bool, forward: bool, id: WebViewId, bm: BookmarkId)
    ensures
        click_action(back, forward, ChromeElementId::BackButton) is Some <==> back,
        back ==> click_action(back, forward, ChromeElementId::BackButton) == Some(
            ChromeAction::GoBack,
        ),
        click_action(back, forward, ChromeElementId::ForwardButton) is Some <==> forward,
        forward ==> click_action(back, forward, ChromeElementId::ForwardButton) == Some(
            ChromeAction::GoForward,
        ),
        click_action(back, forward, ChromeElementId::RefreshButton) == Some(ChromeAction::Refresh),
        click_action(back, forward, ChromeElementId::NewTabButton) == Some(ChromeAction::NewTab),
        click_action(back, forward, ChromeElementId::Tab(id)) == Some(ChromeAction::ActivateTab(id)),
        click_action(back, forward, ChromeElementId::TabClose(id)) == Some(
            ChromeAction::CloseTab(id),
        ),
        click_action(back, forward, ChromeElementId::BookmarkStar) == Some(
            ChromeAction::ToggleBookmark,
        ),
        click_action(back, forward, ChromeElementId::WindowMinimize) == Some(
            ChromeAction::Minimize,
        ),
        click_action(back, forward, ChromeElementId::WindowMaximize) == Some(
            ChromeAction::Maximize,
        ),
        click_action(back, forward, ChromeElementId::WindowClose) == Some(
            ChromeAction::CloseWindow,
        ),
        click_action(back, forward, ChromeElementId::DragRegion) == Some(ChromeAction::DragWindow),
        click_action(back, forward, ChromeElementId::DownloadButton) == Some(
            ChromeAction::OpenDownloads,
        ),
        click_action(back, forward, ChromeElementId::UrlInput) is None,
        click_action(back, forward, ChromeElementId::HomeButton) is None,
        click_action(back, forward, ChromeElementId::MenuButton) is None,
        click_action(back, forward, ChromeElementId::BookmarkItem(bm)) is None,
{
}

impl NativeChrome {
    /// Everything but the tabs and the active tab is the same in `self` and
    /// `old`.
    pub open spec fn same_but_tabs(&self, old: &Self) -> bool {
        &&& self.url_input == old.url_input
        &&& self.can_go_back == old.can_go_back
        &&& self.can_go_forward == old.can_go_forward
        &&& self.is_loading == old.is_loading
        &&& self.show_bookmark_bar == old.show_bookmark_bar
        &&& self.current_page_bookmarked == old.current_page_bookmarked
        &&& self.download_active == old.download_active
        &&& self.focused_element == old.focused_element
        &&& self.hover_element == old.hover_element
        &&& self.has_csd == old.has_csd
    }

    /// The tab flags agree with the active tab ID (see `tabs_agree`).
    pub open spec fn tabs_consistent(&self) -> bool {
        tabs_agree(self.tabs@, self.active_tab_id)
    }

    /// Create a new native chrome instance.
    pub fn new(has_csd: bool) -> (c: Self)
        ensures
            c.url_input.text@ == Seq::<char>::empty(),
            !c.url_input.is_focused,
            c.tabs@ == Seq::<TabState>::empty(),
            c.active_tab_id is None,
            !c.can_go_back && !c.can_go_forward && !c.is_loading,
            !c.show_bookmark_bar && !c.current_page_bookmarked && !c.download_active,
            c.focused_element == ChromeFocusTarget::Unfocused,
            c.hover_element is None,
            c.has_csd == has_csd,
            c.tabs_consistent(),
    {
        Self {
            url_input: UrlInputState::new(),
            tabs: Vec::new(),
            active_tab_id: None,
            can_go_back: false,
            can_go_forward: false,
            is_loading: false,
            show_bookmark_bar: false,
            current_page_bookmarked: false,
            download_active: false,
            focused_element: ChromeFocusTarget::Unfocused,
            hover_element: None,
            has_csd,
        }
    }

    /// Add a tab showing the new-tab page; when `active`, it becomes the only
    /// active tab.
    pub fn add_tab(&mut self, id: WebViewId, active: bool)
        ensures
            final(self).tabs.len() == old(self).tabs.len() + 1,
            forall|i: int|
                0 <= i < old(self).tabs.len() ==> #[trigger] final(self).tabs@[i] == (TabState {
                    is_active: old(self).tabs@[i].is_active && !active,
                    ..old(self).tabs@[i]
                }),
            final(self).tabs@.last().id == id,
            final(self).tabs@.last().title@ == "New Tab"@,
            final(self).tabs@.last().url@ == "eesha://newtab"@,
            final(self).tabs@.last().is_active == active,
            !final(self).tabs@.last().is_loading,
            final(self).active_tab_id == if active {
                Some(id)
            } else {
                old(self).active_tab_id
            },
            final(self).same_but_tabs(old(self)),
            old(self).tabs_consistent() && fresh_id(old(self).tabs@, id)
                ==> final(self).tabs_consistent(),
    {
        if active {
            let mut i: usize = 0;
            while i < self.tabs.len()
                invariant
                    i <= self.tabs.len(),
                    self.tabs.len() == old(self).tabs.len(),
                    forall|j: int|
                        0 <= j < i ==> #[trigger] self.tabs@[j] == (TabState {
                            is_active: false,
                            ..old(self).tabs@[j]
                        }),
                    forall|j: int| i <= j < self.tabs.len() ==> #[trigger] self.tabs@[j] == old(self).tabs@[j],
                    self.same_but_tabs(old(self)),
                    self.active_tab_id == old(self).active_tab_id,
                decreases self.tabs.len() - i,
            {
                self.tabs[i].is_active = false;
                i = i + 1;
            }
            self.active_tab_id = Some(id);
        }
        self.tabs.push(
            TabState {
                id,
                title: String::from_str("New Tab"),
                url: String::from_str("eesha://newtab"),
                is_active: active,
                is_loading: false,
            },
        );
        proof {
            if old(self).tabs_consistent() && fresh_id(old(self).tabs@, id) {
                lemma_add_keeps_agreement(
                    old(self).tabs@,
                    old(self).active_tab_id,
                    id,
                    active,
                    self.tabs@,
                    self.active_tab_id,
                );
            }
        }
    }

    /// Remove the first tab with ID `id`. When it was the active one, the tab
    /// that took its place (or the new last tab) becomes active. Returns the
    /// active tab ID afterwards, or nothing when no tab had that ID.
    pub fn close_tab(&mut self, id: WebViewId) -> (r: Option<WebViewId>)
        ensures
            old(self).tabs_consistent() ==> final(self).tabs_consistent(),
            match position_of(old(self).tabs@, id) {
                None => r is None && *final(self) == *old(self),
                Some(idx) => {
                    let rest = old(self).tabs@.remove(idx);
                    &&& final(self).same_but_tabs(old(self))
                    &&& r == final(self).active_tab_id
                    &&& if old(self).active_tab_id == Some(id) {
                        if rest.len() == 0 {
                            final(self).tabs@ == rest && final(self).active_tab_id is None
                        } else {
                            let n = if idx < rest.len() { idx } else { rest.len() - 1 };
                            &&& final(self).tabs@ == rest.update(
                                n,
                                TabState { is_active: true, ..rest[n] },
                            )
                            &&& final(self).active_tab_id == Some(rest[n].id)
                        }
                    } else {
                        final(self).tabs@ == rest
                            && final(self).active_tab_id == old(self).active_tab_id
                    }
                },
            },
    {
        let idx = match find_tab(&self.tabs, id) {
            Some(i) => i,
            None => return None,
        };
        proof {
            lemma_position_bounds(self.tabs@, id);
        }
        self.tabs.remove(idx);
        if self.active_tab_id == Some(id) {
            if self.tabs.len() == 0 {
                self.active_tab_id = None;
            } else {
                let new_idx = if idx < self.tabs.len() - 1 {
                    idx
                } else {
                    self.tabs.len() - 1
                };
                self.tabs[new_idx].is_active = true;
                self.active_tab_id = Some(self.tabs[new_idx].id);
            }
        }
        proof {
            if old(self).tabs_consistent() {
                lemma_close_keeps_agreement(
                    old(self).tabs@,
                    old(self).active_tab_id,
                    id,
                    idx as int,
                    self.tabs@,
                    self.active_tab_id,
                );
            }
        }
        self.active_tab_id
    }

    /// Activate a specific tab: exactly the tabs with that ID are marked
    /// active.
    pub fn activate_tab(&mut self, id: WebViewId)
        ensures
            final(self).tabs.len() == old(self).tabs.len(),
            forall|i: int|
                0 <= i < old(self).tabs.len() ==> #[trigger] final(self).tabs@[i] == (TabState {
                    is_active: old(self).tabs@[i].id == id,
                    ..old(self).tabs@[i]
                }),
            final(self).active_tab_id == Some(id),
            final(self).same_but_tabs(old(self)),
            old(self).tabs_consistent() && !fresh_id(old(self).tabs@, id)
                ==> final(self).tabs_consistent(),
    {
        let mut i: usize = 0;
        while i < self.tabs.len()
            invariant
                i <= self.tabs.len(),
                self.tabs.len() == old(self).tabs.len(),
                forall|j: int|
                    0 <= j < i ==> #[trigger] self.tabs@[j] == (TabState {
                        is_active: old(self).tabs@[j].id == id,
                        ..old(self).tabs@[j]
                    }),
                forall|j: int| i <= j < self.tabs.len() ==> #[trigger] self.tabs@[j] == old(self).tabs@[j],
                self.same_but_tabs(old(self)),
            decreases self.tabs.len() - i,
        {
            let is_it = self.tabs[i].id == id;
            self.tabs[i].is_active = is_it;
            i = i + 1;
        }
        self.active_tab_id = Some(id);
        proof {
            if old(self).tabs_consistent() && !fresh_id(old(self).tabs@, id) {
                let k = choose|k: int| 0 <= k < old(self).tabs.len() && !(old(self).tabs@[k].id != id);
                assert(self.tabs@[k].id == id);
                assert forall|a: int, b: int| 0 <= a < b < self.tabs.len() implies self.tabs@[a].id
                    != self.tabs@[b].id by {
                    assert(self.tabs@[a].id == old(self).tabs@[a].id);
                    assert(self.tabs@[b].id == old(self).tabs@[b].id);
                }
            }
        }
    }

    /// Set the URL displayed in the address bar, unless the user is editing it.
    pub fn set_url(&mut self, url: &str)
        ensures
            old(self).focused_element == ChromeFocusTarget::UrlInput ==> *final(self) == *old(self),
            old(self).focused_element != ChromeFocusTarget::UrlInput ==> {
                &&& final(self).url_input.text@ == url@
                &&& final(self).url_input.cursor_pos == crate::text::byte_len(url@)
                &&& final(self).url_input.selection_start is None
                &&& final(self).url_input.same_extras(&old(self).url_input)
                &&& *final(self) == (NativeChrome { url_input: final(self).url_input, ..*old(self) })
            },
    {
        if self.focused_element != ChromeFocusTarget::UrlInput {
            self.url_input.set_url(url);
        }
    }

    /// Set the title of the first tab with ID `id`.
    pub fn set_tab_title(&mut self, id: WebViewId, title: String)
        ensures
            match position_of(old(self).tabs@, id) {
                None => *final(self) == *old(self),
                Some(i) => final(self).tabs@ == old(self).tabs@.update(
                    i,
                    TabState { title: title, ..old(self).tabs@[i] },
                ) && final(self).active_tab_id == old(self).active_tab_id
                    && final(self).same_but_tabs(old(self)),
            },
            old(self).tabs_consistent() ==> final(self).tabs_consistent(),
    {
        match find_tab(&self.tabs, id) {
            Some(i) => {
                self.tabs[i].title = title;
                proof {
                    if old(self).tabs_consistent() {
                        assert forall|a: int, b: int| 0 <= a < b < self.tabs.len() implies
                            self.tabs@[a].id != self.tabs@[b].id by {
                            assert(self.tabs@[a].id == old(self).tabs@[a].id);
                            assert(self.tabs@[b].id == old(self).tabs@[b].id);
                        }
                        if let Some(x) = self.active_tab_id {
                            let k = choose|k: int|
                                0 <= k < old(self).tabs.len() && !(old(self).tabs@[k].id != x);
                            assert(self.tabs@[k].id == x);
                        }
                    }
                }
            },
            None => {},
        }
    }

    /// Set navigation button states.
    pub fn set_nav_buttons(&mut self, back: bool, forward: bool)
        ensures
            *final(self) == (NativeChrome {
                can_go_back: back,
                can_go_forward: forward,
                ..*old(self)
            }),
    {
        self.can_go_back = back;
        self.can_go_forward = forward;
    }

    /// Focus the URL bar, selecting all of its text.
    pub fn focus_url_bar(&mut self)
        ensures
            final(self).url_input.is_focused,
            final(self).url_input.edit() == editing::select_all(old(self).url_input.edit()),
            final(self).url_input.composition_text == old(self).url_input.composition_text,
            final(self).url_input.placeholder == old(self).url_input.placeholder,
            *final(self) == (NativeChrome {
                focused_element: ChromeFocusTarget::UrlInput,
                url_input: final(self).url_input,
                ..*old(self)
            }),
    {
        self.focused_element = ChromeFocusTarget::UrlInput;
        self.url_input.focus();
    }

    /// Handle a click on a chrome element: a click on the address bar focuses
    /// it; other elements ask for an action, if any.
    pub fn handle_click(&mut self, element: &ChromeElementId) -> (r: Option<ChromeAction>)
        ensures
            r == click_action(old(self).can_go_back, old(self).can_go_forward, *element),
            *element != ChromeElementId::UrlInput ==> *final(self) == *old(self),
            *element == ChromeElementId::UrlInput ==> {
                &&& final(self).url_input.is_focused
                &&& final(self).url_input.edit() == editing::select_all(old(self).url_input.edit())
                &&& final(self).url_input.composition_text == old(self).url_input.composition_text
                &&& final(self).url_input.placeholder == old(self).url_input.placeholder
                &&& *final(self) == (NativeChrome {
                    focused_element: ChromeFocusTarget::UrlInput,
                    url_input: final(self).url_input,
                    ..*old(self)
                })
            },
    {
        match element {
            ChromeElementId::BackButton => {
                if self.can_go_back {
                    Some(ChromeAction::GoBack)
                } else {
                    None
                }
            },
            ChromeElementId::ForwardButton => {
                if self.can_go_forward {
                    Some(ChromeAction::GoForward)
                } else {
                    None
                }
            },
            ChromeElementId::RefreshButton => Some(ChromeAction::Refresh),
            ChromeElementId::UrlInput => {
                self.focused_element = ChromeFocusTarget::UrlInput;
                self.url_input.focus();
                None
            },
            ChromeElementId::NewTabButton => Some(ChromeAction::NewTab),
            ChromeElementId::Tab(id) => Some(ChromeAction::ActivateTab(*id)),
            ChromeElementId::TabClose(id) => Some(ChromeAction::CloseTab(*id)),
            ChromeElementId::BookmarkStar => Some(ChromeAction::ToggleBookmark),
            ChromeElementId::WindowMinimize => Some(ChromeAction::Minimize),
            ChromeElementId::WindowMaximize => Some(ChromeAction::Maximize),
            ChromeElementId::WindowClose => Some(ChromeAction::CloseWindow),
            ChromeElementId::DragRegion => Some(ChromeAction::DragWindow),
            ChromeElementId::DownloadButton => Some(ChromeAction::OpenDownloads),
            ChromeElementId::MenuButton => None,
            _ => None,
        }
    }

    /// What the address box shows when it holds `max_chars` bytes: the
    /// placeholder (marked `true`) when there is nothing to show and the box
    /// is not focused, else the displayed text cut to its last bytes.
    pub fn url_field_label(&self, max_chars: usize) -> (r: (String, bool))
        requires
            self.url_input.can_display(),
            url_label_fits(self.url_input.displayed(), max_chars as nat),
        ensures
            if self.url_input.displayed().len() == 0 && self.focused_element
                != ChromeFocusTarget::UrlInput {
                r.0@ == self.url_input.placeholder@ && r.1
            } else {
                r.0@ == url_label(self.url_input.displayed(), max_chars as nat) && !r.1
            },
    {
        let shown = self.url_input.display_text();
        let focused = self.focused_element == ChromeFocusTarget::UrlInput;
        if shown.as_str().is_empty() && !focused {
            (self.url_input.placeholder.clone(), true)
        } else {
            (url_text_label(shown.as_str(), max_chars), false)
        }
    }

    /// Handle mouse move for hover effects.
    pub fn handle_mouse_move(&mut self, element: Option<ChromeElementId>)
        ensures
            *final(self) == (NativeChrome { hover_element: element, ..*old(self) }),
    {
        self.hover_element = element;
    }

    /// Handle a click that was in the chrome area (not content): the address
    /// bar gives up focus.
    pub fn handle_chrome_click_outside(&mut self)
        ensures
            old(self).focused_element != ChromeFocusTarget::UrlInput ==> *final(self) == *old(self),
            old(self).focused_element == ChromeFocusTarget::UrlInput ==> {
                &&& final(self).url_input.blurred_from(&old(self).url_input)
                &&& *final(self) == (NativeChrome {
                    focused_element: ChromeFocusTarget::Unfocused,
                    url_input: final(self).url_input,
                    ..*old(self)
                })
            },
    {
        if self.focused_element == ChromeFocusTarget::UrlInput {
            self.url_input.blur();
            self.focused_element = ChromeFocusTarget::Unfocused;
        }
    }
}

/// `position_of` finds the first tab with the ID, and nothing exactly when
/// no tab has it.
pub proof fn law_position_of(tabs: Seq<TabState>, id: WebViewId)
    ensures
        position_of(tabs, id) matches Some(i) ==> 0 <= i < tabs.len() && tabs[i].id == id && forall|
            j: int,
        | 0 <= j < i ==> #[trigger] tabs[j].id != id,
        position_of(tabs, id) is None <==> fresh_id(tabs, id),
    decreases tabs.len(),
{
    if tabs.len() > 0 {
        let t = tabs.drop_last();
        let n = tabs.len() - 1;
        law_position_of(t, id);
        match position_of(t, id) {
            Some(i) => {
                assert(t[i] == tabs[i]);
                assert forall|j: int| 0 <= j < i implies #[trigger] tabs[j].id != id by {
                    assert(t[j] == tabs[j]);
                }
            },
            None => {
                assert forall|j: int| 0 <= j < n implies #[trigger] tabs[j].id != id by {
                    assert(t[j] == tabs[j]);
                }
            },
        }
    }
}

/// `same_but_tabs` keeps every field but the tabs and the active tab ID.
pub proof fn law_same_but_tabs(a: NativeChrome, b: NativeChrome)
    ensures
        a.same_but_tabs(&b) <==> (NativeChrome { tabs: b.tabs, active_tab_id: b.active_tab_id, ..a }
            == b),
{
}

} // verus!
