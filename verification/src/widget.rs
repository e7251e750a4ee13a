//! Identities and kinds of the widgets of the browser chrome, and the
//! identities of the web views its tabs show.

use vstd::prelude::*;

verus! {

/// Unique identifier for a widget within the chrome.
#[derive(Clone, Copy, Debug, PartialEq, Eq, Hash, Structural)]
pub struct WidgetId(pub u64);

/// Identifier of the web view shown in a tab.
#[derive(Clone, Copy, Debug, PartialEq, Eq, Hash, Structural)]
pub struct WebViewId(pub u64);

/// Identifier of a bookmark.
#[derive(Clone, Copy, Debug, PartialEq, Eq, Hash, Structural)]
pub struct BookmarkId(pub u64);

/// The kind of a chrome widget.
#[derive(Clone, Copy, Debug, PartialEq, Eq, Structural)]
pub enum WidgetKind {
    /// Back navigation button.
    BackButton,
    /// Forward navigation button.
    ForwardButton,
    /// Refresh/stop button.
    RefreshButton,
    /// Home button.
    HomeButton,
    /// URL bar (text input).
    UrlBar,
    /// Tab in the tab bar.
    Tab {
        /// Index of the tab in the tab list.
        index: usize,
    },
    /// Close button on a tab.
    TabClose {
        /// Index of the tab to close.
        index: usize,
    },
    /// New tab button.
    NewTabButton,
    /// Bookmark button in bookmark bar.
    BookmarkButton {
        /// Index of the bookmark item.
        index: usize,
    },
    /// Menu button (hamburger).
    MenuButton,
    /// Downloads button.
    DownloadsButton,
}

/// Widget ID counter for generating unique IDs.
pub struct WidgetIdCounter {
    next_id: u64,
}

impl WidgetIdCounter {
    /// The identifier that the next call of `next` hands out.
    pub closed spec fn upcoming(&self) -> u64 {
        self.next_id
    }

    /// Whether every ID has been handed out, so that `next` may not be called.
    pub fn exhausted(&self) -> (b: bool)
        ensures
            b == (self.upcoming() == u64::MAX),
    {
        self.next_id == u64::MAX
    }

    /// Generate a new unique widget ID: the counter's value, which then
    /// moves on by one, so no ID is handed out twice.
    pub fn next(&mut self) -> (id: WidgetId)
        requires
            old(self).upcoming() < u64::MAX,
        ensures
            id.0 == old(self).upcoming(),
            final(self).upcoming() == old(self).upcoming() + 1,
    {
        let id = self.next_id;
        self.next_id = id + 1;
        WidgetId(id)
    }
}

impl Default for WidgetIdCounter {
    fn default() -> (c: Self)
        ensures
            c.upcoming() == 0,
    {
        WidgetIdCounter { next_id: 0 }
    }
}

} // verus!
