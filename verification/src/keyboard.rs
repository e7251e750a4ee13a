//! Keyboard shortcuts of the browser chrome (Ctrl+T, Ctrl+W, Ctrl+L, ...).

use vstd::prelude::*;
use crate::keys::{KeyCode, KeyModifiers};

verus! {

/// Actions that can be triggered by keyboard shortcuts in the chrome.
#[derive(Debug, Clone, Copy, PartialEq, Eq, Structural)]
pub enum ChromeKeyAction {
    /// Open a new tab (Ctrl+T).
    NewTab,
    /// Close current tab (Ctrl+W).
    CloseTab,
    /// Focus the URL bar (Ctrl+L).
    FocusUrlBar,
    /// Navigate back (Alt+Left).
    GoBack,
    /// Navigate forward (Alt+Right).
    GoForward,
    /// Refresh page (Ctrl+R / F5).
    Refresh,
    /// Hard refresh (Ctrl+Shift+R / Ctrl+F5).
    HardRefresh,
    /// Open new window (Ctrl+N).
    NewWindow,
    /// Toggle bookmark (Ctrl+D).
    ToggleBookmark,
    /// Open bookmark manager (Ctrl+Shift+O).
    OpenBookmarkManager,
    /// Open history (Ctrl+H).
    OpenHistory,
    /// Select next tab (Ctrl+Tab).
    NextTab,
    /// Select previous tab (Ctrl+Shift+Tab).
    PrevTab,
    /// Select tab by index (Ctrl+1-8).
    SelectTab(usize),
    /// Select last tab (Ctrl+9).
    SelectLastTab,
    /// Find in page (Ctrl+F).
    FindInPage,
    /// No action.
    NoAction,
}

/// The shortcut table: which action a key with the given modifiers asks for.
pub open spec fn shortcut(code: KeyCode, m: KeyModifiers) -> ChromeKeyAction {
    let ctrl = m.control;
    let shift = m.shift;
    let plain_ctrl = ctrl && !shift;
    match code {
        KeyCode::KeyT => if plain_ctrl { ChromeKeyAction::NewTab } else { ChromeKeyAction::NoAction },
        KeyCode::KeyW => if plain_ctrl { ChromeKeyAction::CloseTab } else { ChromeKeyAction::NoAction },
        KeyCode::KeyL => if plain_ctrl {
            ChromeKeyAction::FocusUrlBar
        } else {
            ChromeKeyAction::NoAction
        },
        KeyCode::KeyR => if plain_ctrl {
            ChromeKeyAction::Refresh
        } else if ctrl && shift {
            ChromeKeyAction::HardRefresh
        } else {
            ChromeKeyAction::NoAction
        },
        KeyCode::F5 => if !ctrl && !shift {
            ChromeKeyAction::Refresh
        } else if ctrl {
            ChromeKeyAction::HardRefresh
        } else {
            ChromeKeyAction::NoAction
        },
        KeyCode::KeyN => if plain_ctrl {
            ChromeKeyAction::NewWindow
        } else {
            ChromeKeyAction::NoAction
        },
        KeyCode::KeyD => if plain_ctrl {
            ChromeKeyAction::ToggleBookmark
        } else {
            ChromeKeyAction::NoAction
        },
        KeyCode::KeyO => if ctrl && shift {
            ChromeKeyAction::OpenBookmarkManager
        } else {
            ChromeKeyAction::NoAction
        },
        KeyCode::KeyH => if plain_ctrl {
            ChromeKeyAction::OpenHistory
        } else {
            ChromeKeyAction::NoAction
        },
        KeyCode::KeyF => if plain_ctrl {
            ChromeKeyAction::FindInPage
        } else {
            ChromeKeyAction::NoAction
        },
        KeyCode::Tab => if plain_ctrl {
            ChromeKeyAction::NextTab
        } else if ctrl && shift {
            ChromeKeyAction::PrevTab
        } else {
            ChromeKeyAction::NoAction
        },
        KeyCode::ArrowLeft => if m.alt { ChromeKeyAction::GoBack } else { ChromeKeyAction::NoAction },
        KeyCode::ArrowRight => if m.alt {
            ChromeKeyAction::GoForward
        } else {
            ChromeKeyAction::NoAction
        },
        KeyCode::Digit1 => if ctrl { ChromeKeyAction::SelectTab(0) } else { ChromeKeyAction::NoAction },
        KeyCode::Digit2 => if ctrl { ChromeKeyAction::SelectTab(1) } else { ChromeKeyAction::NoAction },
        KeyCode::Digit3 => if ctrl { ChromeKeyAction::SelectTab(2) } else { ChromeKeyAction::NoAction },
        KeyCode::Digit4 => if ctrl { ChromeKeyAction::SelectTab(3) } else { ChromeKeyAction::NoAction },
        KeyCode::Digit5 => if ctrl { ChromeKeyAction::SelectTab(4) } else { ChromeKeyAction::NoAction },
        KeyCode::Digit6 => if ctrl { ChromeKeyAction::SelectTab(5) } else { ChromeKeyAction::NoAction },
        KeyCode::Digit7 => if ctrl { ChromeKeyAction::SelectTab(6) } else { ChromeKeyAction::NoAction },
        KeyCode::Digit8 => if ctrl { ChromeKeyAction::SelectTab(7) } else { ChromeKeyAction::NoAction },
        KeyCode::Digit9 => if ctrl {
            ChromeKeyAction::SelectLastTab
        } else {
            ChromeKeyAction::NoAction
        },
        _ => ChromeKeyAction::NoAction,
    }
}

/// Process a keyboard event and return the corresponding chrome action.
pub fn handle_chrome_key_event(code: &KeyCode, modifiers: &KeyModifiers) -> (a: ChromeKeyAction)
    ensures
        a == shortcut(*code, *modifiers),
{
    let ctrl = modifiers.control;
    let alt = modifiers.alt;
    let shift = modifiers.shift;
    match code {
        KeyCode::KeyT => if ctrl && !shift { ChromeKeyAction::NewTab } else { ChromeKeyAction::NoAction },
        KeyCode::KeyW => if ctrl && !shift {
            ChromeKeyAction::CloseTab
        } else {
            ChromeKeyAction::NoAction
        },
        KeyCode::KeyL => if ctrl && !shift {
            ChromeKeyAction::FocusUrlBar
        } else {
            ChromeKeyAction::NoAction
        },
        KeyCode::KeyR => if ctrl && !shift {
            ChromeKeyAction::Refresh
        } else if ctrl && shift {
            ChromeKeyAction::HardRefresh
        } else {
            ChromeKeyAction::NoAction
        },
        KeyCode::F5 => if !ctrl && !shift {
            ChromeKeyAction::Refresh
        } else if ctrl {
            ChromeKeyAction::HardRefresh
        } else {
            ChromeKeyAction::NoAction
        },
        KeyCode::KeyN => if ctrl && !shift {
            ChromeKeyAction::NewWindow
        } else {
            ChromeKeyAction::NoAction
        },
        KeyCode::KeyD => if ctrl && !shift {
            ChromeKeyAction::ToggleBookmark
        } else {
            ChromeKeyAction::NoAction
        },
        KeyCode::KeyO => if ctrl && shift {
            ChromeKeyAction::OpenBookmarkManager
        } else {
            ChromeKeyAction::NoAction
        },
        KeyCode::KeyH => if ctrl && !shift {
            ChromeKeyAction::OpenHistory
        } else {
            ChromeKeyAction::NoAction
        },
        KeyCode::KeyF => if ctrl && !shift {
            ChromeKeyAction::FindInPage
        } else {
            ChromeKeyAction::NoAction
        },
        KeyCode::Tab => if ctrl && !shift {
            ChromeKeyAction::NextTab
        } else if ctrl && shift {
            ChromeKeyAction::PrevTab
        } else {
            ChromeKeyAction::NoAction
        },
        KeyCode::ArrowLeft => if alt { ChromeKeyAction::GoBack } else { ChromeKeyAction::NoAction },
        KeyCode::ArrowRight => if alt { ChromeKeyAction::GoForward } else { ChromeKeyAction::NoAction },
        KeyCode::Digit1 => if ctrl { ChromeKeyAction::SelectTab(0) } else { ChromeKeyAction::NoAction },
        KeyCode::Digit2 => if ctrl { ChromeKeyAction::SelectTab(1) } else { ChromeKeyAction::NoAction },
        KeyCode::Digit3 => if ctrl { ChromeKeyAction::SelectTab(2) } else { ChromeKeyAction::NoAction },
        KeyCode::Digit4 => if ctrl { ChromeKeyAction::SelectTab(3) } else { ChromeKeyAction::NoAction },
        KeyCode::Digit5 => if ctrl { ChromeKeyAction::SelectTab(4) } else { ChromeKeyAction::NoAction },
        KeyCode::Digit6 => if ctrl { ChromeKeyAction::SelectTab(5) } else { ChromeKeyAction::NoAction },
        KeyCode::Digit7 => if ctrl { ChromeKeyAction::SelectTab(6) } else { ChromeKeyAction::NoAction },
        KeyCode::Digit8 => if ctrl { ChromeKeyAction::SelectTab(7) } else { ChromeKeyAction::NoAction },
        KeyCode::Digit9 => if ctrl {
            ChromeKeyAction::SelectLastTab
        } else {
            ChromeKeyAction::NoAction
        },
        _ => ChromeKeyAction::NoAction,
    }
}

/// Without Ctrl or Alt, the only shortcut is F5 (reload); every other
/// shortcut needs Ctrl, except Alt+Left and Alt+Right.
pub proof fn law_shortcuts_need_modifier(code: KeyCode, m: KeyModifiers)
    ensures
        !m.control && !m.alt ==> (shortcut(code, m) == ChromeKeyAction::NoAction || (code
            == KeyCode::F5 && shortcut(code, m) == ChromeKeyAction::Refresh)),
        !m.control && shortcut(code, m) != ChromeKeyAction::NoAction ==> (code == KeyCode::F5
            || code == KeyCode::ArrowLeft || code == KeyCode::ArrowRight),
{
}

/// The digit key for `n` from 1 to 9.
pub open spec fn digit_key(n: nat) -> KeyCode {
    if n == 1 {
        KeyCode::Digit1
    } else if n == 2 {
        KeyCode::Digit2
    } else if n == 3 {
        KeyCode::Digit3
    } else if n == 4 {
        KeyCode::Digit4
    } else if n == 5 {
        KeyCode::Digit5
    } else if n == 6 {
        KeyCode::Digit6
    } else if n == 7 {
        KeyCode::Digit7
    } else if n == 8 {
        KeyCode::Digit8
    } else {
        KeyCode::Digit9
    }
}

/// Ctrl+N selects the N-th tab (index N - 1) for N from 1 to 8, and Ctrl+9
/// the last tab, whatever other modifiers are held; without Ctrl a digit
/// asks for nothing.
pub proof fn law_ctrl_digit_selects_tab(n: nat, m: KeyModifiers)
    requires
        1 <= n <= 9,
    ensures
        m.control && n <= 8 ==> shortcut(digit_key(n), m) == ChromeKeyAction::SelectTab(
            (n - 1) as usize,
        ),
        m.control && n == 9 ==> shortcut(digit_key(n), m) == ChromeKeyAction::SelectLastTab,
        !m.control ==> shortcut(digit_key(n), m) == ChromeKeyAction::NoAction,
{
}

/// The letter shortcuts take Ctrl without Shift (Ctrl+T new tab, Ctrl+W close
/// tab, Ctrl+L address bar, Ctrl+N new window, Ctrl+D bookmark, Ctrl+H
/// history, Ctrl+F find, Ctrl+R reload); Ctrl+Shift+R and Ctrl+F5 reload
/// hard, Ctrl+Shift+O opens the bookmark manager, F5 alone reloads, Ctrl+Tab
/// and Ctrl+Shift+Tab step through tabs, and Alt+Left and Alt+Right go back
/// and forward whatever else is held. Alt and Shift never matter to Ctrl+N.
pub proof fn law_shortcut_keys(m: KeyModifiers)
    ensures
        m.control && !m.shift ==> {
            &&& shortcut(KeyCode::KeyT, m) == ChromeKeyAction::NewTab
            &&& shortcut(KeyCode::KeyW, m) == ChromeKeyAction::CloseTab
            &&& shortcut(KeyCode::KeyL, m) == ChromeKeyAction::FocusUrlBar
            &&& shortcut(KeyCode::KeyN, m) == ChromeKeyAction::NewWindow
            &&& shortcut(KeyCode::KeyD, m) == ChromeKeyAction::ToggleBookmark
            &&& shortcut(KeyCode::KeyH, m) == ChromeKeyAction::OpenHistory
            &&& shortcut(KeyCode::KeyF, m) == ChromeKeyAction::FindInPage
            &&& shortcut(KeyCode::KeyR, m) == ChromeKeyAction::Refresh
            &&& shortcut(KeyCode::Tab, m) == ChromeKeyAction::NextTab
            &&& shortcut(KeyCode::F5, m) == ChromeKeyAction::HardRefresh
            &&& shortcut(KeyCode::KeyO, m) == ChromeKeyAction::NoAction
        },
        m.control && m.shift ==> {
            &&& shortcut(KeyCode::KeyR, m) == ChromeKeyAction::HardRefresh
            &&& shortcut(KeyCode::KeyO, m) == ChromeKeyAction::OpenBookmarkManager
            &&& shortcut(KeyCode::Tab, m) == ChromeKeyAction::PrevTab
            &&& shortcut(KeyCode::F5, m) == ChromeKeyAction::HardRefresh
            &&& shortcut(KeyCode::KeyT, m) == ChromeKeyAction::NoAction
            &&& shortcut(KeyCode::KeyW, m) == ChromeKeyAction::NoAction
        },
        !m.control && !m.shift ==> shortcut(KeyCode::F5, m) == ChromeKeyAction::Refresh,
        m.alt ==> shortcut(KeyCode::ArrowLeft, m) == ChromeKeyAction::GoBack,
        m.alt ==> shortcut(KeyCode::ArrowRight, m) == ChromeKeyAction::GoForward,
        !m.alt ==> shortcut(KeyCode::ArrowLeft, m) == ChromeKeyAction::NoAction,
        !m.alt ==> shortcut(KeyCode::ArrowRight, m) == ChromeKeyAction::NoAction,
        shortcut(KeyCode::Other, m) == ChromeKeyAction::NoAction,
        shortcut(KeyCode::Enter, m) == ChromeKeyAction::NoAction,
        shortcut(KeyCode::Escape, m) == ChromeKeyAction::NoAction,
{
}

} // verus!
