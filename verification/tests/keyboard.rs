use eesha::keyboard::{handle_chrome_key_event, ChromeKeyAction};
use eesha::keys::{KeyCode, KeyModifiers};

fn m(control: bool, shift: bool, alt: bool) -> KeyModifiers {
    KeyModifiers { shift, control, alt }
}

#[test]
fn ctrl_shortcuts() {
    let c = m(true, false, false);
    assert_eq!(handle_chrome_key_event(&KeyCode::KeyT, &c), ChromeKeyAction::NewTab);
    assert_eq!(handle_chrome_key_event(&KeyCode::KeyW, &c), ChromeKeyAction::CloseTab);
    assert_eq!(handle_chrome_key_event(&KeyCode::KeyL, &c), ChromeKeyAction::FocusUrlBar);
    assert_eq!(handle_chrome_key_event(&KeyCode::KeyR, &c), ChromeKeyAction::Refresh);
    assert_eq!(handle_chrome_key_event(&KeyCode::KeyN, &c), ChromeKeyAction::NewWindow);
    assert_eq!(handle_chrome_key_event(&KeyCode::KeyD, &c), ChromeKeyAction::ToggleBookmark);
    assert_eq!(handle_chrome_key_event(&KeyCode::KeyH, &c), ChromeKeyAction::OpenHistory);
    assert_eq!(handle_chrome_key_event(&KeyCode::KeyF, &c), ChromeKeyAction::FindInPage);
    assert_eq!(handle_chrome_key_event(&KeyCode::Tab, &c), ChromeKeyAction::NextTab);
    assert_eq!(handle_chrome_key_event(&KeyCode::KeyO, &c), ChromeKeyAction::NoAction);
}

#[test]
fn ctrl_shift_shortcuts() {
    let cs = m(true, true, false);
    assert_eq!(handle_chrome_key_event(&KeyCode::KeyR, &cs), ChromeKeyAction::HardRefresh);
    assert_eq!(handle_chrome_key_event(&KeyCode::KeyO, &cs), ChromeKeyAction::OpenBookmarkManager);
    assert_eq!(handle_chrome_key_event(&KeyCode::Tab, &cs), ChromeKeyAction::PrevTab);
    assert_eq!(handle_chrome_key_event(&KeyCode::KeyT, &cs), ChromeKeyAction::NoAction);
    assert_eq!(handle_chrome_key_event(&KeyCode::KeyW, &cs), ChromeKeyAction::NoAction);
}

#[test]
fn f5_variants() {
    assert_eq!(handle_chrome_key_event(&KeyCode::F5, &m(false, false, false)), ChromeKeyAction::Refresh);
    assert_eq!(handle_chrome_key_event(&KeyCode::F5, &m(true, false, false)), ChromeKeyAction::HardRefresh);
    assert_eq!(handle_chrome_key_event(&KeyCode::F5, &m(true, true, false)), ChromeKeyAction::HardRefresh);
    assert_eq!(handle_chrome_key_event(&KeyCode::F5, &m(false, true, false)), ChromeKeyAction::NoAction);
}

#[test]
fn alt_arrows() {
    let a = m(false, false, true);
    assert_eq!(handle_chrome_key_event(&KeyCode::ArrowLeft, &a), ChromeKeyAction::GoBack);
    assert_eq!(handle_chrome_key_event(&KeyCode::ArrowRight, &a), ChromeKeyAction::GoForward);
    assert_eq!(handle_chrome_key_event(&KeyCode::ArrowLeft, &m(false, false, false)), ChromeKeyAction::NoAction);
}

#[test]
fn digit_shortcuts() {
    let c = m(true, false, false);
    assert_eq!(handle_chrome_key_event(&KeyCode::Digit1, &c), ChromeKeyAction::SelectTab(0));
    assert_eq!(handle_chrome_key_event(&KeyCode::Digit4, &c), ChromeKeyAction::SelectTab(3));
    assert_eq!(handle_chrome_key_event(&KeyCode::Digit8, &c), ChromeKeyAction::SelectTab(7));
    assert_eq!(handle_chrome_key_event(&KeyCode::Digit9, &c), ChromeKeyAction::SelectLastTab);
    assert_eq!(handle_chrome_key_event(&KeyCode::Digit2, &m(false, false, false)), ChromeKeyAction::NoAction);
}

#[test]
fn unmodified_keys_do_nothing_but_f5() {
    let none = m(false, false, false);
    for code in [KeyCode::KeyT, KeyCode::KeyW, KeyCode::Tab, KeyCode::Digit9, KeyCode::Other, KeyCode::Enter] {
        assert_eq!(handle_chrome_key_event(&code, &none), ChromeKeyAction::NoAction);
    }
}
