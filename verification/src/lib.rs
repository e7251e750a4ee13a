//! Core logic of the Eesha browser chrome: the address-bar text editor,
//! tab and navigation state, keyboard shortcuts and pointer-event decisions.

pub mod clipboard;
pub mod editing;
pub mod event;
pub mod keyboard;
pub mod keys;
pub mod messages;
pub mod native_chrome;
pub mod state;
pub mod text;
pub mod url_input;
pub mod widget;
