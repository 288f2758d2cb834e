//! Push-to-talk dictation core: a recording state machine that gates a live
//! sample stream, and a key-chord dispatcher that decides when the handlers
//! of a binding fire.

pub mod managers;
pub mod settings;
pub mod shortcut;
pub mod utils;
