//! The long-lived managers: the audio recorder and the key-chord dispatcher,
//! each with its mathematical model.

pub mod audio;
pub mod chord;
pub mod keybinding;
pub mod recorder;
