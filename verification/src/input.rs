//! The pointer and the keyboard.

pub mod keyboard;
pub mod pointer;
