//! A countdown timer for the terminal: the rules of the countdown, without the
//! terminal. A duration is resolved from text, each pass of the render loop is a
//! step of a small state machine, and the progress widget maps a frame's values
//! to the texts and cell colors that are painted.

pub mod span;
pub mod error;
pub mod reach;
pub mod resolve;
pub mod text;
pub mod progress;
pub mod gradient;
pub mod config;
pub mod widget;
pub mod control;
