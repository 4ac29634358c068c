//! The desktop shell's own logic: the engine that drives a quiet run and its
//! undo, the process picker's rows, the scan, the tray's words, the
//! autostart guard and the assessment checks. The window, the tray icon and
//! the operating system calls stay outside; they hand this module plain
//! values and act on what it decides.

pub mod error;
pub mod engine;
pub mod scan;
pub mod rows;
pub mod tray;
pub mod autostart;
pub mod commands;
pub mod model;
pub mod ai;
pub mod helper;
pub mod round_trip;
