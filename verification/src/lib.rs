//! Core logic of a terminal dashboard for Android devices and emulator
//! images reached through a device-bridge command-line tool.
//!
//! This crate holds the verified heart of the application: the telemetry
//! parsers that turn raw diagnostic text into structured fields, the roster
//! reconciliation that keeps list selections valid across refreshes, the
//! focus/modal state machine that routes key input, and the action dispatch
//! that turns events into side-effect commands.  Process invocation and
//! terminal rendering live outside this crate and exchange plain values
//! with it.

pub mod app;
pub mod client;
pub mod command;
pub mod content_pane;
pub mod device;
pub mod devices_pane;
pub mod emulator;
pub mod keymap;
pub mod modal;
pub mod msg;
pub mod pane;
pub mod roster;
pub mod telemetry;
pub mod text;
