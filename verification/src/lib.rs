//! A mode-aware keyboard remapping engine.
//!
//! The crate models the state of a keyboard-remapping daemon: the pressed
//! state of the left and right variant of each modifier, a binding table
//! built once from configuration, a mode state machine, and an action
//! dispatcher that synthesizes the modifier sequence around a remapped key
//! tap. Every event the engine decides to emit is returned as a plain value;
//! device input and output, window-focus queries and process spawning are
//! left to the surrounding program.

pub mod construct;
pub mod config;
pub mod engine;
pub mod keys;
pub mod modes;
pub mod parser;
pub mod strutil;
pub mod table;
