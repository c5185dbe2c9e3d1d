//! Hotkey combination tracking and dispatch for a minimal X11 window manager,
//! together with the lexer and parser of its configuration language.
pub mod record;
pub mod tree;
pub mod keys;
pub mod config;
pub mod handler;
pub mod dispatch;
pub mod lexer;
pub mod profile;
pub mod text;
pub mod ast;
pub mod parser;
