//! The command-line core of an interactive shell: a quoting-aware lexer,
//! redirection extraction, pipeline splitting and wiring, prefix completion,
//! a history store and a keystroke-driven line editor.
pub mod text;
pub mod lexer;
pub mod redirection;
pub mod completion;
pub mod history;
pub mod pipeline;
pub mod builtins;
pub mod editor;
