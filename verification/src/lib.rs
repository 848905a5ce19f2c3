//! The logic of a terminal assistant's tools: web search, code search, the files that tell who the
//! assistant is, results too long to show, and what is known of the processes below a terminal.
//!
//! All of it works on plain data. Files, processes, threads and the network belong to the caller,
//! who hands their results in and does what comes out.
//!
//! Everything here is verified but for the calls of outside code, whose contracts are believed:
//! Verus does not read `text::lossy` (`String::from_utf8_lossy`), `json::value_from_slice`
//! (`serde_json::from_slice`) and `json::open_value` (the variants of `serde_json::Value`), and
//! `text` states what `String::push` does.
pub mod brave;
pub mod command;
pub mod error;
pub mod grep_search;
pub mod json;
pub mod path;
pub mod pattern;
pub mod pipellm;
pub mod process;
pub mod soul;
pub mod spill;
pub mod symbol_search;
pub mod tavily;
pub mod text;
pub mod watch;
pub mod web;
pub mod web_search;
