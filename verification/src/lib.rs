//! A small text-parsing library for a relaxed JSON dialect, together with the
//! plain data types of the HTTP client application built around it: requests,
//! responses, collections, environments and import records.
//!
//! The parser turns a raw string into a tree of values in three stages: a
//! lexer produces a flat token list, a replayable token cursor walks it, and a
//! recursive-descent tree builder produces the value tree or the first error.

pub mod collection;
pub mod environment;
pub mod error;
pub mod history;
pub mod http;
pub mod importers;
pub mod json;
pub mod parse;
pub mod request;
pub mod request_body;
pub mod response;
pub mod string_map;
pub mod text;
pub mod token_stream;
pub mod tokenizer;
