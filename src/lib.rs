//! Decoding of backslash-escaped string literals.
//!
//! `escape` holds the escape table and the scanner model `escape::decode`.
//! Four strategies meet that one contract and differ only in how they read
//! and buffer:
//! - `chumsky_basic`: combinator style, one item (a character or an escape
//!   pair) at a time;
//! - `chumsky_optimized`: combinator style, each run of plain characters
//!   appended as one slice;
//! - `chumsky_bumpalo`: as `chumsky_optimized`, into an arena-backed buffer;
//! - `manual_parser`: a hand-written linear scan with an escape flag.
//!
//! `generator` writes decodable sample inputs, `harness` compares results,
//! and `laws` states what holds of every decode.

pub mod escape;
pub mod io;
mod text;
pub mod manual_parser;
pub mod chumsky_optimized;
pub mod chumsky_basic;
pub mod chumsky_bumpalo;
pub mod generator;
pub mod harness;
pub mod laws;
