//! Best-effort repair of text damaged by encoding mistakes: mojibake from
//! UTF-8 bytes mis-decoded as Latin-1 or Windows-1252, leftover HTML
//! entities, stray control codes, curly-quote / ligature / full-width
//! variants of ASCII, and inconsistent line breaks.
//!
//! The engine is a pure function of `(text, configuration)`: the pipeline
//! applies a fixed sequence of repair stages, re-runs itself until the text
//! stops changing (up to a small pass bound), and can report which stages
//! actually altered the text.

pub mod badness;
pub mod classify;
pub mod codec;
pub mod config;
pub mod entities;
pub mod laws;
pub mod norm;
pub mod pipeline;
pub mod stages;
pub mod textbuf;
pub mod utf8runs;

pub use config::{ExplainedText, ExplanationStep, Normalization, TextFixerConfig, UnescapeMode};
pub use pipeline::{fix_and_explain, fix_text};
