//! Opinionated, human-readable terminal presentation for Rust CLIs.
//!
//! Runemark owns semantic output conventions (status, emphasis, colour
//! policy, and structured decision-oriented reports) and renders them into
//! plain strings. Every renderer neutralises terminal control characters in
//! the text it is given; with colour off its output carries no escape
//! sequence at all.
//!
//! It deliberately does not parse command-line arguments, own application
//! logging, or define domain-specific report schemas.

use vstd::prelude::*;

pub mod text;
pub mod color;
pub mod verdict;
pub mod location;
pub mod progress;
pub mod report;
pub mod binding;
pub mod diff;
pub mod error_block;
pub mod select;
pub mod testing;
pub mod plain;

pub use color::{ColorMode, Console, SymbolTheme, Tone};
pub use diff::{DiffBlock, FileAction, FileChange};
pub use error_block::ErrorBlock;
pub use location::{Location, format_osc8};
pub use progress::{PlainProgress, ProgressMode, ProgressSink, SilentProgress};
pub use report::{
    Badge, Confidence, DetailLevel, Finding, FindingGroup, Metric, NextStep, RenderOptions, Report,
    ScopeNote, Trend, Vocabulary,
};
pub use verdict::Verdict;

verus! {
} // verus!
