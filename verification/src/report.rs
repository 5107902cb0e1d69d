//! Decision-oriented report presentation models and renderers.

pub mod model;
pub mod wrap;
pub mod top;
pub mod render;

pub use model::{
    Badge, Confidence, DetailLevel, Finding, FindingGroup, Metric, NextStep, RenderOptions, Report,
    ScopeNote, Trend, Vocabulary,
};
