//! A verified rendering core for citation styles: a speculative output
//! buffer with provisional regions, leaf renderers for text, numbers, labels
//! and dates, delimiter-aware child assembly, conditional branches and
//! variable-driven group suppression; and source-location spans.

pub mod span;
pub mod style;
pub mod output;
pub mod numeral;
pub mod element;
pub mod context;
pub mod date;
pub mod condition;
pub mod chars;
pub mod pages;
pub mod render;
pub mod laws;
