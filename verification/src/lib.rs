//! Live-preview core for a watched text document.
//!
//! The crate has two halves: [`markdown`] renders the document and extracts
//! metadata, and [`background`] holds the debounced update-loop state machine
//! that turns raw filesystem notifications into an ordered stream of render
//! messages.

pub mod background;
pub mod markdown;
