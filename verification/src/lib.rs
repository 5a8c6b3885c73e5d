//! Live status line for an incremental build loop.
//!
//! The library holds the verified core of the tool: parsing of
//! compiler-style diagnostic lines into structured records, aggregation of
//! one build cycle's records into a `BuildResult`, the segmentation rules
//! of the watcher's output stream, the translation of input signals into
//! control events, the render decision logic that turns the latest result
//! into one line of styled spans, and the main loop's state transitions.
//! Terminal drawing, the watcher subprocess, and the threads that feed the
//! event queue live outside the library and only exchange plain values
//! with it.

pub mod display;
pub mod events;
pub mod parser;
pub mod text;
pub mod watch;

pub use parser::BuildResult;
