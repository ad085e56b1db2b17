//! A run-length model of styled terminal text.
//!
//! Raw terminal output mixes printable characters with CSI escape
//! sequences that set colors and styles.  This crate turns the stream of
//! parse events (printable characters and CSI sequences) into an ordered
//! list of runs, each run a span of text under one fixed style prefix,
//! and serializes such a list back into an equivalent escape-coded
//! character stream.

pub mod builder;
pub mod csi;
pub mod line;
pub mod run;
pub mod sink;
pub mod text;

pub use crate::builder::TLineBuilder;
pub use crate::line::TLine;
pub use crate::run::TString;
pub use crate::sink::RenderError;
pub use crate::sink::Sink;
pub use crate::sink::StringSink;
