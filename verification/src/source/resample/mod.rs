//! Sample rate conversion of a source, a chunk at a time.
pub mod buffer;
pub mod rubato;
pub mod run;
