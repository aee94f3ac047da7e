//! Conversion of the sample rate: frames per second (e.g. 44.1 kHz to 48 kHz).
pub mod buffer;
pub mod rubato;
pub mod run;
pub mod types;
