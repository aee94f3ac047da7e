//! Convert audio between PCM formats.
//!
//! A PCM stream is described by the type of its samples, by its channel count and by its sample
//! rate. The converter that is here changes the last and leaves the others intact.
pub mod sample_rate;
