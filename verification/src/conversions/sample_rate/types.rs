//! The units that sample rate conversion counts in.
pub use crate::common::{
    use_required_traits, InFrameCount, InSamples, OutFrameCount, OutSamples,
};
