//! Counts, rates and units shared by the whole crate.
use vstd::arithmetic::div_mod::*;
use vstd::arithmetic::mul::*;
use vstd::prelude::*;
use vstd::std_specs::ops::{AddSpec, AddSpecImpl, SubSpec, SubSpecImpl};

verus! {

/// The sample rate, in Hz, used for generators and device sinks unless another is asked for.
pub const DEFAULT_SAMPLE_RATE: u32 = 48_000;

/// Sample rate: a frame rate, or samples per second per channel. Can never be zero.
#[derive(Debug, Clone, Copy, PartialEq, Eq, Structural)]
pub struct SampleRate {
    rate: u32,
}

impl View for SampleRate {
    type V = int;

    closed spec fn view(&self) -> int {
        self.rate as int
    }
}

impl SampleRate {
    #[verifier::type_invariant]
    spec fn is_non_zero(self) -> bool {
        self.rate != 0
    }

    /// Wraps `rate`, unless it is zero.
    pub fn new(rate: u32) -> (r: Option<SampleRate>)
        ensures
            r is Some <==> rate != 0,
            r matches Some(wrapped) ==> wrapped@ == rate,
    {
        if rate == 0 {
            None
        } else {
            Some(SampleRate { rate })
        }
    }

    /// The wrapped number.
    pub fn get(self) -> (r: u32)
        ensures
            r == self@,
            r > 0,
    {
        proof {
            use_type_invariant(&self);
        }
        self.rate
    }
}

/// Number of channels in a stream. Can never be zero.
#[derive(Debug, Clone, Copy, PartialEq, Eq, Structural)]
pub struct ChannelCount {
    count: u16,
}

impl View for ChannelCount {
    type V = int;

    closed spec fn view(&self) -> int {
        self.count as int
    }
}

impl ChannelCount {
    #[verifier::type_invariant]
    spec fn is_non_zero(self) -> bool {
        self.count != 0
    }

    /// Wraps `count`, unless it is zero.
    pub fn new(count: u16) -> (r: Option<ChannelCount>)
        ensures
            r is Some <==> count != 0,
            r matches Some(wrapped) ==> wrapped@ == count,
    {
        if count == 0 {
            None
        } else {
            Some(ChannelCount { count })
        }
    }

    /// The wrapped number.
    pub fn get(self) -> (r: u16)
        ensures
            r == self@,
            r > 0,
    {
        proof {
            use_type_invariant(&self);
        }
        self.count
    }
}

/// Number of bits per sample. Can never be zero.
#[derive(Debug, Clone, Copy, PartialEq, Eq, Structural)]
pub struct BitDepth {
    bits: u32,
}

impl View for BitDepth {
    type V = int;

    closed spec fn view(&self) -> int {
        self.bits as int
    }
}

impl BitDepth {
    #[verifier::type_invariant]
    spec fn is_non_zero(self) -> bool {
        self.bits != 0
    }

    /// Wraps `bits`, unless it is zero.
    pub fn new(bits: u32) -> (r: Option<BitDepth>)
        ensures
            r is Some <==> bits != 0,
            r matches Some(wrapped) ==> wrapped@ == bits,
    {
        if bits == 0 {
            None
        } else {
            Some(BitDepth { bits })
        }
    }

    /// The wrapped number.
    pub fn get(self) -> (r: u32)
        ensures
            r == self@,
            r > 0,
    {
        proof {
            use_type_invariant(&self);
        }
        self.bits
    }
}

/// How many whole frames of `channels` samples are in `samples` samples.
pub open spec fn whole_frames(samples: int, channels: int) -> int {
    samples / channels
}

/// How many samples make up `frames` frames of `channels` samples.
pub open spec fn samples_of(frames: int, channels: int) -> int {
    frames * channels
}

/// A frame more is a sample more for each channel.
pub proof fn law_each_frame_has_a_sample_per_channel(frames: int, channels: int)
    ensures
        samples_of(0, channels) == 0,
        samples_of(frames + 1, channels) == samples_of(frames, channels) + channels,
{
    lemma_mul_basics(channels);
    lemma_mul_is_distributive_add_other_way(channels, frames, 1);
}

/// Whole frames are as many as fit, and what is left over makes up no frame.
pub proof fn law_as_many_frames_as_fit(samples: int, channels: int)
    requires
        samples >= 0,
        channels > 0,
    ensures
        whole_frames(samples, channels) >= 0,
        whole_frames(samples, channels) * channels <= samples < (whole_frames(samples, channels)
            + 1) * channels,
{
    lemma_div_pos_is_pos(samples, channels);
    law_samples_round_down_to_frames(samples, channels);
    lemma_mul_is_distributive_add_other_way(channels, whole_frames(samples, channels), 1);
    lemma_mul_basics(channels);
}

/// Counting frames in samples and back loses nothing.
pub proof fn law_frames_survive_samples(frames: int, channels: int)
    requires
        channels > 0,
    ensures
        whole_frames(samples_of(frames, channels), channels) == frames,
{
    lemma_div_multiples_vanish(frames, channels);
    lemma_mul_is_commutative(frames, channels);
}

/// Counting samples in frames and back drops the samples of an incomplete last frame, and only
/// those.
pub proof fn law_samples_round_down_to_frames(samples: int, channels: int)
    requires
        channels > 0,
    ensures
        samples_of(whole_frames(samples, channels), channels) == samples - samples % channels,
        0 <= samples % channels < channels,
{
    lemma_fundamental_div_mod(samples, channels);
    lemma_mod_bound(samples, channels);
    lemma_mul_is_commutative(samples / channels, channels);
}

/// Compiles only for a type that is fit to be an error: one that can be sent and shared between
/// threads, borrows nothing, can be shown to users and to developers, and can be cloned.
pub fn use_required_traits<
    T: Send + Sync + std::fmt::Display + std::fmt::Debug + Clone + 'static,
>() {
}

/// A number of samples going into a converter.
#[derive(Debug, Clone, Copy, PartialEq, Eq, PartialOrd, Ord, Structural)]
pub struct InSamples(pub usize);

impl InSamples {
    /// None at all.
    #[verifier::allow_in_spec]
    pub fn zero() -> InSamples
        returns
            InSamples(0),
    {
        InSamples(0)
    }

    /// The largest number there is.
    #[verifier::allow_in_spec]
    pub fn max_value() -> InSamples
        returns
            InSamples(usize::MAX),
    {
        InSamples(usize::MAX)
    }

    /// The number of whole frames that these samples make up.
    pub fn frames(&self, num_channels: ChannelCount) -> (r: InFrameCount)
        ensures
            r.0 == whole_frames(self.0 as int, num_channels@),
    {
        InFrameCount(self.0 / num_channels.get() as usize)
    }

    /// The same number, without its direction.
    pub fn count(&self) -> (r: SampleCount)
        ensures
            r.0 == self.0,
    {
        SampleCount(self.0)
    }

    /// The plain number.
    pub fn raw(&self) -> (r: usize)
        ensures
            r == self.0,
    {
        self.0
    }

    /// The plain number, for writing.
    pub fn raw_mut(&mut self) -> (r: &mut usize)
        ensures
            *r == old(self).0,
            final(self).0 == *final(r),
    {
        &mut self.0
    }

    /// The difference, or zero where `rhs` is the larger.
    pub fn saturating_sub(&self, rhs: InSamples) -> (r: InSamples)
        ensures
            r.0 == if self.0 >= rhs.0 {
                self.0 - rhs.0
            } else {
                0
            },
    {
        InSamples(self.0.saturating_sub(rhs.0))
    }

    /// Adds `rhs` in place.
    pub fn add_assign(&mut self, rhs: InSamples)
        requires
            old(self).0 + rhs.0 <= usize::MAX,
        ensures
            final(self).0 == old(self).0 + rhs.0,
    {
        self.0 = self.0 + rhs.0;
    }

    /// Subtracts `rhs` in place.
    pub fn sub_assign(&mut self, rhs: InSamples)
        requires
            rhs.0 <= old(self).0,
        ensures
            final(self).0 == old(self).0 - rhs.0,
    {
        self.0 = self.0 - rhs.0;
    }
}

impl core::ops::Add<InSamples> for InSamples {
    type Output = InSamples;

    fn add(self, rhs: InSamples) -> (r: InSamples) {
        InSamples(self.0 + rhs.0)
    }
}

impl AddSpecImpl<InSamples> for InSamples {
    open spec fn obeys_add_spec() -> bool {
        true
    }

    open spec fn add_req(self, rhs: InSamples) -> bool {
        self.0 + rhs.0 <= usize::MAX
    }

    open spec fn add_spec(self, rhs: InSamples) -> InSamples {
        InSamples((self.0 + rhs.0) as usize)
    }
}

impl core::ops::Add<usize> for InSamples {
    type Output = InSamples;

    fn add(self, rhs: usize) -> (r: InSamples) {
        InSamples(self.0 + rhs)
    }
}

impl AddSpecImpl<usize> for InSamples {
    open spec fn obeys_add_spec() -> bool {
        true
    }

    open spec fn add_req(self, rhs: usize) -> bool {
        self.0 + rhs <= usize::MAX
    }

    open spec fn add_spec(self, rhs: usize) -> InSamples {
        InSamples((self.0 + rhs) as usize)
    }
}

impl core::ops::Sub<InSamples> for InSamples {
    type Output = InSamples;

    fn sub(self, rhs: InSamples) -> (r: InSamples) {
        InSamples(self.0 - rhs.0)
    }
}

impl SubSpecImpl<InSamples> for InSamples {
    open spec fn obeys_sub_spec() -> bool {
        true
    }

    open spec fn sub_req(self, rhs: InSamples) -> bool {
        rhs.0 <= self.0
    }

    open spec fn sub_spec(self, rhs: InSamples) -> InSamples {
        InSamples((self.0 - rhs.0) as usize)
    }
}

/// A number of samples coming out of a converter.
#[derive(Debug, Clone, Copy, PartialEq, Eq, PartialOrd, Ord, Structural)]
pub struct OutSamples(pub usize);

impl OutSamples {
    /// None at all.
    #[verifier::allow_in_spec]
    pub fn zero() -> OutSamples
        returns
            OutSamples(0),
    {
        OutSamples(0)
    }

    /// The largest number there is.
    #[verifier::allow_in_spec]
    pub fn max_value() -> OutSamples
        returns
            OutSamples(usize::MAX),
    {
        OutSamples(usize::MAX)
    }

    /// The number of whole frames that these samples make up.
    pub fn frames(&self, num_channels: ChannelCount) -> (r: OutFrameCount)
        ensures
            r.0 == whole_frames(self.0 as int, num_channels@),
    {
        OutFrameCount(self.0 / num_channels.get() as usize)
    }

    /// The same number, without its direction.
    pub fn count(&self) -> (r: SampleCount)
        ensures
            r.0 == self.0,
    {
        SampleCount(self.0)
    }

    /// The plain number.
    pub fn raw(&self) -> (r: usize)
        ensures
            r == self.0,
    {
        self.0
    }

    /// The plain number, for writing.
    pub fn raw_mut(&mut self) -> (r: &mut usize)
        ensures
            *r == old(self).0,
            final(self).0 == *final(r),
    {
        &mut self.0
    }

    /// The difference, or zero where `rhs` is the larger.
    pub fn saturating_sub(&self, rhs: OutSamples) -> (r: OutSamples)
        ensures
            r.0 == if self.0 >= rhs.0 {
                self.0 - rhs.0
            } else {
                0
            },
    {
        OutSamples(self.0.saturating_sub(rhs.0))
    }

    /// Adds `rhs` in place.
    pub fn add_assign(&mut self, rhs: OutSamples)
        requires
            old(self).0 + rhs.0 <= usize::MAX,
        ensures
            final(self).0 == old(self).0 + rhs.0,
    {
        self.0 = self.0 + rhs.0;
    }

    /// Subtracts `rhs` in place.
    pub fn sub_assign(&mut self, rhs: OutSamples)
        requires
            rhs.0 <= old(self).0,
        ensures
            final(self).0 == old(self).0 - rhs.0,
    {
        self.0 = self.0 - rhs.0;
    }
}

impl core::ops::Add<OutSamples> for OutSamples {
    type Output = OutSamples;

    fn add(self, rhs: OutSamples) -> (r: OutSamples) {
        OutSamples(self.0 + rhs.0)
    }
}

impl AddSpecImpl<OutSamples> for OutSamples {
    open spec fn obeys_add_spec() -> bool {
        true
    }

    open spec fn add_req(self, rhs: OutSamples) -> bool {
        self.0 + rhs.0 <= usize::MAX
    }

    open spec fn add_spec(self, rhs: OutSamples) -> OutSamples {
        OutSamples((self.0 + rhs.0) as usize)
    }
}

impl core::ops::Add<usize> for OutSamples {
    type Output = OutSamples;

    fn add(self, rhs: usize) -> (r: OutSamples) {
        OutSamples(self.0 + rhs)
    }
}

impl AddSpecImpl<usize> for OutSamples {
    open spec fn obeys_add_spec() -> bool {
        true
    }

    open spec fn add_req(self, rhs: usize) -> bool {
        self.0 + rhs <= usize::MAX
    }

    open spec fn add_spec(self, rhs: usize) -> OutSamples {
        OutSamples((self.0 + rhs) as usize)
    }
}

impl core::ops::Sub<OutSamples> for OutSamples {
    type Output = OutSamples;

    fn sub(self, rhs: OutSamples) -> (r: OutSamples) {
        OutSamples(self.0 - rhs.0)
    }
}

impl SubSpecImpl<OutSamples> for OutSamples {
    open spec fn obeys_sub_spec() -> bool {
        true
    }

    open spec fn sub_req(self, rhs: OutSamples) -> bool {
        rhs.0 <= self.0
    }

    open spec fn sub_spec(self, rhs: OutSamples) -> OutSamples {
        OutSamples((self.0 - rhs.0) as usize)
    }
}

/// A number of samples.
#[derive(Debug, Clone, Copy, PartialEq, Eq, PartialOrd, Ord, Structural)]
pub struct SampleCount(pub usize);

impl SampleCount {
    /// None at all.
    #[verifier::allow_in_spec]
    pub fn zero() -> SampleCount
        returns
            SampleCount(0),
    {
        SampleCount(0)
    }

    /// The largest number there is.
    #[verifier::allow_in_spec]
    pub fn max_value() -> SampleCount
        returns
            SampleCount(usize::MAX),
    {
        SampleCount(usize::MAX)
    }

    /// The number of whole frames that these samples make up.
    pub fn frames(&self, num_channels: ChannelCount) -> (r: FrameCount)
        ensures
            r.0 == whole_frames(self.0 as int, num_channels@),
    {
        FrameCount(self.0 / num_channels.get() as usize)
    }

    /// The same number, without its direction.
    pub fn count(&self) -> (r: SampleCount)
        ensures
            r.0 == self.0,
    {
        SampleCount(self.0)
    }

    /// The plain number.
    pub fn raw(&self) -> (r: usize)
        ensures
            r == self.0,
    {
        self.0
    }

    /// The plain number, for writing.
    pub fn raw_mut(&mut self) -> (r: &mut usize)
        ensures
            *r == old(self).0,
            final(self).0 == *final(r),
    {
        &mut self.0
    }

    /// The difference, or zero where `rhs` is the larger.
    pub fn saturating_sub(&self, rhs: SampleCount) -> (r: SampleCount)
        ensures
            r.0 == if self.0 >= rhs.0 {
                self.0 - rhs.0
            } else {
                0
            },
    {
        SampleCount(self.0.saturating_sub(rhs.0))
    }

    /// Adds `rhs` in place.
    pub fn add_assign(&mut self, rhs: SampleCount)
        requires
            old(self).0 + rhs.0 <= usize::MAX,
        ensures
            final(self).0 == old(self).0 + rhs.0,
    {
        self.0 = self.0 + rhs.0;
    }

    /// Subtracts `rhs` in place.
    pub fn sub_assign(&mut self, rhs: SampleCount)
        requires
            rhs.0 <= old(self).0,
        ensures
            final(self).0 == old(self).0 - rhs.0,
    {
        self.0 = self.0 - rhs.0;
    }
}

impl core::ops::Add<SampleCount> for SampleCount {
    type Output = SampleCount;

    fn add(self, rhs: SampleCount) -> (r: SampleCount) {
        SampleCount(self.0 + rhs.0)
    }
}

impl AddSpecImpl<SampleCount> for SampleCount {
    open spec fn obeys_add_spec() -> bool {
        true
    }

    open spec fn add_req(self, rhs: SampleCount) -> bool {
        self.0 + rhs.0 <= usize::MAX
    }

    open spec fn add_spec(self, rhs: SampleCount) -> SampleCount {
        SampleCount((self.0 + rhs.0) as usize)
    }
}

impl core::ops::Add<usize> for SampleCount {
    type Output = SampleCount;

    fn add(self, rhs: usize) -> (r: SampleCount) {
        SampleCount(self.0 + rhs)
    }
}

impl AddSpecImpl<usize> for SampleCount {
    open spec fn obeys_add_spec() -> bool {
        true
    }

    open spec fn add_req(self, rhs: usize) -> bool {
        self.0 + rhs <= usize::MAX
    }

    open spec fn add_spec(self, rhs: usize) -> SampleCount {
        SampleCount((self.0 + rhs) as usize)
    }
}

impl core::ops::Sub<SampleCount> for SampleCount {
    type Output = SampleCount;

    fn sub(self, rhs: SampleCount) -> (r: SampleCount) {
        SampleCount(self.0 - rhs.0)
    }
}

impl SubSpecImpl<SampleCount> for SampleCount {
    open spec fn obeys_sub_spec() -> bool {
        true
    }

    open spec fn sub_req(self, rhs: SampleCount) -> bool {
        rhs.0 <= self.0
    }

    open spec fn sub_spec(self, rhs: SampleCount) -> SampleCount {
        SampleCount((self.0 - rhs.0) as usize)
    }
}

/// A number of frames going into a converter.
#[derive(Debug, Clone, Copy, PartialEq, Eq, PartialOrd, Ord, Structural)]
pub struct InFrameCount(pub usize);

impl InFrameCount {
    /// None at all.
    #[verifier::allow_in_spec]
    pub fn zero() -> InFrameCount
        returns
            InFrameCount(0),
    {
        InFrameCount(0)
    }

    /// The largest number there is.
    #[verifier::allow_in_spec]
    pub fn max_value() -> InFrameCount
        returns
            InFrameCount(usize::MAX),
    {
        InFrameCount(usize::MAX)
    }

    /// The number of samples in these frames.
    pub fn samples(&self, num_channels: ChannelCount) -> (r: InSamples)
        requires
            samples_of(self.0 as int, num_channels@) <= usize::MAX,
        ensures
            r.0 == samples_of(self.0 as int, num_channels@),
    {
        InSamples(self.0 * num_channels.get() as usize)
    }

    /// The same number, without its direction.
    pub fn count(&self) -> (r: FrameCount)
        ensures
            r.0 == self.0,
    {
        FrameCount(self.0)
    }

    /// The plain number.
    pub fn raw(&self) -> (r: usize)
        ensures
            r == self.0,
    {
        self.0
    }

    /// The plain number, for writing.
    pub fn raw_mut(&mut self) -> (r: &mut usize)
        ensures
            *r == old(self).0,
            final(self).0 == *final(r),
    {
        &mut self.0
    }

    /// The difference, or zero where `rhs` is the larger.
    pub fn saturating_sub(&self, rhs: InFrameCount) -> (r: InFrameCount)
        ensures
            r.0 == if self.0 >= rhs.0 {
                self.0 - rhs.0
            } else {
                0
            },
    {
        InFrameCount(self.0.saturating_sub(rhs.0))
    }

    /// Adds `rhs` in place.
    pub fn add_assign(&mut self, rhs: InFrameCount)
        requires
            old(self).0 + rhs.0 <= usize::MAX,
        ensures
            final(self).0 == old(self).0 + rhs.0,
    {
        self.0 = self.0 + rhs.0;
    }

    /// Subtracts `rhs` in place.
    pub fn sub_assign(&mut self, rhs: InFrameCount)
        requires
            rhs.0 <= old(self).0,
        ensures
            final(self).0 == old(self).0 - rhs.0,
    {
        self.0 = self.0 - rhs.0;
    }
}

impl core::ops::Add<InFrameCount> for InFrameCount {
    type Output = InFrameCount;

    fn add(self, rhs: InFrameCount) -> (r: InFrameCount) {
        InFrameCount(self.0 + rhs.0)
    }
}

impl AddSpecImpl<InFrameCount> for InFrameCount {
    open spec fn obeys_add_spec() -> bool {
        true
    }

    open spec fn add_req(self, rhs: InFrameCount) -> bool {
        self.0 + rhs.0 <= usize::MAX
    }

    open spec fn add_spec(self, rhs: InFrameCount) -> InFrameCount {
        InFrameCount((self.0 + rhs.0) as usize)
    }
}

impl core::ops::Add<usize> for InFrameCount {
    type Output = InFrameCount;

    fn add(self, rhs: usize) -> (r: InFrameCount) {
        InFrameCount(self.0 + rhs)
    }
}

impl AddSpecImpl<usize> for InFrameCount {
    open spec fn obeys_add_spec() -> bool {
        true
    }

    open spec fn add_req(self, rhs: usize) -> bool {
        self.0 + rhs <= usize::MAX
    }

    open spec fn add_spec(self, rhs: usize) -> InFrameCount {
        InFrameCount((self.0 + rhs) as usize)
    }
}

impl core::ops::Sub<InFrameCount> for InFrameCount {
    type Output = InFrameCount;

    fn sub(self, rhs: InFrameCount) -> (r: InFrameCount) {
        InFrameCount(self.0 - rhs.0)
    }
}

impl SubSpecImpl<InFrameCount> for InFrameCount {
    open spec fn obeys_sub_spec() -> bool {
        true
    }

    open spec fn sub_req(self, rhs: InFrameCount) -> bool {
        rhs.0 <= self.0
    }

    open spec fn sub_spec(self, rhs: InFrameCount) -> InFrameCount {
        InFrameCount((self.0 - rhs.0) as usize)
    }
}

/// A number of frames coming out of a converter.
#[derive(Debug, Clone, Copy, PartialEq, Eq, PartialOrd, Ord, Structural)]
pub struct OutFrameCount(pub usize);

impl OutFrameCount {
    /// None at all.
    #[verifier::allow_in_spec]
    pub fn zero() -> OutFrameCount
        returns
            OutFrameCount(0),
    {
        OutFrameCount(0)
    }

    /// The largest number there is.
    #[verifier::allow_in_spec]
    pub fn max_value() -> OutFrameCount
        returns
            OutFrameCount(usize::MAX),
    {
        OutFrameCount(usize::MAX)
    }

    /// The number of samples in these frames.
    pub fn samples(&self, num_channels: ChannelCount) -> (r: OutSamples)
        requires
            samples_of(self.0 as int, num_channels@) <= usize::MAX,
        ensures
            r.0 == samples_of(self.0 as int, num_channels@),
    {
        OutSamples(self.0 * num_channels.get() as usize)
    }

    /// The same number, without its direction.
    pub fn count(&self) -> (r: FrameCount)
        ensures
            r.0 == self.0,
    {
        FrameCount(self.0)
    }

    /// The plain number.
    pub fn raw(&self) -> (r: usize)
        ensures
            r == self.0,
    {
        self.0
    }

    /// The plain number, for writing.
    pub fn raw_mut(&mut self) -> (r: &mut usize)
        ensures
            *r == old(self).0,
            final(self).0 == *final(r),
    {
        &mut self.0
    }

    /// The difference, or zero where `rhs` is the larger.
    pub fn saturating_sub(&self, rhs: OutFrameCount) -> (r: OutFrameCount)
        ensures
            r.0 == if self.0 >= rhs.0 {
                self.0 - rhs.0
            } else {
                0
            },
    {
        OutFrameCount(self.0.saturating_sub(rhs.0))
    }

    /// Adds `rhs` in place.
    pub fn add_assign(&mut self, rhs: OutFrameCount)
        requires
            old(self).0 + rhs.0 <= usize::MAX,
        ensures
            final(self).0 == old(self).0 + rhs.0,
    {
        self.0 = self.0 + rhs.0;
    }

    /// Subtracts `rhs` in place.
    pub fn sub_assign(&mut self, rhs: OutFrameCount)
        requires
            rhs.0 <= old(self).0,
        ensures
            final(self).0 == old(self).0 - rhs.0,
    {
        self.0 = self.0 - rhs.0;
    }
}

impl core::ops::Add<OutFrameCount> for OutFrameCount {
    type Output = OutFrameCount;

    fn add(self, rhs: OutFrameCount) -> (r: OutFrameCount) {
        OutFrameCount(self.0 + rhs.0)
    }
}

impl AddSpecImpl<OutFrameCount> for OutFrameCount {
    open spec fn obeys_add_spec() -> bool {
        true
    }

    open spec fn add_req(self, rhs: OutFrameCount) -> bool {
        self.0 + rhs.0 <= usize::MAX
    }

    open spec fn add_spec(self, rhs: OutFrameCount) -> OutFrameCount {
        OutFrameCount((self.0 + rhs.0) as usize)
    }
}

impl core::ops::Add<usize> for OutFrameCount {
    type Output = OutFrameCount;

    fn add(self, rhs: usize) -> (r: OutFrameCount) {
        OutFrameCount(self.0 + rhs)
    }
}

impl AddSpecImpl<usize> for OutFrameCount {
    open spec fn obeys_add_spec() -> bool {
        true
    }

    open spec fn add_req(self, rhs: usize) -> bool {
        self.0 + rhs <= usize::MAX
    }

    open spec fn add_spec(self, rhs: usize) -> OutFrameCount {
        OutFrameCount((self.0 + rhs) as usize)
    }
}

impl core::ops::Sub<OutFrameCount> for OutFrameCount {
    type Output = OutFrameCount;

    fn sub(self, rhs: OutFrameCount) -> (r: OutFrameCount) {
        OutFrameCount(self.0 - rhs.0)
    }
}

impl SubSpecImpl<OutFrameCount> for OutFrameCount {
    open spec fn obeys_sub_spec() -> bool {
        true
    }

    open spec fn sub_req(self, rhs: OutFrameCount) -> bool {
        rhs.0 <= self.0
    }

    open spec fn sub_spec(self, rhs: OutFrameCount) -> OutFrameCount {
        OutFrameCount((self.0 - rhs.0) as usize)
    }
}

/// A number of frames.
#[derive(Debug, Clone, Copy, PartialEq, Eq, PartialOrd, Ord, Structural)]
pub struct FrameCount(pub usize);

impl FrameCount {
    /// None at all.
    #[verifier::allow_in_spec]
    pub fn zero() -> FrameCount
        returns
            FrameCount(0),
    {
        FrameCount(0)
    }

    /// The largest number there is.
    #[verifier::allow_in_spec]
    pub fn max_value() -> FrameCount
        returns
            FrameCount(usize::MAX),
    {
        FrameCount(usize::MAX)
    }

    /// The number of samples in these frames.
    pub fn samples(&self, num_channels: ChannelCount) -> (r: SampleCount)
        requires
            samples_of(self.0 as int, num_channels@) <= usize::MAX,
        ensures
            r.0 == samples_of(self.0 as int, num_channels@),
    {
        SampleCount(self.0 * num_channels.get() as usize)
    }

    /// The same number, without its direction.
    pub fn count(&self) -> (r: FrameCount)
        ensures
            r.0 == self.0,
    {
        FrameCount(self.0)
    }

    /// The plain number.
    pub fn raw(&self) -> (r: usize)
        ensures
            r == self.0,
    {
        self.0
    }

    /// The plain number, for writing.
    pub fn raw_mut(&mut self) -> (r: &mut usize)
        ensures
            *r == old(self).0,
            final(self).0 == *final(r),
    {
        &mut self.0
    }

    /// The difference, or zero where `rhs` is the larger.
    pub fn saturating_sub(&self, rhs: FrameCount) -> (r: FrameCount)
        ensures
            r.0 == if self.0 >= rhs.0 {
                self.0 - rhs.0
            } else {
                0
            },
    {
        FrameCount(self.0.saturating_sub(rhs.0))
    }

    /// Adds `rhs` in place.
    pub fn add_assign(&mut self, rhs: FrameCount)
        requires
            old(self).0 + rhs.0 <= usize::MAX,
        ensures
            final(self).0 == old(self).0 + rhs.0,
    {
        self.0 = self.0 + rhs.0;
    }

    /// Subtracts `rhs` in place.
    pub fn sub_assign(&mut self, rhs: FrameCount)
        requires
            rhs.0 <= old(self).0,
        ensures
            final(self).0 == old(self).0 - rhs.0,
    {
        self.0 = self.0 - rhs.0;
    }
}

impl core::ops::Add<FrameCount> for FrameCount {
    type Output = FrameCount;

    fn add(self, rhs: FrameCount) -> (r: FrameCount) {
        FrameCount(self.0 + rhs.0)
    }
}

impl AddSpecImpl<FrameCount> for FrameCount {
    open spec fn obeys_add_spec() -> bool {
        true
    }

    open spec fn add_req(self, rhs: FrameCount) -> bool {
        self.0 + rhs.0 <= usize::MAX
    }

    open spec fn add_spec(self, rhs: FrameCount) -> FrameCount {
        FrameCount((self.0 + rhs.0) as usize)
    }
}

impl core::ops::Add<usize> for FrameCount {
    type Output = FrameCount;

    fn add(self, rhs: usize) -> (r: FrameCount) {
        FrameCount(self.0 + rhs)
    }
}

impl AddSpecImpl<usize> for FrameCount {
    open spec fn obeys_add_spec() -> bool {
        true
    }

    open spec fn add_req(self, rhs: usize) -> bool {
        self.0 + rhs <= usize::MAX
    }

    open spec fn add_spec(self, rhs: usize) -> FrameCount {
        FrameCount((self.0 + rhs) as usize)
    }
}

impl core::ops::Sub<FrameCount> for FrameCount {
    type Output = FrameCount;

    fn sub(self, rhs: FrameCount) -> (r: FrameCount) {
        FrameCount(self.0 - rhs.0)
    }
}

impl SubSpecImpl<FrameCount> for FrameCount {
    open spec fn obeys_sub_spec() -> bool {
        true
    }

    open spec fn sub_req(self, rhs: FrameCount) -> bool {
        rhs.0 <= self.0
    }

    open spec fn sub_spec(self, rhs: FrameCount) -> FrameCount {
        FrameCount((self.0 - rhs.0) as usize)
    }
}

impl InSamples {
    /// Sums and differences are those of the plain numbers, wherever they fit: a difference undoes a
    /// sum, whichever way it was formed.
    pub proof fn law_sums_and_differences(a: InSamples, b: InSamples)
        requires
            a.0 + b.0 <= usize::MAX,
        ensures
            AddSpec::add_req(a, b),
            AddSpec::add_req(a, b.0),
            AddSpec::add_spec(a, b).0 == a.0 + b.0,
            AddSpec::add_spec(a, b.0) == AddSpec::add_spec(a, b),
            AddSpec::add_spec(a, b) == AddSpec::add_spec(b, a),
            SubSpec::sub_req(AddSpec::add_spec(a, b), b),
            SubSpec::sub_spec(AddSpec::add_spec(a, b), b) == a,
    {
    }
}

impl OutSamples {
    /// Sums and differences are those of the plain numbers, wherever they fit: a difference undoes a
    /// sum, whichever way it was formed.
    pub proof fn law_sums_and_differences(a: OutSamples, b: OutSamples)
        requires
            a.0 + b.0 <= usize::MAX,
        ensures
            AddSpec::add_req(a, b),
            AddSpec::add_req(a, b.0),
            AddSpec::add_spec(a, b).0 == a.0 + b.0,
            AddSpec::add_spec(a, b.0) == AddSpec::add_spec(a, b),
            AddSpec::add_spec(a, b) == AddSpec::add_spec(b, a),
            SubSpec::sub_req(AddSpec::add_spec(a, b), b),
            SubSpec::sub_spec(AddSpec::add_spec(a, b), b) == a,
    {
    }
}

impl SampleCount {
    /// Sums and differences are those of the plain numbers, wherever they fit: a difference undoes a
    /// sum, whichever way it was formed.
    pub proof fn law_sums_and_differences(a: SampleCount, b: SampleCount)
        requires
            a.0 + b.0 <= usize::MAX,
        ensures
            AddSpec::add_req(a, b),
            AddSpec::add_req(a, b.0),
            AddSpec::add_spec(a, b).0 == a.0 + b.0,
            AddSpec::add_spec(a, b.0) == AddSpec::add_spec(a, b),
            AddSpec::add_spec(a, b) == AddSpec::add_spec(b, a),
            SubSpec::sub_req(AddSpec::add_spec(a, b), b),
            SubSpec::sub_spec(AddSpec::add_spec(a, b), b) == a,
    {
    }
}

impl InFrameCount {
    /// Sums and differences are those of the plain numbers, wherever they fit: a difference undoes a
    /// sum, whichever way it was formed.
    pub proof fn law_sums_and_differences(a: InFrameCount, b: InFrameCount)
        requires
            a.0 + b.0 <= usize::MAX,
        ensures
            AddSpec::add_req(a, b),
            AddSpec::add_req(a, b.0),
            AddSpec::add_spec(a, b).0 == a.0 + b.0,
            AddSpec::add_spec(a, b.0) == AddSpec::add_spec(a, b),
            AddSpec::add_spec(a, b) == AddSpec::add_spec(b, a),
            SubSpec::sub_req(AddSpec::add_spec(a, b), b),
            SubSpec::sub_spec(AddSpec::add_spec(a, b), b) == a,
    {
    }
}

impl OutFrameCount {
    /// Sums and differences are those of the plain numbers, wherever they fit: a difference undoes a
    /// sum, whichever way it was formed.
    pub proof fn law_sums_and_differences(a: OutFrameCount, b: OutFrameCount)
        requires
            a.0 + b.0 <= usize::MAX,
        ensures
            AddSpec::add_req(a, b),
            AddSpec::add_req(a, b.0),
            AddSpec::add_spec(a, b).0 == a.0 + b.0,
            AddSpec::add_spec(a, b.0) == AddSpec::add_spec(a, b),
            AddSpec::add_spec(a, b) == AddSpec::add_spec(b, a),
            SubSpec::sub_req(AddSpec::add_spec(a, b), b),
            SubSpec::sub_spec(AddSpec::add_spec(a, b), b) == a,
    {
    }
}

impl FrameCount {
    /// Sums and differences are those of the plain numbers, wherever they fit: a difference undoes a
    /// sum, whichever way it was formed.
    pub proof fn law_sums_and_differences(a: FrameCount, b: FrameCount)
        requires
            a.0 + b.0 <= usize::MAX,
        ensures
            AddSpec::add_req(a, b),
            AddSpec::add_req(a, b.0),
            AddSpec::add_spec(a, b).0 == a.0 + b.0,
            AddSpec::add_spec(a, b.0) == AddSpec::add_spec(a, b),
            AddSpec::add_spec(a, b) == AddSpec::add_spec(b, a),
            SubSpec::sub_req(AddSpec::add_spec(a, b), b),
            SubSpec::sub_spec(AddSpec::add_spec(a, b), b) == a,
    {
    }
}

} // verus!
