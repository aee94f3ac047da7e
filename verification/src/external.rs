//! What the crate relies on other crates for, and what it takes for granted of them.
use crate::math::{gcd_of, magnitude, towards_zero};
use crate::time::{tick_nanos, NANOS_PER_SEC};
use vstd::prelude::*;

verus! {

/// The error that `rubato` gives for a resampler that cannot be made. It is only carried along.
#[verifier::external_type_specification]
#[verifier::external_body]
pub struct ExResamplerConstructionError(::rubato::ResamplerConstructionError);

/// The error of `symphonia`, for whatever goes wrong with a stream. It is only carried along.
#[verifier::external_type_specification]
#[verifier::external_body]
pub struct ExError(::symphonia::core::errors::Error);

/// The registry in which `symphonia` looks decoders up. It is only carried along.
#[verifier::external_type_specification]
#[verifier::external_body]
pub struct ExCodecRegistry(::symphonia::core::codecs::registry::CodecRegistry);

/// `numer / denom` in lowest terms, as `num_rational::Ratio::new` has it: both are divided by their
/// greatest common divisor.
#[verifier::external_body]
pub(crate) fn reduced_ratio(numer: u32, denom: u32) -> (r: (u32, u32))
    requires
        denom != 0,
    ensures
        r.0 as int == numer as int / gcd_of(numer as nat, denom as nat) as int,
        r.1 as int == denom as int / gcd_of(numer as nat, denom as nat) as int,
{
    ::num_rational::Ratio::new(numer, denom).into_raw()
}

/// What `symphonia`'s `TimeBase::calc_time` computes for the tick `ts`, where a tick lasts
/// `numer / denom` seconds, taken apart by `Time::parts`: the whole seconds and the nanoseconds
/// beyond them, both counted from zero, also before it. The nanoseconds bear no sign. There is no
/// result where the seconds, rounded down, do not fit in an `i64`.
#[verifier::external_body]
pub(crate) fn calc_time(numer: u32, denom: u32, ts: i64) -> (r: Option<(i64, u32)>)
    requires
        numer != 0,
        denom != 0,
    ensures
        r is Some <==> i64::MIN <= tick_nanos(numer as int, denom as int, ts as int)
            / NANOS_PER_SEC as int <= i64::MAX,
        r matches Some(parts) ==> parts.0 == towards_zero(
            tick_nanos(numer as int, denom as int, ts as int),
            NANOS_PER_SEC as int,
        ),
        r matches Some(parts) ==> parts.1 == magnitude(
            tick_nanos(numer as int, denom as int, ts as int),
        ) % NANOS_PER_SEC as int,
{
    let time_base = ::symphonia::core::units::TimeBase::try_new(numer, denom)?;
    let time = time_base.calc_time(::symphonia::core::units::Timestamp::new(ts))?;
    Some(time.parts())
}

} // verus!
