//! Readings of the monotonic clock, in nanoseconds from an unspecified start
//! (the boot, on Linux). Unlike the system clock, it never goes back, so
//! readings order the events they stamp.
use vstd::prelude::*;
use nix::errno::Errno;
use nix::sys::time::TimeSpec;

verus! {

#[verifier::external_type_specification]
#[verifier::external_body]
pub struct ExTimeSpec(nix::sys::time::TimeSpec);

#[verifier::external_type_specification]
#[verifier::external_body]
pub struct ExErrno(nix::errno::Errno);

/// `nix::time::clock_gettime` on `CLOCK_MONOTONIC`: the current reading of
/// the monotonic clock, or the error the system reports. Nothing is stated of
/// either: they depend on when it is called.
#[verifier::external_body]
fn monotonic_reading() -> Result<TimeSpec, Errno> {
    nix::time::clock_gettime(nix::time::ClockId::CLOCK_MONOTONIC)
}

/// `TimeSpec::tv_sec`: the whole seconds of `t`. Nothing is stated of the
/// value, since a `TimeSpec` is opaque here.
#[verifier::external_body]
fn whole_seconds(t: &TimeSpec) -> i64 {
    t.tv_sec()
}

/// `TimeSpec::tv_nsec`: the nanoseconds of `t` past its whole seconds.
/// Nothing is stated of the value, since a `TimeSpec` is opaque here.
#[verifier::external_body]
fn extra_nanoseconds(t: &TimeSpec) -> i64 {
    t.tv_nsec()
}

/// Nanoseconds in `secs` seconds and `nsec` nanoseconds: 0 for a negative
/// count of seconds or nanoseconds outside one second, and the largest `u64`
/// for a count past it.
pub open spec fn reading_nanos(secs: i64, nsec: i64) -> u64 {
    if secs < 0 || nsec < 0 || nsec >= 1_000_000_000 {
        0
    } else if secs * 1_000_000_000 + nsec > 0xffff_ffff_ffff_ffff {
        0xffff_ffff_ffff_ffff
    } else {
        (secs * 1_000_000_000 + nsec) as u64
    }
}

/// The reading `secs` seconds and `nsec` nanoseconds in nanoseconds.
pub fn nanos_of(secs: i64, nsec: i64) -> (r: u64)
    ensures
        r == reading_nanos(secs, nsec),
{
    if secs < 0 || nsec < 0 || nsec >= 1_000_000_000 {
        return 0;
    }
    let s: u128 = secs as u128;
    let n: u128 = nsec as u128;
    assert(s * 1_000_000_000 <= 0x7fff_ffff_ffff_ffff * 1_000_000_000) by (nonlinear_arith)
        requires
            s <= 0x7fff_ffff_ffff_ffff,
    ;
    let total: u128 = s * 1_000_000_000 + n;
    if total > 0xffff_ffff_ffff_ffffu128 {
        0xffff_ffff_ffff_ffffu64
    } else {
        total as u64
    }
}

/// Nanoseconds on the monotonic clock: 0 where the clock cannot be read or
/// gives a malformed reading. Nothing is stated of the value: it depends on
/// when it is called.
pub fn now() -> u64 {
    match monotonic_reading() {
        Ok(t) => nanos_of(whole_seconds(&t), extra_nanoseconds(&t)),
        Err(_) => 0,
    }
}

} // verus!
