//! Settings accepted before any hardware is touched.

use vstd::prelude::*;

verus! {

/// Lowest transmit frequency accepted, in hertz.
pub const MIN_FREQ_HZ: i64 = 70_000_000;

/// Highest transmit frequency accepted, in hertz.
pub const MAX_FREQ_HZ: i64 = 6_000_000_000;

/// Frequency used when none is given, in hertz.
pub const DEFAULT_FREQ_HZ: i64 = 144_400_000;

/// Longest callsign accepted, in bytes.
pub const MAX_CALLSIGN_LEN: usize = 12;

/// Callsign used when none is given.
pub const DEFAULT_CALLSIGN: &'static str = "RAEM";

/// Why a setting was refused.
#[derive(Clone, Copy, Debug, PartialEq, Eq, Structural)]
pub enum ValidationError {
    FrequencyOutOfRange,
    CallsignTooLong,
}

pub open spec fn freq_in_range(freq_hz: int) -> bool {
    MIN_FREQ_HZ <= freq_hz <= MAX_FREQ_HZ
}

pub open spec fn callsign_fits(callsign: &str) -> bool {
    callsign.len() <= MAX_CALLSIGN_LEN
}

/// Checks the transmit frequency, then the callsign's length.
pub fn validate(freq_hz: i64, callsign: &str) -> (r: Result<(), ValidationError>)
    ensures
        r is Ok <==> freq_in_range(freq_hz as int) && callsign_fits(callsign),
        !freq_in_range(freq_hz as int) ==> r == Err::<(), _>(ValidationError::FrequencyOutOfRange),
        freq_in_range(freq_hz as int) && !callsign_fits(callsign) ==> r == Err::<(), _>(
            ValidationError::CallsignTooLong,
        ),
{
    if freq_hz > MAX_FREQ_HZ || freq_hz < MIN_FREQ_HZ {
        return Err(ValidationError::FrequencyOutOfRange);
    }
    if callsign.len() > MAX_CALLSIGN_LEN {
        return Err(ValidationError::CallsignTooLong);
    }
    Ok(())
}

} // verus!
