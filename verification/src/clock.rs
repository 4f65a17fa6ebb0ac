//! Readings of the clock as plain numbers.

use vstd::prelude::*;

verus! {

/// Time since the Unix epoch.
#[derive(Debug, Clone, Copy)]
pub struct Elapsed {
    pub secs: u64,
    pub nanos: u32,
}

/// Whole seconds since the epoch; 0 where the clock stands before it.
pub fn now_secs(elapsed: Option<Elapsed>) -> (secs: i64)
    ensures
        secs == match elapsed {
            Some(at) => at.secs as i64,
            None => 0,
        },
{
    match elapsed {
        Some(at) => at.secs as i64,
        None => 0,
    }
}

/// Whole milliseconds since the epoch, in 64 bits; 0 where the clock stands
/// before it.
pub fn now_ms(elapsed: Option<Elapsed>) -> (millis: u64)
    ensures
        millis as int == match elapsed {
            Some(at) => (at.secs * 1000 + at.nanos / 1_000_000) % 0x1_0000_0000_0000_0000,
            None => 0,
        },
{
    match elapsed {
        Some(at) => {
            let all: u128 = at.secs as u128 * 1000 + (at.nanos / 1_000_000) as u128;
            assert(all as u64 == all % 0x1_0000_0000_0000_0000) by (bit_vector);
            all as u64
        },
        None => 0,
    }
}

} // verus!
