//! The ledger's clock, as far as a quote needs it.

use crate::bytes::{i64_at, u64_at};
use vstd::prelude::*;

verus! {

/// Length of the clock account's data.
pub const CLOCK_LEN: usize = 40;

/// The ledger's clock.
#[derive(Clone, Copy, Debug, PartialEq, Eq)]
pub struct Clock {
    pub slot: u64,
    pub epoch_start_timestamp: i64,
    pub epoch: u64,
    pub leader_schedule_epoch: u64,
    pub unix_timestamp: i64,
}

/// The clock's data did not decode.
#[derive(Clone, Copy, Debug, PartialEq, Eq, Structural)]
pub enum ClockError {
    Malformed,
}

/// The error type of `bincode`.
#[verifier::external_type_specification]
#[verifier::external_body]
pub struct ExErrorKind(bincode::ErrorKind);

/// The clock stored in the first forty bytes of `b`: five 64-bit numbers,
/// little-endian, in the order of the fields.
pub open spec fn clock_at(b: Seq<u8>) -> Clock {
    Clock {
        slot: u64_at(b, 0) as u64,
        epoch_start_timestamp: i64_at(b, 8) as i64,
        epoch: u64_at(b, 16) as u64,
        leader_schedule_epoch: u64_at(b, 24) as u64,
        unix_timestamp: i64_at(b, 32) as i64,
    }
}

/// Calls `bincode::deserialize` for the ledger's clock. Trusted: it
/// succeeds on every buffer of at least forty bytes and on no other, and
/// reads the five fields from the first forty bytes, each as a fixed-width
/// little-endian number; bytes after those are ignored.
#[verifier::external_body]
pub(crate) fn deserialize_clock(data: &[u8]) -> (r: Result<Clock, Box<bincode::ErrorKind>>)
    ensures
        r is Ok <==> data@.len() >= CLOCK_LEN,
        r matches Ok(c) ==> c == clock_at(data@),
{
    let clock: anchor_lang::solana_program::clock::Clock = bincode::deserialize(data)?;
    Ok(
        Clock {
            slot: clock.slot,
            epoch_start_timestamp: clock.epoch_start_timestamp,
            epoch: clock.epoch,
            leader_schedule_epoch: clock.leader_schedule_epoch,
            unix_timestamp: clock.unix_timestamp,
        },
    )
}

/// Decodes the data of the clock account.
pub fn decode_clock(data: &[u8]) -> (r: Result<Clock, ClockError>)
    ensures
        data@.len() >= CLOCK_LEN ==> r == Ok::<Clock, ClockError>(clock_at(data@)),
        data@.len() < CLOCK_LEN ==> r == Err::<Clock, ClockError>(ClockError::Malformed),
{
    match deserialize_clock(data) {
        Ok(clock) => Ok(clock),
        Err(_) => Err(ClockError::Malformed),
    }
}

/// A timestamp as the unsigned number with the same 64 bits.
pub open spec fn unsigned_timestamp(unix_timestamp: int) -> int {
    if unix_timestamp < 0 {
        unix_timestamp + 0x1_0000_0000_0000_0000
    } else {
        unix_timestamp
    }
}

impl Clock {
    /// What a quote takes from the clock: the timestamp, as an unsigned
    /// number, and the slot.
    pub fn quote_inputs(&self) -> (r: (u64, u64))
        ensures
            r.0 == unsigned_timestamp(self.unix_timestamp as int),
            r.1 == self.slot,
    {
        let t: i64 = self.unix_timestamp;
        let timestamp: u64 = if t < 0 {
            ((t + 0x7fff_ffff_ffff_ffff) + 1) as u64 + 0x8000_0000_0000_0000
        } else {
            t as u64
        };
        (timestamp, self.slot)
    }
}

} // verus!
