use anchor_lang::solana_program::clock::Clock as LedgerClock;
use anchor_lang::solana_program::sysvar::SysvarId;
use dlmm_swap::address::CLOCK_SYSVAR_ID;
use dlmm_swap::clock::{decode_clock, Clock, ClockError, CLOCK_LEN};

fn ledger_clock(slot: u64, unix_timestamp: i64) -> LedgerClock {
    let mut clock = LedgerClock::default();
    clock.slot = slot;
    clock.epoch_start_timestamp = -5;
    clock.epoch = 600;
    clock.leader_schedule_epoch = 601;
    clock.unix_timestamp = unix_timestamp;
    clock
}

#[test]
fn clock_decodes_what_the_ledger_encodes() {
    let data = bincode::serialize(&ledger_clock(250_000_000, 1_700_000_000)).unwrap();
    assert_eq!(data.len(), CLOCK_LEN);
    let clock = decode_clock(&data).unwrap();
    assert_eq!(
        clock,
        Clock {
            slot: 250_000_000,
            epoch_start_timestamp: -5,
            epoch: 600,
            leader_schedule_epoch: 601,
            unix_timestamp: 1_700_000_000,
        }
    );
}

#[test]
fn clock_fields_are_five_little_endian_numbers() {
    let mut data = Vec::new();
    for n in [1u64, 2, 3, 4, 5] {
        data.extend_from_slice(&n.to_le_bytes());
    }
    let clock = decode_clock(&data).unwrap();
    assert_eq!(clock.slot, 1);
    assert_eq!(clock.epoch_start_timestamp, 2);
    assert_eq!(clock.epoch, 3);
    assert_eq!(clock.leader_schedule_epoch, 4);
    assert_eq!(clock.unix_timestamp, 5);
}

#[test]
fn a_short_clock_is_malformed() {
    let data = bincode::serialize(&ledger_clock(1, 2)).unwrap();
    for len in [0usize, 1, 8, 39] {
        assert_eq!(decode_clock(&data[..len]), Err(ClockError::Malformed));
    }
}

#[test]
fn bytes_after_the_clock_are_ignored() {
    let mut data = bincode::serialize(&ledger_clock(9, 10)).unwrap();
    let exact = decode_clock(&data).unwrap();
    data.extend_from_slice(&[0xff; 13]);
    assert_eq!(decode_clock(&data), Ok(exact));
}

#[test]
fn quote_takes_the_timestamp_unsigned_and_the_slot() {
    let clock = decode_clock(&bincode::serialize(&ledger_clock(77, 1_700_000_000)).unwrap());
    assert_eq!(clock.unwrap().quote_inputs(), (1_700_000_000, 77));
    let early = decode_clock(&bincode::serialize(&ledger_clock(78, -1)).unwrap()).unwrap();
    assert_eq!(early.quote_inputs(), (u64::MAX, 78));
    let earliest = decode_clock(&bincode::serialize(&ledger_clock(0, i64::MIN)).unwrap()).unwrap();
    assert_eq!(earliest.quote_inputs(), (1 << 63, 0));
}

#[test]
fn the_clock_is_read_from_the_clock_account() {
    assert_eq!(CLOCK_SYSVAR_ID, LedgerClock::id().to_bytes());
}
