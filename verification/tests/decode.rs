use dlmm_swap::address::Address;
use dlmm_swap::decode::{
    check_canonical, check_raw, check_resilient, decode_bin_array, decode_bin_array_canonical,
    decode_bin_array_raw, decode_bin_arrays, decode_bitmap_extension,
    decode_bitmap_extension_canonical, decode_bitmap_extension_raw, decode_lb_pair,
    decode_lb_pair_canonical, decode_lb_pair_raw, decode_optional_bitmap_extension,
    decode_record, BinArraysError, DecodeError, Record, RecordKind, BIN_ARRAY_DISCRIMINATOR,
    BITMAP_EXTENSION_DISCRIMINATOR, LB_PAIR_DISCRIMINATOR,
};
use dlmm_swap::layout::{BIN_ARRAY_LEN, BITMAP_EXTENSION_LEN, LB_PAIR_LEN};

fn put(buffer: &mut [u8], at: usize, bytes: &[u8]) {
    buffer[at..at + bytes.len()].copy_from_slice(bytes);
}

fn sample_lb_pair() -> Vec<u8> {
    let mut b = vec![0u8; LB_PAIR_LEN];
    put(&mut b, 0, &LB_PAIR_DISCRIMINATOR);
    put(&mut b, 8, &10_000u16.to_le_bytes());
    put(&mut b, 10, &30u16.to_le_bytes());
    put(&mut b, 12, &600u16.to_le_bytes());
    put(&mut b, 14, &5_000u16.to_le_bytes());
    put(&mut b, 16, &40_000u32.to_le_bytes());
    put(&mut b, 20, &350_000u32.to_le_bytes());
    put(&mut b, 24, &(-43_690i32).to_le_bytes());
    put(&mut b, 28, &43_690i32.to_le_bytes());
    put(&mut b, 32, &500u16.to_le_bytes());
    put(&mut b, 34, &[1, 2, 3, 4, 5, 6]);
    put(&mut b, 40, &77u32.to_le_bytes());
    put(&mut b, 44, &78u32.to_le_bytes());
    put(&mut b, 48, &(-79i32).to_le_bytes());
    put(&mut b, 52, &[9, 8, 7, 6]);
    put(&mut b, 56, &(-1_700_000_000i64).to_le_bytes());
    put(&mut b, 64, &[8; 8]);
    put(&mut b, 72, &[254]);
    put(&mut b, 73, &[10, 0]);
    b[75] = 3;
    put(&mut b, 76, &(-7_001i32).to_le_bytes());
    put(&mut b, 80, &10u16.to_le_bytes());
    b[82] = 1;
    b[83] = 2;
    put(&mut b, 84, &[16, 39]);
    b[86] = 4;
    b[87] = 5;
    put(&mut b, 88, &[11; 32]);
    put(&mut b, 120, &[12; 32]);
    put(&mut b, 152, &[13; 32]);
    put(&mut b, 184, &[14; 32]);
    put(&mut b, 216, &111u64.to_le_bytes());
    put(&mut b, 224, &222u64.to_le_bytes());
    put(&mut b, 232, &[15; 32]);
    for r in 0..2usize {
        let base = 264 + 144 * r;
        let tag = 20 + 10 * r as u8;
        put(&mut b, base, &[tag; 32]);
        put(&mut b, base + 32, &[tag + 1; 32]);
        put(&mut b, base + 64, &[tag + 2; 32]);
        put(&mut b, base + 96, &(1_000 + r as u64).to_le_bytes());
        put(&mut b, base + 104, &(2_000 + r as u64).to_le_bytes());
        put(&mut b, base + 112, &((u64::MAX as u128) * 3 + r as u128).to_le_bytes());
        put(&mut b, base + 128, &(3_000 + r as u64).to_le_bytes());
        put(&mut b, base + 136, &(4_000 + r as u64).to_le_bytes());
    }
    put(&mut b, 552, &[16; 32]);
    for w in 0..16u64 {
        put(&mut b, 584 + 8 * w as usize, &(w * 0x0101_0101_0101_0101).to_le_bytes());
    }
    put(&mut b, 712, &1_700_000_123i64.to_le_bytes());
    put(&mut b, 720, &[17; 32]);
    put(&mut b, 752, &[18; 32]);
    put(&mut b, 784, &[19; 32]);
    put(&mut b, 816, &5_000u64.to_le_bytes());
    put(&mut b, 824, &6_000u64.to_le_bytes());
    put(&mut b, 832, &[7; 8]);
    put(&mut b, 840, &7_000u64.to_le_bytes());
    put(&mut b, 848, &[21; 32]);
    put(&mut b, 880, &[22; 24]);
    b
}

fn sample_bin_array() -> Vec<u8> {
    let mut b = vec![0u8; BIN_ARRAY_LEN];
    put(&mut b, 0, &BIN_ARRAY_DISCRIMINATOR);
    put(&mut b, 8, &(-3i64).to_le_bytes());
    b[16] = 1;
    put(&mut b, 17, &[1, 2, 3, 4, 5, 6, 7]);
    put(&mut b, 24, &[33; 32]);
    for i in 0..70usize {
        let base = 56 + 144 * i;
        let n = i as u128;
        put(&mut b, base, &(100 + i as u64).to_le_bytes());
        put(&mut b, base + 8, &(200 + i as u64).to_le_bytes());
        put(&mut b, base + 16, &((1u128 << 64) + n).to_le_bytes());
        put(&mut b, base + 32, &((2u128 << 64) + n).to_le_bytes());
        put(&mut b, base + 48, &((3u128 << 64) + n).to_le_bytes());
        put(&mut b, base + 64, &((4u128 << 64) + n).to_le_bytes());
        put(&mut b, base + 80, &((5u128 << 64) + n).to_le_bytes());
        put(&mut b, base + 96, &((6u128 << 64) + n).to_le_bytes());
        put(&mut b, base + 112, &((7u128 << 64) + n).to_le_bytes());
        put(&mut b, base + 128, &(u128::MAX - n).to_le_bytes());
    }
    b
}

fn sample_bitmap_extension() -> Vec<u8> {
    let mut b = vec![0u8; BITMAP_EXTENSION_LEN];
    put(&mut b, 0, &BITMAP_EXTENSION_DISCRIMINATOR);
    put(&mut b, 8, &[44; 32]);
    for row in 0..12u64 {
        for word in 0..8u64 {
            let at = (64 * row + 8 * word) as usize;
            put(&mut b, 40 + at, &(1_000 * row + word).to_le_bytes());
            put(&mut b, 808 + at, &(u64::MAX - 1_000 * row - word).to_le_bytes());
        }
    }
    b
}

#[test]
fn each_record_has_its_fixed_length() {
    assert_eq!(LB_PAIR_LEN, 904);
    assert_eq!(BIN_ARRAY_LEN, 10_136);
    assert_eq!(BITMAP_EXTENSION_LEN, 1_576);
    assert_eq!(RecordKind::LbPair.expected_len(), 904);
    assert_eq!(RecordKind::BinArray.expected_len(), 10_136);
    assert_eq!(RecordKind::BitmapExtension.expected_len(), 1_576);
}

#[test]
fn discriminators_are_those_of_the_records() {
    assert_eq!(RecordKind::LbPair.discriminator(), [33, 11, 49, 98, 181, 101, 177, 13]);
    assert_eq!(RecordKind::BinArray.discriminator(), [92, 142, 92, 220, 5, 148, 70, 181]);
    assert_eq!(
        RecordKind::BitmapExtension.discriminator(),
        [80, 111, 124, 113, 55, 237, 18, 5]
    );
}

#[test]
fn lb_pair_fields_come_from_their_positions() {
    let p = decode_lb_pair(&sample_lb_pair()).unwrap();
    assert_eq!(p.parameters.base_factor, 10_000);
    assert_eq!(p.parameters.filter_period, 30);
    assert_eq!(p.parameters.decay_period, 600);
    assert_eq!(p.parameters.reduction_factor, 5_000);
    assert_eq!(p.parameters.variable_fee_control, 40_000);
    assert_eq!(p.parameters.max_volatility_accumulator, 350_000);
    assert_eq!(p.parameters.min_bin_id, -43_690);
    assert_eq!(p.parameters.max_bin_id, 43_690);
    assert_eq!(p.parameters.protocol_share, 500);
    assert_eq!(p.parameters.padding, [1, 2, 3, 4, 5, 6]);
    assert_eq!(p.v_parameters.volatility_accumulator, 77);
    assert_eq!(p.v_parameters.volatility_reference, 78);
    assert_eq!(p.v_parameters.index_reference, -79);
    assert_eq!(p.v_parameters.padding, [9, 8, 7, 6]);
    assert_eq!(p.v_parameters.last_update_timestamp, -1_700_000_000);
    assert_eq!(p.v_parameters.padding_1, [8; 8]);
    assert_eq!(p.bump_seed, [254]);
    assert_eq!(p.bin_step_seed, [10, 0]);
    assert_eq!(p.pair_type, 3);
    assert_eq!(p.active_id, -7_001);
    assert_eq!(p.bin_step, 10);
    assert_eq!(p.status, 1);
    assert_eq!(p.require_base_factor_seed, 2);
    assert_eq!(p.base_factor_seed, [16, 39]);
    assert_eq!(p.activation_type, 4);
    assert_eq!(p.padding_0, 5);
    assert_eq!(p.token_x_mint, Address::new([11; 32]));
    assert_eq!(p.token_y_mint, Address::new([12; 32]));
    assert_eq!(p.reserve_x, Address::new([13; 32]));
    assert_eq!(p.reserve_y, Address::new([14; 32]));
    assert_eq!(p.protocol_fee.amount_x, 111);
    assert_eq!(p.protocol_fee.amount_y, 222);
    assert_eq!(p.padding_1, [15; 32]);
    for r in 0..2usize {
        let tag = 20 + 10 * r as u8;
        let info = &p.reward_infos[r];
        assert_eq!(info.mint, Address::new([tag; 32]));
        assert_eq!(info.vault, Address::new([tag + 1; 32]));
        assert_eq!(info.funder, Address::new([tag + 2; 32]));
        assert_eq!(info.reward_duration, 1_000 + r as u64);
        assert_eq!(info.reward_duration_end, 2_000 + r as u64);
        assert_eq!(info.reward_rate, (u64::MAX as u128) * 3 + r as u128);
        assert_eq!(info.last_update_time, 3_000 + r as u64);
        assert_eq!(info.cumulative_seconds_with_empty_liquidity_reward, 4_000 + r as u64);
    }
    assert_eq!(p.oracle, Address::new([16; 32]));
    for w in 0..16u64 {
        assert_eq!(p.bin_array_bitmap[w as usize], w * 0x0101_0101_0101_0101);
    }
    assert_eq!(p.last_updated_at, 1_700_000_123);
    assert_eq!(p.padding_2, [17; 32]);
    assert_eq!(p.pre_activation_swap_address, Address::new([18; 32]));
    assert_eq!(p.base_key, Address::new([19; 32]));
    assert_eq!(p.activation_point, 5_000);
    assert_eq!(p.pre_activation_duration, 6_000);
    assert_eq!(p.padding_3, [7; 8]);
    assert_eq!(p.padding_4, 7_000);
    assert_eq!(p.creator, Address::new([21; 32]));
    assert_eq!(p.reserved, [22; 24]);
}

#[test]
fn wide_accumulators_keep_every_bit() {
    let mut b = sample_lb_pair();
    put(&mut b, 264 + 112, &u128::MAX.to_le_bytes());
    put(&mut b, 408 + 112, &(1u128 << 127).to_le_bytes());
    let p = decode_lb_pair(&b).unwrap();
    assert_eq!(p.reward_infos[0].reward_rate, u128::MAX);
    assert_eq!(p.reward_infos[1].reward_rate, 1u128 << 127);
}

#[test]
fn canonical_and_raw_readings_give_the_same_pool() {
    let b = sample_lb_pair();
    let canonical = decode_lb_pair_canonical(&b).unwrap();
    let raw = decode_lb_pair_raw(&b).unwrap();
    assert_eq!(canonical, raw);
    assert_eq!(decode_lb_pair(&b).unwrap(), raw);
}

#[test]
fn canonical_reading_wants_the_discriminator() {
    let mut b = sample_lb_pair();
    b[7] ^= 1;
    assert_eq!(decode_lb_pair_canonical(&b), Err(DecodeError::DiscriminatorMismatch));
    assert_eq!(check_canonical(RecordKind::LbPair, &b), Err(DecodeError::DiscriminatorMismatch));
    let mut c = sample_lb_pair();
    c[0] = 0;
    assert_eq!(decode_lb_pair_canonical(&c), Err(DecodeError::DiscriminatorMismatch));
}

#[test]
fn raw_reading_ignores_the_discriminator() {
    let good = sample_lb_pair();
    let mut b = good.clone();
    put(&mut b, 0, &[0xde, 0xad, 0xbe, 0xef, 0, 1, 2, 3]);
    assert_eq!(check_raw(RecordKind::LbPair, &b), Ok(()));
    assert_eq!(check_resilient(RecordKind::LbPair, &b), Ok(()));
    let raw = decode_lb_pair_raw(&b).unwrap();
    assert_eq!(raw, decode_lb_pair_raw(&good).unwrap());
    assert_eq!(decode_lb_pair(&b).unwrap(), raw);
}

#[test]
fn a_pool_of_any_other_length_is_rejected() {
    let good = sample_lb_pair();
    for len in [0usize, 1, 7, 8, 895, 896, 903, 905, 1_000, 1_576, 10_136] {
        let mut b = good.clone();
        b.resize(len, 0);
        assert_eq!(decode_lb_pair(&b), Err(DecodeError::LengthMismatch));
        assert_eq!(decode_lb_pair_raw(&b), Err(DecodeError::LengthMismatch));
        assert_eq!(decode_lb_pair_canonical(&b), Err(DecodeError::LengthMismatch));
        assert_eq!(check_raw(RecordKind::LbPair, &b), Err(DecodeError::LengthMismatch));
        assert_eq!(check_resilient(RecordKind::LbPair, &b), Err(DecodeError::LengthMismatch));
    }
}

#[test]
fn length_is_checked_before_the_discriminator() {
    let mut b = sample_lb_pair();
    b[0] = 0;
    b.push(0);
    assert_eq!(decode_lb_pair_canonical(&b), Err(DecodeError::LengthMismatch));
}

#[test]
fn bin_array_fields_come_from_their_positions() {
    let a = decode_bin_array(&sample_bin_array()).unwrap();
    assert_eq!(a.index, -3);
    assert_eq!(a.version, 1);
    assert_eq!(a.padding, [1, 2, 3, 4, 5, 6, 7]);
    assert_eq!(a.lb_pair, Address::new([33; 32]));
    for i in 0..70usize {
        let n = i as u128;
        let bin = &a.bins[i];
        assert_eq!(bin.amount_x, 100 + i as u64);
        assert_eq!(bin.amount_y, 200 + i as u64);
        assert_eq!(bin.price, (1u128 << 64) + n);
        assert_eq!(bin.liquidity_supply, (2u128 << 64) + n);
        assert_eq!(bin.reward_per_token_stored, [(3u128 << 64) + n, (4u128 << 64) + n]);
        assert_eq!(bin.fee_amount_x_per_token_stored, (5u128 << 64) + n);
        assert_eq!(bin.fee_amount_y_per_token_stored, (6u128 << 64) + n);
        assert_eq!(bin.amount_x_in, (7u128 << 64) + n);
        assert_eq!(bin.amount_y_in, u128::MAX - n);
    }
}

#[test]
fn bin_array_readings_agree_and_check_length() {
    let b = sample_bin_array();
    assert_eq!(decode_bin_array_canonical(&b).unwrap(), decode_bin_array_raw(&b).unwrap());
    let mut other = b.clone();
    other[3] = 0;
    assert_eq!(decode_bin_array_canonical(&other), Err(DecodeError::DiscriminatorMismatch));
    assert_eq!(decode_bin_array(&other).unwrap(), decode_bin_array_raw(&b).unwrap());
    for len in [0usize, 10_135, 10_137, 904] {
        let mut c = b.clone();
        c.resize(len, 0);
        assert_eq!(decode_bin_array(&c), Err(DecodeError::LengthMismatch));
        assert_eq!(decode_bin_array_raw(&c), Err(DecodeError::LengthMismatch));
        assert_eq!(decode_bin_array_canonical(&c), Err(DecodeError::LengthMismatch));
    }
}

#[test]
fn bitmap_extension_fields_come_from_their_positions() {
    let x = decode_bitmap_extension(&sample_bitmap_extension()).unwrap();
    assert_eq!(x.lb_pair, Address::new([44; 32]));
    for row in 0..12u64 {
        for word in 0..8u64 {
            assert_eq!(
                x.positive_bin_array_bitmap[row as usize][word as usize],
                1_000 * row + word
            );
            assert_eq!(
                x.negative_bin_array_bitmap[row as usize][word as usize],
                u64::MAX - 1_000 * row - word
            );
        }
    }
}

#[test]
fn bitmap_extension_readings_agree_and_check_length() {
    let b = sample_bitmap_extension();
    assert_eq!(
        decode_bitmap_extension_canonical(&b).unwrap(),
        decode_bitmap_extension_raw(&b).unwrap()
    );
    let mut other = b.clone();
    other[0] = 0;
    assert_eq!(
        decode_bitmap_extension_canonical(&other),
        Err(DecodeError::DiscriminatorMismatch)
    );
    assert_eq!(
        decode_bitmap_extension(&other).unwrap(),
        decode_bitmap_extension_raw(&b).unwrap()
    );
    for len in [0usize, 8, 1_568, 1_575, 1_577] {
        let mut c = b.clone();
        c.resize(len, 0);
        assert_eq!(decode_bitmap_extension(&c), Err(DecodeError::LengthMismatch));
        assert_eq!(decode_bitmap_extension_raw(&c), Err(DecodeError::LengthMismatch));
        assert_eq!(decode_bitmap_extension_canonical(&c), Err(DecodeError::LengthMismatch));
    }
}

#[test]
fn an_absent_bitmap_extension_is_no_error() {
    assert_eq!(decode_optional_bitmap_extension(None), Ok(None));
    let b = sample_bitmap_extension();
    let present = decode_optional_bitmap_extension(Some(&b)).unwrap();
    assert_eq!(present, Some(decode_bitmap_extension(&b).unwrap()));
    assert_eq!(
        decode_optional_bitmap_extension(Some(&b[..100])),
        Err(DecodeError::LengthMismatch)
    );
    assert_eq!(decode_optional_bitmap_extension(Some(&[])), Err(DecodeError::LengthMismatch));
}

#[test]
fn records_decode_by_kind() {
    let pool = sample_lb_pair();
    let array = sample_bin_array();
    let extension = sample_bitmap_extension();
    assert_eq!(
        decode_record(RecordKind::LbPair, &pool),
        Ok(Record::LbPair(decode_lb_pair(&pool).unwrap()))
    );
    assert_eq!(
        decode_record(RecordKind::BinArray, &array),
        Ok(Record::BinArray(decode_bin_array(&array).unwrap()))
    );
    assert_eq!(
        decode_record(RecordKind::BitmapExtension, &extension),
        Ok(Record::BitmapExtension(decode_bitmap_extension(&extension).unwrap()))
    );
    assert_eq!(decode_record(RecordKind::BinArray, &pool), Err(DecodeError::LengthMismatch));
    assert_eq!(decode_record(RecordKind::LbPair, &extension), Err(DecodeError::LengthMismatch));
    assert_eq!(
        decode_record(RecordKind::BitmapExtension, &array),
        Err(DecodeError::LengthMismatch)
    );
}

#[test]
fn bin_arrays_are_paired_with_their_addresses() {
    let keys = vec![Address::new([1; 32]), Address::new([2; 32])];
    let mut second = sample_bin_array();
    put(&mut second, 8, &4i64.to_le_bytes());
    let accounts = vec![Some(sample_bin_array()), Some(second.clone())];
    let pairs = decode_bin_arrays(&keys, &accounts).unwrap();
    assert_eq!(pairs.len(), 2);
    assert_eq!(pairs[0].0, keys[0]);
    assert_eq!(pairs[1].0, keys[1]);
    assert_eq!(pairs[0].1, decode_bin_array(&sample_bin_array()).unwrap());
    assert_eq!(pairs[1].1.index, 4);
    assert_eq!(decode_bin_arrays(&Vec::new(), &Vec::new()), Ok(Vec::new()));
}

#[test]
fn a_missing_or_malformed_bin_array_ends_the_gathering() {
    let keys = vec![Address::new([1; 32]), Address::new([2; 32]), Address::new([3; 32])];
    let good = sample_bin_array();
    let missing = vec![Some(good.clone()), None, Some(good.clone())];
    assert_eq!(decode_bin_arrays(&keys, &missing), Err(BinArraysError::Missing { position: 1 }));
    let short = vec![Some(good.clone()), Some(good.clone()), Some(vec![0u8; 10])];
    assert_eq!(
        decode_bin_arrays(&keys, &short),
        Err(BinArraysError::Malformed { position: 2, error: DecodeError::LengthMismatch })
    );
    let both = vec![Some(vec![0u8; 10]), None, None];
    assert_eq!(
        decode_bin_arrays(&keys, &both),
        Err(BinArraysError::Malformed { position: 0, error: DecodeError::LengthMismatch })
    );
}

#[test]
fn every_byte_after_the_discriminator_shows_in_the_pool() {
    let base = sample_lb_pair();
    let decoded = decode_lb_pair(&base).unwrap();
    for at in 8..LB_PAIR_LEN {
        let mut other = base.clone();
        other[at] ^= 0x80;
        assert_ne!(decode_lb_pair(&other).unwrap(), decoded);
    }
    for at in 0..8 {
        let mut other = base.clone();
        other[at] ^= 0x80;
        assert_eq!(decode_lb_pair(&other).unwrap(), decoded);
    }
}

#[test]
fn every_byte_after_the_discriminator_shows_in_the_bitmap_extension() {
    let base = sample_bitmap_extension();
    let decoded = decode_bitmap_extension(&base).unwrap();
    for at in 8..BITMAP_EXTENSION_LEN {
        let mut other = base.clone();
        other[at] ^= 1;
        assert_ne!(decode_bitmap_extension(&other).unwrap(), decoded);
    }
}

#[test]
fn every_byte_after_the_discriminator_shows_in_the_bin_array() {
    let base = sample_bin_array();
    let decoded = decode_bin_array(&base).unwrap();
    let sample = (8..BIN_ARRAY_LEN).step_by(7);
    for at in sample.chain(8..200).chain(BIN_ARRAY_LEN - 150..BIN_ARRAY_LEN) {
        let mut other = base.clone();
        other[at] ^= 0x10;
        assert_ne!(decode_bin_array(&other).unwrap(), decoded);
    }
}
