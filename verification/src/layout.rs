//! Where each field of a record lies in the account's bytes.
//!
//! Every record starts with an eight-byte discriminator; its fields follow
//! without gaps, integers little-endian.

use crate::address::Address;
use crate::bytes::{
    i32_at, i64_at, lemma_i32_at_is_lossless, lemma_i64_at_is_lossless,
    lemma_subrange_is_lossless, lemma_u128_at_is_lossless, lemma_u16_at_is_lossless,
    lemma_u32_at_is_lossless, lemma_u64_at_bounds, lemma_u64_at_is_lossless, read_bytes,
    read_i32, read_i64, read_u128, read_u16, read_u32, read_u64, read_u8, same_bytes, u128_at,
    u16_at, u32_at, u64_at,
};
use crate::state::{
    Bin, BinArray, BinArrayBitmapExtension, BinArrayBitmapExtensionView, BinArrayView, BinView,
    LbPair, LbPairView, ProtocolFee, ProtocolFeeView, RewardInfo, RewardInfoView,
    StaticParameters, StaticParametersView, VariableParameters, VariableParametersView,
};
use vstd::prelude::*;

verus! {

/// Length of every record's discriminator.
pub const DISCRIMINATOR_LEN: usize = 8;

/// Length of a pool account.
pub const LB_PAIR_LEN: usize = 904;

/// Length of a bin array account.
pub const BIN_ARRAY_LEN: usize = 10136;

/// Length of a bitmap extension account.
pub const BITMAP_EXTENSION_LEN: usize = 1576;

/// Length of one bin inside a bin array.
pub const BIN_LEN: usize = 144;

/// The `n` unsigned 64-bit words that start at `off`.
pub open spec fn words_at(b: Seq<u8>, off: int, n: nat) -> Seq<u64> {
    Seq::new(n, |i: int| u64_at(b, off + 8 * i) as u64)
}

/// Reads the `N` unsigned 64-bit words that start at `off`.
pub(crate) fn read_words<const N: usize>(b: &[u8], off: usize) -> (r: [u64; N])
    requires
        off + 8 * N <= b.len(),
    ensures
        r@ == words_at(b@, off as int, N as nat),
{
    let mut out: [u64; N] = [0u64; N];
    let mut i: usize = 0;
    while i < N
        invariant
            i <= N,
            off + 8 * N <= b.len(),
            forall|k: int| 0 <= k < i ==> out@[k] == u64_at(b@, off + 8 * k),
        decreases N - i,
    {
        out[i] = read_u64(b, off + 8 * i);
        i = i + 1;
    }
    assert(out@ =~= words_at(b@, off as int, N as nat));
    out
}

/// The static parameters stored in the 32 bytes that start at `off`.
pub open spec fn static_parameters_at(b: Seq<u8>, off: int) -> StaticParametersView {
    StaticParametersView {
        base_factor: u16_at(b, off),
        filter_period: u16_at(b, off + 2),
        decay_period: u16_at(b, off + 4),
        reduction_factor: u16_at(b, off + 6),
        variable_fee_control: u32_at(b, off + 8),
        max_volatility_accumulator: u32_at(b, off + 12),
        min_bin_id: i32_at(b, off + 16),
        max_bin_id: i32_at(b, off + 20),
        protocol_share: u16_at(b, off + 24),
        padding: b.subrange(off + 26, off + 32),
    }
}

/// Reads the static parameters that start at `off`.
pub(crate) fn read_static_parameters(b: &[u8], off: usize) -> (r: StaticParameters)
    requires
        off + 32 <= b.len(),
    ensures
        r@ == static_parameters_at(b@, off as int),
{
    let r = StaticParameters {
        base_factor: read_u16(b, off),
        filter_period: read_u16(b, off + 2),
        decay_period: read_u16(b, off + 4),
        reduction_factor: read_u16(b, off + 6),
        variable_fee_control: read_u32(b, off + 8),
        max_volatility_accumulator: read_u32(b, off + 12),
        min_bin_id: read_i32(b, off + 16),
        max_bin_id: read_i32(b, off + 20),
        protocol_share: read_u16(b, off + 24),
        padding: read_bytes::<6>(b, off + 26),
    };
    r
}

/// The variable parameters stored in the 32 bytes that start at `off`.
pub open spec fn variable_parameters_at(b: Seq<u8>, off: int) -> VariableParametersView {
    VariableParametersView {
        volatility_accumulator: u32_at(b, off),
        volatility_reference: u32_at(b, off + 4),
        index_reference: i32_at(b, off + 8),
        padding: b.subrange(off + 12, off + 16),
        last_update_timestamp: i64_at(b, off + 16),
        padding_1: b.subrange(off + 24, off + 32),
    }
}

/// Reads the variable parameters that start at `off`.
pub(crate) fn read_variable_parameters(b: &[u8], off: usize) -> (r: VariableParameters)
    requires
        off + 32 <= b.len(),
    ensures
        r@ == variable_parameters_at(b@, off as int),
{
    let r = VariableParameters {
        volatility_accumulator: read_u32(b, off),
        volatility_reference: read_u32(b, off + 4),
        index_reference: read_i32(b, off + 8),
        padding: read_bytes::<4>(b, off + 12),
        last_update_timestamp: read_i64(b, off + 16),
        padding_1: read_bytes::<8>(b, off + 24),
    };
    r
}

/// The protocol fee stored in the 16 bytes that start at `off`.
pub open spec fn protocol_fee_at(b: Seq<u8>, off: int) -> ProtocolFeeView {
    ProtocolFeeView {
        amount_x: u64_at(b, off),
        amount_y: u64_at(b, off + 8),
    }
}

/// Reads the protocol fee that starts at `off`.
pub(crate) fn read_protocol_fee(b: &[u8], off: usize) -> (r: ProtocolFee)
    requires
        off + 16 <= b.len(),
    ensures
        r@ == protocol_fee_at(b@, off as int),
{
    let r = ProtocolFee {
        amount_x: read_u64(b, off),
        amount_y: read_u64(b, off + 8),
    };
    r
}

/// The reward info stored in the 144 bytes that start at `off`.
pub open spec fn reward_info_at(b: Seq<u8>, off: int) -> RewardInfoView {
    RewardInfoView {
        mint: b.subrange(off, off + 32),
        vault: b.subrange(off + 32, off + 64),
        funder: b.subrange(off + 64, off + 96),
        reward_duration: u64_at(b, off + 96),
        reward_duration_end: u64_at(b, off + 104),
        reward_rate: u128_at(b, off + 112),
        last_update_time: u64_at(b, off + 128),
        cumulative_seconds_with_empty_liquidity_reward: u64_at(b, off + 136),
    }
}

/// Reads the reward info that starts at `off`.
pub(crate) fn read_reward_info(b: &[u8], off: usize) -> (r: RewardInfo)
    requires
        off + 144 <= b.len(),
    ensures
        r@ == reward_info_at(b@, off as int),
{
    let r = RewardInfo {
        mint: Address { bytes: read_bytes::<32>(b, off) },
        vault: Address { bytes: read_bytes::<32>(b, off + 32) },
        funder: Address { bytes: read_bytes::<32>(b, off + 64) },
        reward_duration: read_u64(b, off + 96),
        reward_duration_end: read_u64(b, off + 104),
        reward_rate: read_u128(b, off + 112),
        last_update_time: read_u64(b, off + 128),
        cumulative_seconds_with_empty_liquidity_reward: read_u64(b, off + 136),
    };
    r
}

/// The lb pair stored in the 896 bytes that start at `off`.
pub open spec fn lb_pair_at(b: Seq<u8>, off: int) -> LbPairView {
    LbPairView {
        parameters: static_parameters_at(b, off),
        v_parameters: variable_parameters_at(b, off + 32),
        bump_seed: b.subrange(off + 64, off + 65),
        bin_step_seed: b.subrange(off + 65, off + 67),
        pair_type: b[off + 67] as int,
        active_id: i32_at(b, off + 68),
        bin_step: u16_at(b, off + 72),
        status: b[off + 74] as int,
        require_base_factor_seed: b[off + 75] as int,
        base_factor_seed: b.subrange(off + 76, off + 78),
        activation_type: b[off + 78] as int,
        padding_0: b[off + 79] as int,
        token_x_mint: b.subrange(off + 80, off + 112),
        token_y_mint: b.subrange(off + 112, off + 144),
        reserve_x: b.subrange(off + 144, off + 176),
        reserve_y: b.subrange(off + 176, off + 208),
        protocol_fee: protocol_fee_at(b, off + 208),
        padding_1: b.subrange(off + 224, off + 256),
        reward_infos: Seq::new(2, |i: int| reward_info_at(b, off + 256 + 144 * i)),
        oracle: b.subrange(off + 544, off + 576),
        bin_array_bitmap: words_at(b, off + 576, 16),
        last_updated_at: i64_at(b, off + 704),
        padding_2: b.subrange(off + 712, off + 744),
        pre_activation_swap_address: b.subrange(off + 744, off + 776),
        base_key: b.subrange(off + 776, off + 808),
        activation_point: u64_at(b, off + 808),
        pre_activation_duration: u64_at(b, off + 816),
        padding_3: b.subrange(off + 824, off + 832),
        padding_4: u64_at(b, off + 832),
        creator: b.subrange(off + 840, off + 872),
        reserved: b.subrange(off + 872, off + 896),
    }
}

/// Reads the pool that starts at `off`.
pub(crate) fn read_lb_pair(b: &[u8], off: usize) -> (r: LbPair)
    requires
        off + 896 <= b.len(),
    ensures
        r@ == lb_pair_at(b@, off as int),
{
    let r = LbPair {
        parameters: read_static_parameters(b, off),
        v_parameters: read_variable_parameters(b, off + 32),
        bump_seed: read_bytes::<1>(b, off + 64),
        bin_step_seed: read_bytes::<2>(b, off + 65),
        pair_type: read_u8(b, off + 67),
        active_id: read_i32(b, off + 68),
        bin_step: read_u16(b, off + 72),
        status: read_u8(b, off + 74),
        require_base_factor_seed: read_u8(b, off + 75),
        base_factor_seed: read_bytes::<2>(b, off + 76),
        activation_type: read_u8(b, off + 78),
        padding_0: read_u8(b, off + 79),
        token_x_mint: Address { bytes: read_bytes::<32>(b, off + 80) },
        token_y_mint: Address { bytes: read_bytes::<32>(b, off + 112) },
        reserve_x: Address { bytes: read_bytes::<32>(b, off + 144) },
        reserve_y: Address { bytes: read_bytes::<32>(b, off + 176) },
        protocol_fee: read_protocol_fee(b, off + 208),
        padding_1: read_bytes::<32>(b, off + 224),
        reward_infos: [read_reward_info(b, off + 256), read_reward_info(b, off + 400)],
        oracle: Address { bytes: read_bytes::<32>(b, off + 544) },
        bin_array_bitmap: read_words::<16>(b, off + 576),
        last_updated_at: read_i64(b, off + 704),
        padding_2: read_bytes::<32>(b, off + 712),
        pre_activation_swap_address: Address { bytes: read_bytes::<32>(b, off + 744) },
        base_key: Address { bytes: read_bytes::<32>(b, off + 776) },
        activation_point: read_u64(b, off + 808),
        pre_activation_duration: read_u64(b, off + 816),
        padding_3: read_bytes::<8>(b, off + 824),
        padding_4: read_u64(b, off + 832),
        creator: Address { bytes: read_bytes::<32>(b, off + 840) },
        reserved: read_bytes::<24>(b, off + 872),
    };
    assert(r@.reward_infos =~= lb_pair_at(b@, off as int).reward_infos);
    r
}

/// The bin stored in the 144 bytes that start at `off`.
pub open spec fn bin_at(b: Seq<u8>, off: int) -> BinView {
    BinView {
        amount_x: u64_at(b, off),
        amount_y: u64_at(b, off + 8),
        price: u128_at(b, off + 16),
        liquidity_supply: u128_at(b, off + 32),
        reward_per_token_stored: Seq::new(2, |i: int| u128_at(b, off + 48 + 16 * i)),
        fee_amount_x_per_token_stored: u128_at(b, off + 80),
        fee_amount_y_per_token_stored: u128_at(b, off + 96),
        amount_x_in: u128_at(b, off + 112),
        amount_y_in: u128_at(b, off + 128),
    }
}

/// Reads the bin that starts at `off`.
pub(crate) fn read_bin(b: &[u8], off: usize) -> (r: Bin)
    requires
        off + 144 <= b.len(),
    ensures
        r@ == bin_at(b@, off as int),
{
    let r = Bin {
        amount_x: read_u64(b, off),
        amount_y: read_u64(b, off + 8),
        price: read_u128(b, off + 16),
        liquidity_supply: read_u128(b, off + 32),
        reward_per_token_stored: [read_u128(b, off + 48), read_u128(b, off + 64)],
        fee_amount_x_per_token_stored: read_u128(b, off + 80),
        fee_amount_y_per_token_stored: read_u128(b, off + 96),
        amount_x_in: read_u128(b, off + 112),
        amount_y_in: read_u128(b, off + 128),
    };
    assert(r@.reward_per_token_stored =~= bin_at(b@, off as int).reward_per_token_stored);
    r
}

/// The bin array stored in an account of `BIN_ARRAY_LEN` bytes.
pub open spec fn bin_array_at(b: Seq<u8>) -> BinArrayView {
    BinArrayView {
        index: i64_at(b, 8),
        version: b[16] as int,
        padding: b.subrange(17, 24),
        lb_pair: b.subrange(24, 56),
        bins: Seq::new(70, |i: int| bin_at(b, 56 + 144 * i)),
    }
}

/// Reads the bin array of a bin array account.
pub(crate) fn read_bin_array(b: &[u8]) -> (r: BinArray)
    requires
        b.len() == BIN_ARRAY_LEN,
    ensures
        r@ == bin_array_at(b@),
{
    let zero = Bin {
        amount_x: 0,
        amount_y: 0,
        price: 0,
        liquidity_supply: 0,
        reward_per_token_stored: [0u128, 0u128],
        fee_amount_x_per_token_stored: 0,
        fee_amount_y_per_token_stored: 0,
        amount_x_in: 0,
        amount_y_in: 0,
    };
    let mut bins: [Bin; 70] = [zero; 70];
    let mut i: usize = 0;
    while i < 70
        invariant
            i <= 70,
            b.len() == BIN_ARRAY_LEN,
            forall|k: int| 0 <= k < i ==> bins@[k]@ == bin_at(b@, 56 + 144 * k),
        decreases 70 - i,
    {
        bins[i] = read_bin(b, 56 + 144 * i);
        i = i + 1;
    }
    let r = BinArray {
        index: read_i64(b, 8),
        version: read_u8(b, 16),
        padding: read_bytes::<7>(b, 17),
        lb_pair: Address { bytes: read_bytes::<32>(b, 24) },
        bins,
    };
    assert(r@.bins =~= bin_array_at(b@).bins);
    r
}

/// The twelve rows of eight words that start at `off`.
pub open spec fn rows_at(b: Seq<u8>, off: int) -> Seq<Seq<u64>> {
    Seq::new(12, |i: int| words_at(b, off + 64 * i, 8))
}

/// Reads the twelve rows of eight words that start at `off`.
pub(crate) fn read_rows(b: &[u8], off: usize) -> (r: [[u64; 8]; 12])
    requires
        off + 768 <= b.len(),
    ensures
        Seq::new(12, |i: int| r@[i]@) == rows_at(b@, off as int),
{
    let mut rows: [[u64; 8]; 12] = [[0u64; 8]; 12];
    let mut i: usize = 0;
    while i < 12
        invariant
            i <= 12,
            off + 768 <= b.len(),
            forall|k: int| 0 <= k < i ==> rows@[k]@ == words_at(b@, off + 64 * k, 8),
        decreases 12 - i,
    {
        rows[i] = read_words::<8>(b, off + 64 * i);
        i = i + 1;
    }
    assert(Seq::new(12, |i: int| rows@[i]@) =~= rows_at(b@, off as int));
    rows
}

/// The bitmap extension stored in an account of `BITMAP_EXTENSION_LEN`
/// bytes.
pub open spec fn bitmap_extension_at(b: Seq<u8>) -> BinArrayBitmapExtensionView {
    BinArrayBitmapExtensionView {
        lb_pair: b.subrange(8, 40),
        positive_bin_array_bitmap: rows_at(b, 40),
        negative_bin_array_bitmap: rows_at(b, 808),
    }
}

/// Reads the bitmap extension of a bitmap extension account.
pub(crate) fn read_bitmap_extension(b: &[u8]) -> (r: BinArrayBitmapExtension)
    requires
        b.len() == BITMAP_EXTENSION_LEN,
    ensures
        r@ == bitmap_extension_at(b@),
{
    BinArrayBitmapExtension {
        lb_pair: Address { bytes: read_bytes::<32>(b, 8) },
        positive_bin_array_bitmap: read_rows(b, 40),
        negative_bin_array_bitmap: read_rows(b, 808),
    }
}

/// Two buffers that store the same words at `off` hold the same bytes
/// there.
pub proof fn lemma_words_at_is_lossless(a: Seq<u8>, b: Seq<u8>, off: int, n: nat)
    requires
        words_at(a, off, n) == words_at(b, off, n),
    ensures
        same_bytes(a, b, off, off + 8 * n),
{
    assert forall|i: int| off <= i < off + 8 * n implies a[i] == b[i] by {
        let k = (i - off) / 8;
        let x = u64_at(a, off + 8 * k);
        let y = u64_at(b, off + 8 * k);
        assert(0 <= k < n);
        assert(words_at(a, off, n)[k] == x as u64);
        assert(words_at(b, off, n)[k] == y as u64);
        assert(0 <= x < 0x1_0000_0000_0000_0000) by {
            lemma_u64_at_bounds(a, off + 8 * k);
        }
        assert(0 <= y < 0x1_0000_0000_0000_0000) by {
            lemma_u64_at_bounds(b, off + 8 * k);
        }
        assert(x == y);
        lemma_u64_at_is_lossless(a, b, off + 8 * k);
    }
}

/// Two buffers that store the same rows at `off` hold the same 768 bytes
/// there.
pub proof fn lemma_rows_at_is_lossless(a: Seq<u8>, b: Seq<u8>, off: int)
    requires
        rows_at(a, off) == rows_at(b, off),
    ensures
        same_bytes(a, b, off, off + 768),
{
    assert forall|i: int| off <= i < off + 768 implies a[i] == b[i] by {
        let r = (i - off) / 64;
        assert(0 <= r < 12);
        assert(rows_at(a, off)[r] == words_at(a, off + 64 * r, 8));
        assert(rows_at(b, off)[r] == words_at(b, off + 64 * r, 8));
        lemma_words_at_is_lossless(a, b, off + 64 * r, 8);
    }
}

/// Two buffers that store the same static parameters at `off` hold the same 32 bytes
/// there.
pub proof fn lemma_static_parameters_at_is_lossless(a: Seq<u8>, b: Seq<u8>, off: int)
    requires
        0 <= off,
        off + 32 <= a.len(),
        off + 32 <= b.len(),
        static_parameters_at(a, off) == static_parameters_at(b, off),
    ensures
        same_bytes(a, b, off, off + 32),
{
    let x = static_parameters_at(a, off);
    let y = static_parameters_at(b, off);
    lemma_u16_at_is_lossless(a, b, off);
    lemma_u16_at_is_lossless(a, b, off + 2);
    lemma_u16_at_is_lossless(a, b, off + 4);
    lemma_u16_at_is_lossless(a, b, off + 6);
    lemma_u32_at_is_lossless(a, b, off + 8);
    lemma_u32_at_is_lossless(a, b, off + 12);
    lemma_i32_at_is_lossless(a, b, off + 16);
    lemma_i32_at_is_lossless(a, b, off + 20);
    lemma_u16_at_is_lossless(a, b, off + 24);
    lemma_subrange_is_lossless(a, b, off + 26, off + 32);
}

/// Two buffers that store the same variable parameters at `off` hold the same 32 bytes
/// there.
pub proof fn lemma_variable_parameters_at_is_lossless(a: Seq<u8>, b: Seq<u8>, off: int)
    requires
        0 <= off,
        off + 32 <= a.len(),
        off + 32 <= b.len(),
        variable_parameters_at(a, off) == variable_parameters_at(b, off),
    ensures
        same_bytes(a, b, off, off + 32),
{
    let x = variable_parameters_at(a, off);
    let y = variable_parameters_at(b, off);
    lemma_u32_at_is_lossless(a, b, off);
    lemma_u32_at_is_lossless(a, b, off + 4);
    lemma_i32_at_is_lossless(a, b, off + 8);
    lemma_subrange_is_lossless(a, b, off + 12, off + 16);
    lemma_i64_at_is_lossless(a, b, off + 16);
    lemma_subrange_is_lossless(a, b, off + 24, off + 32);
}

/// Two buffers that store the same protocol fee at `off` hold the same 16 bytes
/// there.
pub proof fn lemma_protocol_fee_at_is_lossless(a: Seq<u8>, b: Seq<u8>, off: int)
    requires
        0 <= off,
        off + 16 <= a.len(),
        off + 16 <= b.len(),
        protocol_fee_at(a, off) == protocol_fee_at(b, off),
    ensures
        same_bytes(a, b, off, off + 16),
{
    let x = protocol_fee_at(a, off);
    let y = protocol_fee_at(b, off);
    lemma_u64_at_is_lossless(a, b, off);
    lemma_u64_at_is_lossless(a, b, off + 8);
}

/// Two buffers that store the same reward info at `off` hold the same 144 bytes
/// there.
pub proof fn lemma_reward_info_at_is_lossless(a: Seq<u8>, b: Seq<u8>, off: int)
    requires
        0 <= off,
        off + 144 <= a.len(),
        off + 144 <= b.len(),
        reward_info_at(a, off) == reward_info_at(b, off),
    ensures
        same_bytes(a, b, off, off + 144),
{
    let x = reward_info_at(a, off);
    let y = reward_info_at(b, off);
    lemma_subrange_is_lossless(a, b, off, off + 32);
    lemma_subrange_is_lossless(a, b, off + 32, off + 64);
    lemma_subrange_is_lossless(a, b, off + 64, off + 96);
    lemma_u64_at_is_lossless(a, b, off + 96);
    lemma_u64_at_is_lossless(a, b, off + 104);
    lemma_u128_at_is_lossless(a, b, off + 112);
    lemma_u64_at_is_lossless(a, b, off + 128);
    lemma_u64_at_is_lossless(a, b, off + 136);
}

/// Two buffers that store the same lb pair at `off` hold the same 896 bytes
/// there.
pub proof fn lemma_lb_pair_at_is_lossless(a: Seq<u8>, b: Seq<u8>, off: int)
    requires
        0 <= off,
        off + 896 <= a.len(),
        off + 896 <= b.len(),
        lb_pair_at(a, off) == lb_pair_at(b, off),
    ensures
        same_bytes(a, b, off, off + 896),
{
    let x = lb_pair_at(a, off);
    let y = lb_pair_at(b, off);
    lemma_static_parameters_at_is_lossless(a, b, off);
    lemma_variable_parameters_at_is_lossless(a, b, off + 32);
    lemma_subrange_is_lossless(a, b, off + 64, off + 65);
    lemma_subrange_is_lossless(a, b, off + 65, off + 67);
    assert(a[off + 67] == b[off + 67]);
    lemma_i32_at_is_lossless(a, b, off + 68);
    lemma_u16_at_is_lossless(a, b, off + 72);
    assert(a[off + 74] == b[off + 74]);
    assert(a[off + 75] == b[off + 75]);
    lemma_subrange_is_lossless(a, b, off + 76, off + 78);
    assert(a[off + 78] == b[off + 78]);
    assert(a[off + 79] == b[off + 79]);
    lemma_subrange_is_lossless(a, b, off + 80, off + 112);
    lemma_subrange_is_lossless(a, b, off + 112, off + 144);
    lemma_subrange_is_lossless(a, b, off + 144, off + 176);
    lemma_subrange_is_lossless(a, b, off + 176, off + 208);
    lemma_protocol_fee_at_is_lossless(a, b, off + 208);
    lemma_subrange_is_lossless(a, b, off + 224, off + 256);
    assert(x.reward_infos[0] == reward_info_at(a, off + 256));
    assert(x.reward_infos[1] == reward_info_at(a, off + 400));
    assert(y.reward_infos[0] == reward_info_at(b, off + 256));
    assert(y.reward_infos[1] == reward_info_at(b, off + 400));
    lemma_reward_info_at_is_lossless(a, b, off + 256);
    lemma_reward_info_at_is_lossless(a, b, off + 400);
    lemma_subrange_is_lossless(a, b, off + 544, off + 576);
    lemma_words_at_is_lossless(a, b, off + 576, 16);
    lemma_i64_at_is_lossless(a, b, off + 704);
    lemma_subrange_is_lossless(a, b, off + 712, off + 744);
    lemma_subrange_is_lossless(a, b, off + 744, off + 776);
    lemma_subrange_is_lossless(a, b, off + 776, off + 808);
    lemma_u64_at_is_lossless(a, b, off + 808);
    lemma_u64_at_is_lossless(a, b, off + 816);
    lemma_subrange_is_lossless(a, b, off + 824, off + 832);
    lemma_u64_at_is_lossless(a, b, off + 832);
    lemma_subrange_is_lossless(a, b, off + 840, off + 872);
    lemma_subrange_is_lossless(a, b, off + 872, off + 896);
}

/// Two buffers that store the same bin at `off` hold the same 144 bytes
/// there.
pub proof fn lemma_bin_at_is_lossless(a: Seq<u8>, b: Seq<u8>, off: int)
    requires
        0 <= off,
        off + 144 <= a.len(),
        off + 144 <= b.len(),
        bin_at(a, off) == bin_at(b, off),
    ensures
        same_bytes(a, b, off, off + 144),
{
    let x = bin_at(a, off);
    let y = bin_at(b, off);
    lemma_u64_at_is_lossless(a, b, off);
    lemma_u64_at_is_lossless(a, b, off + 8);
    lemma_u128_at_is_lossless(a, b, off + 16);
    lemma_u128_at_is_lossless(a, b, off + 32);
    assert(x.reward_per_token_stored[0] == u128_at(a, off + 48));
    assert(x.reward_per_token_stored[1] == u128_at(a, off + 64));
    assert(y.reward_per_token_stored[0] == u128_at(b, off + 48));
    assert(y.reward_per_token_stored[1] == u128_at(b, off + 64));
    lemma_u128_at_is_lossless(a, b, off + 48);
    lemma_u128_at_is_lossless(a, b, off + 64);
    lemma_u128_at_is_lossless(a, b, off + 80);
    lemma_u128_at_is_lossless(a, b, off + 96);
    lemma_u128_at_is_lossless(a, b, off + 112);
    lemma_u128_at_is_lossless(a, b, off + 128);
}


/// Two bin array accounts that store the same bin array hold the same bytes
/// after the discriminator.
pub proof fn lemma_bin_array_at_is_lossless(a: Seq<u8>, b: Seq<u8>)
    requires
        a.len() == BIN_ARRAY_LEN,
        b.len() == BIN_ARRAY_LEN,
        bin_array_at(a) == bin_array_at(b),
    ensures
        same_bytes(a, b, 8, BIN_ARRAY_LEN as int),
{
    lemma_i64_at_is_lossless(a, b, 8);
    assert(a[16] == b[16]);
    lemma_subrange_is_lossless(a, b, 17, 24);
    lemma_subrange_is_lossless(a, b, 24, 56);
    assert forall|i: int| 56 <= i < BIN_ARRAY_LEN implies a[i] == b[i] by {
        let k = (i - 56) / 144;
        assert(0 <= k < 70);
        assert(bin_array_at(a).bins[k] == bin_at(a, 56 + 144 * k));
        assert(bin_array_at(b).bins[k] == bin_at(b, 56 + 144 * k));
        lemma_bin_at_is_lossless(a, b, 56 + 144 * k);
    }
}

/// Two bitmap extension accounts that store the same bitmap extension hold
/// the same bytes after the discriminator.
pub proof fn lemma_bitmap_extension_at_is_lossless(a: Seq<u8>, b: Seq<u8>)
    requires
        a.len() == BITMAP_EXTENSION_LEN,
        b.len() == BITMAP_EXTENSION_LEN,
        bitmap_extension_at(a) == bitmap_extension_at(b),
    ensures
        same_bytes(a, b, 8, BITMAP_EXTENSION_LEN as int),
{
    lemma_subrange_is_lossless(a, b, 8, 40);
    lemma_rows_at_is_lossless(a, b, 40);
    lemma_rows_at_is_lossless(a, b, 808);
}

} // verus!
