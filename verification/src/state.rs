//! The records this library reads from the ledger, each with its view: the
//! same record as plain mathematical values.

use crate::address::Address;
use vstd::prelude::*;

verus! {

/// Number of bins in one bin array.
pub const MAX_BIN_PER_ARRAY: usize = 70;

/// Number of rewards a pool and each of its bins account for.
pub const NUM_REWARDS: usize = 2;

/// Number of 512-bit rows on each side of a bitmap extension.
pub const EXTENSION_BITMAP_ROWS: usize = 12;

/// Fee parameters fixed when the pool is configured.
#[derive(Clone, Copy, Debug, PartialEq, Eq)]
pub struct StaticParameters {
    pub base_factor: u16,
    pub filter_period: u16,
    pub decay_period: u16,
    pub reduction_factor: u16,
    pub variable_fee_control: u32,
    pub max_volatility_accumulator: u32,
    pub min_bin_id: i32,
    pub max_bin_id: i32,
    pub protocol_share: u16,
    pub padding: [u8; 6],
}

/// What a [`StaticParameters`] holds, as plain values.
pub struct StaticParametersView {
    pub base_factor: int,
    pub filter_period: int,
    pub decay_period: int,
    pub reduction_factor: int,
    pub variable_fee_control: int,
    pub max_volatility_accumulator: int,
    pub min_bin_id: int,
    pub max_bin_id: int,
    pub protocol_share: int,
    pub padding: Seq<u8>,
}

impl View for StaticParameters {
    type V = StaticParametersView;

    open spec fn view(&self) -> StaticParametersView {
        StaticParametersView {
            base_factor: self.base_factor as int,
            filter_period: self.filter_period as int,
            decay_period: self.decay_period as int,
            reduction_factor: self.reduction_factor as int,
            variable_fee_control: self.variable_fee_control as int,
            max_volatility_accumulator: self.max_volatility_accumulator as int,
            min_bin_id: self.min_bin_id as int,
            max_bin_id: self.max_bin_id as int,
            protocol_share: self.protocol_share as int,
            padding: self.padding@,
        }
    }
}

/// Fee parameters that follow the pool's volatility.
#[derive(Clone, Copy, Debug, PartialEq, Eq)]
pub struct VariableParameters {
    pub volatility_accumulator: u32,
    pub volatility_reference: u32,
    pub index_reference: i32,
    pub padding: [u8; 4],
    pub last_update_timestamp: i64,
    pub padding_1: [u8; 8],
}

/// What a [`VariableParameters`] holds, as plain values.
pub struct VariableParametersView {
    pub volatility_accumulator: int,
    pub volatility_reference: int,
    pub index_reference: int,
    pub padding: Seq<u8>,
    pub last_update_timestamp: int,
    pub padding_1: Seq<u8>,
}

impl View for VariableParameters {
    type V = VariableParametersView;

    open spec fn view(&self) -> VariableParametersView {
        VariableParametersView {
            volatility_accumulator: self.volatility_accumulator as int,
            volatility_reference: self.volatility_reference as int,
            index_reference: self.index_reference as int,
            padding: self.padding@,
            last_update_timestamp: self.last_update_timestamp as int,
            padding_1: self.padding_1@,
        }
    }
}

/// Protocol fees accrued and not yet claimed.
#[derive(Clone, Copy, Debug, PartialEq, Eq)]
pub struct ProtocolFee {
    pub amount_x: u64,
    pub amount_y: u64,
}

/// What a [`ProtocolFee`] holds, as plain values.
pub struct ProtocolFeeView {
    pub amount_x: int,
    pub amount_y: int,
}

impl View for ProtocolFee {
    type V = ProtocolFeeView;

    open spec fn view(&self) -> ProtocolFeeView {
        ProtocolFeeView {
            amount_x: self.amount_x as int,
            amount_y: self.amount_y as int,
        }
    }
}

/// One reward stream of a pool.
#[derive(Clone, Copy, Debug, PartialEq, Eq)]
pub struct RewardInfo {
    pub mint: Address,
    pub vault: Address,
    pub funder: Address,
    pub reward_duration: u64,
    pub reward_duration_end: u64,
    pub reward_rate: u128,
    pub last_update_time: u64,
    pub cumulative_seconds_with_empty_liquidity_reward: u64,
}

/// What a [`RewardInfo`] holds, as plain values.
pub struct RewardInfoView {
    pub mint: Seq<u8>,
    pub vault: Seq<u8>,
    pub funder: Seq<u8>,
    pub reward_duration: int,
    pub reward_duration_end: int,
    pub reward_rate: int,
    pub last_update_time: int,
    pub cumulative_seconds_with_empty_liquidity_reward: int,
}

impl View for RewardInfo {
    type V = RewardInfoView;

    open spec fn view(&self) -> RewardInfoView {
        RewardInfoView {
            mint: self.mint@,
            vault: self.vault@,
            funder: self.funder@,
            reward_duration: self.reward_duration as int,
            reward_duration_end: self.reward_duration_end as int,
            reward_rate: self.reward_rate as int,
            last_update_time: self.last_update_time as int,
            cumulative_seconds_with_empty_liquidity_reward: self
                .cumulative_seconds_with_empty_liquidity_reward as int,
        }
    }
}

/// A pool: one token pair with its bins' parameters.
#[derive(Clone, Debug, PartialEq, Eq)]
pub struct LbPair {
    pub parameters: StaticParameters,
    pub v_parameters: VariableParameters,
    pub bump_seed: [u8; 1],
    pub bin_step_seed: [u8; 2],
    pub pair_type: u8,
    pub active_id: i32,
    pub bin_step: u16,
    pub status: u8,
    pub require_base_factor_seed: u8,
    pub base_factor_seed: [u8; 2],
    pub activation_type: u8,
    pub padding_0: u8,
    pub token_x_mint: Address,
    pub token_y_mint: Address,
    pub reserve_x: Address,
    pub reserve_y: Address,
    pub protocol_fee: ProtocolFee,
    pub padding_1: [u8; 32],
    pub reward_infos: [RewardInfo; 2],
    pub oracle: Address,
    pub bin_array_bitmap: [u64; 16],
    pub last_updated_at: i64,
    pub padding_2: [u8; 32],
    pub pre_activation_swap_address: Address,
    pub base_key: Address,
    pub activation_point: u64,
    pub pre_activation_duration: u64,
    pub padding_3: [u8; 8],
    pub padding_4: u64,
    pub creator: Address,
    pub reserved: [u8; 24],
}

/// What a [`LbPair`] holds, as plain values.
pub struct LbPairView {
    pub parameters: StaticParametersView,
    pub v_parameters: VariableParametersView,
    pub bump_seed: Seq<u8>,
    pub bin_step_seed: Seq<u8>,
    pub pair_type: int,
    pub active_id: int,
    pub bin_step: int,
    pub status: int,
    pub require_base_factor_seed: int,
    pub base_factor_seed: Seq<u8>,
    pub activation_type: int,
    pub padding_0: int,
    pub token_x_mint: Seq<u8>,
    pub token_y_mint: Seq<u8>,
    pub reserve_x: Seq<u8>,
    pub reserve_y: Seq<u8>,
    pub protocol_fee: ProtocolFeeView,
    pub padding_1: Seq<u8>,
    pub reward_infos: Seq<RewardInfoView>,
    pub oracle: Seq<u8>,
    pub bin_array_bitmap: Seq<u64>,
    pub last_updated_at: int,
    pub padding_2: Seq<u8>,
    pub pre_activation_swap_address: Seq<u8>,
    pub base_key: Seq<u8>,
    pub activation_point: int,
    pub pre_activation_duration: int,
    pub padding_3: Seq<u8>,
    pub padding_4: int,
    pub creator: Seq<u8>,
    pub reserved: Seq<u8>,
}

impl View for LbPair {
    type V = LbPairView;

    open spec fn view(&self) -> LbPairView {
        LbPairView {
            parameters: self.parameters@,
            v_parameters: self.v_parameters@,
            bump_seed: self.bump_seed@,
            bin_step_seed: self.bin_step_seed@,
            pair_type: self.pair_type as int,
            active_id: self.active_id as int,
            bin_step: self.bin_step as int,
            status: self.status as int,
            require_base_factor_seed: self.require_base_factor_seed as int,
            base_factor_seed: self.base_factor_seed@,
            activation_type: self.activation_type as int,
            padding_0: self.padding_0 as int,
            token_x_mint: self.token_x_mint@,
            token_y_mint: self.token_y_mint@,
            reserve_x: self.reserve_x@,
            reserve_y: self.reserve_y@,
            protocol_fee: self.protocol_fee@,
            padding_1: self.padding_1@,
            reward_infos: Seq::new(2, |i: int| self.reward_infos@[i]@),
            oracle: self.oracle@,
            bin_array_bitmap: self.bin_array_bitmap@,
            last_updated_at: self.last_updated_at as int,
            padding_2: self.padding_2@,
            pre_activation_swap_address: self.pre_activation_swap_address@,
            base_key: self.base_key@,
            activation_point: self.activation_point as int,
            pre_activation_duration: self.pre_activation_duration as int,
            padding_3: self.padding_3@,
            padding_4: self.padding_4 as int,
            creator: self.creator@,
            reserved: self.reserved@,
        }
    }
}

/// Liquidity and accounting of one price level.
#[derive(Clone, Copy, Debug, PartialEq, Eq)]
pub struct Bin {
    pub amount_x: u64,
    pub amount_y: u64,
    pub price: u128,
    pub liquidity_supply: u128,
    pub reward_per_token_stored: [u128; 2],
    pub fee_amount_x_per_token_stored: u128,
    pub fee_amount_y_per_token_stored: u128,
    pub amount_x_in: u128,
    pub amount_y_in: u128,
}

/// What a [`Bin`] holds, as plain values.
pub struct BinView {
    pub amount_x: int,
    pub amount_y: int,
    pub price: int,
    pub liquidity_supply: int,
    pub reward_per_token_stored: Seq<int>,
    pub fee_amount_x_per_token_stored: int,
    pub fee_amount_y_per_token_stored: int,
    pub amount_x_in: int,
    pub amount_y_in: int,
}

impl View for Bin {
    type V = BinView;

    open spec fn view(&self) -> BinView {
        BinView {
            amount_x: self.amount_x as int,
            amount_y: self.amount_y as int,
            price: self.price as int,
            liquidity_supply: self.liquidity_supply as int,
            reward_per_token_stored: Seq::new(2, |i: int| self.reward_per_token_stored@[i] as int),
            fee_amount_x_per_token_stored: self.fee_amount_x_per_token_stored as int,
            fee_amount_y_per_token_stored: self.fee_amount_y_per_token_stored as int,
            amount_x_in: self.amount_x_in as int,
            amount_y_in: self.amount_y_in as int,
        }
    }
}

/// A fixed run of bins, found by its index among the pool's bin arrays.
#[derive(Clone, Debug, PartialEq, Eq)]
pub struct BinArray {
    pub index: i64,
    pub version: u8,
    pub padding: [u8; 7],
    pub lb_pair: Address,
    pub bins: [Bin; 70],
}

/// What a [`BinArray`] holds, as plain values.
pub struct BinArrayView {
    pub index: int,
    pub version: int,
    pub padding: Seq<u8>,
    pub lb_pair: Seq<u8>,
    pub bins: Seq<BinView>,
}

impl View for BinArray {
    type V = BinArrayView;

    open spec fn view(&self) -> BinArrayView {
        BinArrayView {
            index: self.index as int,
            version: self.version as int,
            padding: self.padding@,
            lb_pair: self.lb_pair@,
            bins: Seq::new(70, |i: int| self.bins@[i]@),
        }
    }
}

/// Marks which bin arrays exist beyond the reach of the pool's own bitmap:
/// twelve rows of 512 bits for each side.
#[derive(Clone, Debug, PartialEq, Eq)]
pub struct BinArrayBitmapExtension {
    pub lb_pair: Address,
    pub positive_bin_array_bitmap: [[u64; 8]; 12],
    pub negative_bin_array_bitmap: [[u64; 8]; 12],
}

/// What a [`BinArrayBitmapExtension`] holds, as plain values.
pub struct BinArrayBitmapExtensionView {
    pub lb_pair: Seq<u8>,
    pub positive_bin_array_bitmap: Seq<Seq<u64>>,
    pub negative_bin_array_bitmap: Seq<Seq<u64>>,
}

impl View for BinArrayBitmapExtension {
    type V = BinArrayBitmapExtensionView;

    open spec fn view(&self) -> BinArrayBitmapExtensionView {
        BinArrayBitmapExtensionView {
            lb_pair: self.lb_pair@,
            positive_bin_array_bitmap: Seq::new(12, |i: int| self.positive_bin_array_bitmap@[i]@),
            negative_bin_array_bitmap: Seq::new(12, |i: int| self.negative_bin_array_bitmap@[i]@),
        }
    }
}

} // verus!
