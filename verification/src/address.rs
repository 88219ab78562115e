//! Account addresses, the fixed program addresses this library refers to,
//! and the addresses that are derived from a pool.

use crate::bytes::{array_to_vec, i64_le_bytes, write_i64};
use anchor_lang::solana_program::pubkey::Pubkey;
use vstd::prelude::*;

verus! {

/// A 32-byte account address.
#[derive(Clone, Copy, Debug, PartialEq, Eq, Hash)]
pub struct Address {
    pub bytes: [u8; 32],
}

impl View for Address {
    type V = Seq<u8>;

    open spec fn view(&self) -> Seq<u8> {
        self.bytes@
    }
}

/// Address of the liquidity-book program.
pub const PROGRAM_ID: [u8; 32] = [
    4, 233, 225, 47, 188, 132, 232, 38, 201, 50, 204, 233, 226, 100, 12, 206,
    21, 89, 12, 28, 98, 115, 176, 146, 87, 8, 186, 59, 133, 32, 176, 188,
];

/// Address of the token program.
pub const TOKEN_PROGRAM_ID: [u8; 32] = [
    6, 221, 246, 225, 215, 101, 161, 147, 217, 203, 225, 70, 206, 235, 121, 172,
    28, 180, 133, 237, 95, 91, 55, 145, 58, 140, 245, 133, 126, 255, 0, 169,
];

/// Address of the associated-token-account program.
pub const ASSOCIATED_TOKEN_PROGRAM_ID: [u8; 32] = [
    140, 151, 37, 143, 78, 36, 137, 241, 187, 61, 16, 41, 20, 142, 13, 131,
    11, 90, 19, 153, 218, 255, 16, 132, 4, 142, 123, 216, 219, 233, 248, 89,
];

/// Address of the system program.
pub const SYSTEM_PROGRAM_ID: [u8; 32] = [
    0, 0, 0, 0, 0, 0, 0, 0, 0, 0, 0, 0, 0, 0, 0, 0,
    0, 0, 0, 0, 0, 0, 0, 0, 0, 0, 0, 0, 0, 0, 0, 0,
];

/// Address of the compute-budget program.
pub const COMPUTE_BUDGET_PROGRAM_ID: [u8; 32] = [
    3, 6, 70, 111, 229, 33, 23, 50, 255, 236, 173, 186, 114, 195, 155, 231,
    188, 140, 229, 187, 197, 247, 18, 107, 44, 67, 155, 58, 64, 0, 0, 0,
];

/// Address of the account that holds the ledger's clock.
pub const CLOCK_SYSVAR_ID: [u8; 32] = [
    6, 167, 213, 23, 24, 199, 116, 201, 40, 86, 99, 152, 105, 29, 94, 182,
    139, 94, 184, 163, 155, 75, 109, 92, 115, 85, 91, 33, 0, 0, 0, 0,
];

/// Seed of a bin array's address: the text `bin_array`.
pub const BIN_ARRAY_SEED: [u8; 9] = [98, 105, 110, 95, 97, 114, 114, 97, 121];

/// Seed of the bitmap extension's address: the text `bitmap`.
pub const BITMAP_SEED: [u8; 6] = [98, 105, 116, 109, 97, 112];

/// Seed of the event authority's address: the text `__event_authority`.
pub const EVENT_AUTHORITY_SEED: [u8; 17] = [
    95, 95, 101, 118, 101, 110, 116, 95, 97, 117, 116, 104, 111, 114, 105, 116, 121,
];

impl Address {
    /// The address with these bytes.
    pub fn new(bytes: [u8; 32]) -> (a: Address)
        ensures
            a.bytes == bytes,
    {
        Address { bytes }
    }

    /// The bytes of the address, in a vector.
    pub fn to_vec(&self) -> (v: Vec<u8>)
        ensures
            v@ == self@,
    {
        array_to_vec(&self.bytes)
    }
}

/// The address of the liquidity-book program.
pub fn program_id() -> (a: Address)
    ensures
        a@ == PROGRAM_ID@,
{
    Address { bytes: PROGRAM_ID }
}

/// The address of the token program.
pub fn token_program_id() -> (a: Address)
    ensures
        a@ == TOKEN_PROGRAM_ID@,
{
    Address { bytes: TOKEN_PROGRAM_ID }
}

/// The address of the associated-token-account program.
pub fn associated_token_program_id() -> (a: Address)
    ensures
        a@ == ASSOCIATED_TOKEN_PROGRAM_ID@,
{
    Address { bytes: ASSOCIATED_TOKEN_PROGRAM_ID }
}

/// The address of the account that holds the ledger's clock.
pub fn clock_sysvar_id() -> (a: Address)
    ensures
        a@ == CLOCK_SYSVAR_ID@,
{
    Address { bytes: CLOCK_SYSVAR_ID }
}

/// The program-derived address for `seeds` under `program_id`, with its bump
/// seed: what `Pubkey::try_find_program_address` computes from them. It is
/// `None` where no bump seed gives an address off the curve, or where the
/// seeds are too many or too long.
pub uninterp spec fn program_address(seeds: Seq<Seq<u8>>, program_id: Seq<u8>) -> Option<
    (Seq<u8>, u8),
>;

/// A derived address and bump seed as plain values.
pub open spec fn derived_view(r: Option<(Address, u8)>) -> Option<(Seq<u8>, u8)> {
    match r {
        Some((a, bump)) => Some((a@, bump)),
        None => None,
    }
}

/// The derived address alone, without its bump seed.
pub open spec fn program_address_key(seeds: Seq<Seq<u8>>, program_id: Seq<u8>) -> Option<Seq<u8>> {
    match program_address(seeds, program_id) {
        Some((a, _)) => Some(a),
        None => None,
    }
}

/// An address that may be missing, as plain values.
pub open spec fn key_view(r: Option<Address>) -> Option<Seq<u8>> {
    match r {
        Some(a) => Some(a@),
        None => None,
    }
}

/// Calls `Pubkey::try_find_program_address`. Trusted: the result is the
/// derived address that `program_address` names for these seeds and this
/// program; nothing more is claimed of it.
#[verifier::external_body]
pub(crate) fn try_find_program_address(seeds: &Vec<Vec<u8>>, program_id: &Address) -> (r: Option<
    (Address, u8),
>)
    ensures
        derived_view(r) == program_address(seeds.deep_view(), program_id@),
{
    let parts: Vec<&[u8]> = seeds.iter().map(|s| s.as_slice()).collect();
    match Pubkey::try_find_program_address(&parts, &Pubkey::new_from_array(program_id.bytes)) {
        Some((key, bump)) => Some((Address { bytes: key.to_bytes() }, bump)),
        None => None,
    }
}

/// Seeds of a pool's bitmap extension.
pub open spec fn bitmap_extension_seeds(lb_pair: Seq<u8>) -> Seq<Seq<u8>> {
    seq![BITMAP_SEED@, lb_pair]
}

/// Seeds of the bin array with index `index` of a pool.
pub open spec fn bin_array_seeds(lb_pair: Seq<u8>, index: int) -> Seq<Seq<u8>> {
    seq![BIN_ARRAY_SEED@, lb_pair, i64_le_bytes(index)]
}

/// Seeds of the program's event authority.
pub open spec fn event_authority_seeds() -> Seq<Seq<u8>> {
    seq![EVENT_AUTHORITY_SEED@]
}

/// Seeds of the token account associated with `owner` for `mint`.
pub open spec fn associated_token_seeds(
    owner: Seq<u8>,
    token_program: Seq<u8>,
    mint: Seq<u8>,
) -> Seq<Seq<u8>> {
    seq![owner, token_program, mint]
}

/// Address of the bitmap extension of the pool at `lb_pair`.
pub fn derive_bin_array_bitmap_extension(lb_pair: &Address) -> (r: Option<(Address, u8)>)
    ensures
        derived_view(r) == program_address(bitmap_extension_seeds(lb_pair@), PROGRAM_ID@),
{
    let mut seeds: Vec<Vec<u8>> = Vec::new();
    seeds.push(array_to_vec(&BITMAP_SEED));
    seeds.push(lb_pair.to_vec());
    assert(seeds.deep_view() =~~= bitmap_extension_seeds(lb_pair@));
    try_find_program_address(&seeds, &program_id())
}

/// Address of the bin array with index `index` of the pool at `lb_pair`.
pub fn derive_bin_array_pda(lb_pair: &Address, index: i64) -> (r: Option<(Address, u8)>)
    ensures
        derived_view(r) == program_address(bin_array_seeds(lb_pair@, index as int), PROGRAM_ID@),
{
    let mut seeds: Vec<Vec<u8>> = Vec::new();
    seeds.push(array_to_vec(&BIN_ARRAY_SEED));
    seeds.push(lb_pair.to_vec());
    seeds.push(write_i64(index));
    assert(seeds.deep_view() =~~= bin_array_seeds(lb_pair@, index as int));
    try_find_program_address(&seeds, &program_id())
}

/// Address of the program's event authority.
pub fn derive_event_authority() -> (r: Option<(Address, u8)>)
    ensures
        derived_view(r) == program_address(event_authority_seeds(), PROGRAM_ID@),
{
    let mut seeds: Vec<Vec<u8>> = Vec::new();
    seeds.push(array_to_vec(&EVENT_AUTHORITY_SEED));
    assert(seeds.deep_view() =~~= event_authority_seeds());
    try_find_program_address(&seeds, &program_id())
}

/// Address of the token account associated with `owner` for `mint` under
/// `token_program`.
pub fn get_associated_token_address_with_program_id(
    owner: &Address,
    mint: &Address,
    token_program: &Address,
) -> (r: Option<Address>)
    ensures
        key_view(r) == program_address_key(
            associated_token_seeds(owner@, token_program@, mint@),
            ASSOCIATED_TOKEN_PROGRAM_ID@,
        ),
{
    let mut seeds: Vec<Vec<u8>> = Vec::new();
    seeds.push(owner.to_vec());
    seeds.push(token_program.to_vec());
    seeds.push(mint.to_vec());
    assert(seeds.deep_view() =~~= associated_token_seeds(owner@, token_program@, mint@));
    match try_find_program_address(&seeds, &associated_token_program_id()) {
        Some((a, _)) => Some(a),
        None => None,
    }
}

/// Address of the token account associated with `owner` for `mint` under the
/// token program.
pub fn get_associated_token_address(owner: &Address, mint: &Address) -> (r: Option<Address>)
    ensures
        key_view(r) == program_address_key(
            associated_token_seeds(owner@, TOKEN_PROGRAM_ID@, mint@),
            ASSOCIATED_TOKEN_PROGRAM_ID@,
        ),
{
    get_associated_token_address_with_program_id(owner, mint, &token_program_id())
}

} // verus!
