//! Instructions: the addressed accounts, the program and its input.
//!
//! The instructions of other programs are built by those programs' own
//! crates; the swap instruction of the liquidity-book program is laid out
//! here.

use crate::address::{
    associated_token_seeds, program_address_key, program_id, Address,
    ASSOCIATED_TOKEN_PROGRAM_ID, COMPUTE_BUDGET_PROGRAM_ID, PROGRAM_ID, SYSTEM_PROGRAM_ID,
};
use crate::bytes::{array_to_vec, u32_le_bytes, u64_le_bytes, write_u64};
use anchor_lang::solana_program::pubkey::Pubkey;
use solana_compute_budget_interface::ComputeBudgetInstruction;
#[allow(deprecated)]
use spl_associated_token_account::instruction::{
    create_associated_token_account, create_associated_token_account_idempotent,
};
use vstd::prelude::*;

verus! {

/// An account an instruction refers to, and how.
#[derive(Clone, Copy, Debug, PartialEq, Eq)]
pub struct AccountMeta {
    pub pubkey: Address,
    pub is_signer: bool,
    pub is_writable: bool,
}

/// What an [`AccountMeta`] holds, as plain values.
pub struct AccountMetaView {
    pub pubkey: Seq<u8>,
    pub is_signer: bool,
    pub is_writable: bool,
}

impl View for AccountMeta {
    type V = AccountMetaView;

    open spec fn view(&self) -> AccountMetaView {
        AccountMetaView {
            pubkey: self.pubkey@,
            is_signer: self.is_signer,
            is_writable: self.is_writable,
        }
    }
}

/// One instruction of a transaction.
#[derive(Clone, Debug, PartialEq, Eq)]
pub struct Instruction {
    pub program_id: Address,
    pub accounts: Vec<AccountMeta>,
    pub data: Vec<u8>,
}

/// What an [`Instruction`] holds, as plain values.
pub struct InstructionView {
    pub program_id: Seq<u8>,
    pub accounts: Seq<AccountMetaView>,
    pub data: Seq<u8>,
}

impl View for Instruction {
    type V = InstructionView;

    open spec fn view(&self) -> InstructionView {
        InstructionView {
            program_id: self.program_id@,
            accounts: Seq::new(self.accounts@.len(), |i: int| self.accounts@[i]@),
            data: self.data@,
        }
    }
}

/// The instructions in `v`, as plain values.
pub open spec fn instructions_view(v: Seq<Instruction>) -> Seq<InstructionView> {
    Seq::new(v.len(), |i: int| v[i]@)
}

/// An account that is written to and does not sign.
pub open spec fn writable(key: Seq<u8>) -> AccountMetaView {
    AccountMetaView { pubkey: key, is_signer: false, is_writable: true }
}

/// An account that is only read and does not sign.
pub open spec fn readonly(key: Seq<u8>) -> AccountMetaView {
    AccountMetaView { pubkey: key, is_signer: false, is_writable: false }
}

/// An account that signs and is only read.
pub open spec fn signer(key: Seq<u8>) -> AccountMetaView {
    AccountMetaView { pubkey: key, is_signer: true, is_writable: false }
}

/// An account that signs and is written to.
pub open spec fn writable_signer(key: Seq<u8>) -> AccountMetaView {
    AccountMetaView { pubkey: key, is_signer: true, is_writable: true }
}

impl AccountMeta {
    /// An account that is written to and does not sign.
    pub fn writable(pubkey: Address) -> (m: AccountMeta)
        ensures
            m@ == writable(pubkey@),
    {
        AccountMeta { pubkey, is_signer: false, is_writable: true }
    }

    /// An account that is only read and does not sign.
    pub fn readonly(pubkey: Address) -> (m: AccountMeta)
        ensures
            m@ == readonly(pubkey@),
    {
        AccountMeta { pubkey, is_signer: false, is_writable: false }
    }

    /// An account that signs and is only read.
    pub fn signer(pubkey: Address) -> (m: AccountMeta)
        ensures
            m@ == signer(pubkey@),
    {
        AccountMeta { pubkey, is_signer: true, is_writable: false }
    }
}

/// First byte of the instruction that creates an associated token account
/// and fails if it exists.
pub const CREATE_TAG: u8 = 0;

/// First byte of the instruction that creates an associated token account
/// unless it exists.
pub const CREATE_IDEMPOTENT_TAG: u8 = 1;

/// First byte of the instruction that sets the compute unit limit.
pub const SET_COMPUTE_UNIT_LIMIT_TAG: u8 = 2;

/// The instruction that creates the token account `associated` of `owner`
/// for `mint`, paid for by `funding`.
pub open spec fn create_associated_token_account_view(
    funding: Seq<u8>,
    associated: Seq<u8>,
    owner: Seq<u8>,
    mint: Seq<u8>,
    token_program: Seq<u8>,
    tag: u8,
) -> InstructionView {
    InstructionView {
        program_id: ASSOCIATED_TOKEN_PROGRAM_ID@,
        accounts: seq![
            writable_signer(funding),
            writable(associated),
            readonly(owner),
            readonly(mint),
            readonly(SYSTEM_PROGRAM_ID@),
            readonly(token_program),
        ],
        data: seq![tag],
    }
}

/// The instruction that limits a transaction to `units` compute units.
pub open spec fn set_compute_unit_limit_view(units: u32) -> InstructionView {
    InstructionView {
        program_id: COMPUTE_BUDGET_PROGRAM_ID@,
        accounts: Seq::empty(),
        data: seq![SET_COMPUTE_UNIT_LIMIT_TAG] + u32_le_bytes(units as int),
    }
}

/// Calls `create_associated_token_account_idempotent` of the associated
/// token account crate. Trusted: the instruction addresses that program,
/// names the six accounts in the crate's order with the derived token
/// account second, and carries the single byte 1. The call does not return
/// where the token account has no address, so that case is left out.
#[verifier::external_body]
pub(crate) fn build_create_idempotent(
    funding: &Address,
    owner: &Address,
    mint: &Address,
    token_program: &Address,
) -> (ix: Instruction)
    requires
        program_address_key(
            associated_token_seeds(owner@, token_program@, mint@),
            ASSOCIATED_TOKEN_PROGRAM_ID@,
        ) is Some,
    ensures
        ix@ == create_associated_token_account_view(
            funding@,
            program_address_key(
                associated_token_seeds(owner@, token_program@, mint@),
                ASSOCIATED_TOKEN_PROGRAM_ID@,
            )->0,
            owner@,
            mint@,
            token_program@,
            CREATE_IDEMPOTENT_TAG,
        ),
{
    let of = |a: &Address| Pubkey::new_from_array(a.bytes);
    let (payer, wallet, token_mint, program) = (of(funding), of(owner), of(mint), of(token_program));
    let ix = create_associated_token_account_idempotent(&payer, &wallet, &token_mint, &program);
    let key = |k: &Pubkey| Address { bytes: k.to_bytes() };
    let metas = ix.accounts.iter().map(
        |m| AccountMeta { pubkey: key(&m.pubkey), is_signer: m.is_signer, is_writable: m.is_writable },
    );
    Instruction { program_id: key(&ix.program_id), accounts: metas.collect(), data: ix.data }
}

/// Calls `create_associated_token_account` of the associated token account
/// crate. Trusted: the instruction addresses that program, names the six
/// accounts in the crate's order with the derived token account second, and
/// carries the single byte 0. The call does not return where the token
/// account has no address, so that case is left out.
#[verifier::external_body]
pub(crate) fn build_create(
    funding: &Address,
    owner: &Address,
    mint: &Address,
    token_program: &Address,
) -> (ix: Instruction)
    requires
        program_address_key(
            associated_token_seeds(owner@, token_program@, mint@),
            ASSOCIATED_TOKEN_PROGRAM_ID@,
        ) is Some,
    ensures
        ix@ == create_associated_token_account_view(
            funding@,
            program_address_key(
                associated_token_seeds(owner@, token_program@, mint@),
                ASSOCIATED_TOKEN_PROGRAM_ID@,
            )->0,
            owner@,
            mint@,
            token_program@,
            CREATE_TAG,
        ),
{
    let of = |a: &Address| Pubkey::new_from_array(a.bytes);
    let (payer, wallet, token_mint, program) = (of(funding), of(owner), of(mint), of(token_program));
    let ix = create_associated_token_account(&payer, &wallet, &token_mint, &program);
    let key = |k: &Pubkey| Address { bytes: k.to_bytes() };
    let metas = ix.accounts.iter().map(
        |m| AccountMeta { pubkey: key(&m.pubkey), is_signer: m.is_signer, is_writable: m.is_writable },
    );
    Instruction { program_id: key(&ix.program_id), accounts: metas.collect(), data: ix.data }
}

/// Calls `ComputeBudgetInstruction::set_compute_unit_limit`. Trusted: the
/// instruction addresses the compute-budget program, names no account, and
/// carries the byte 2 followed by `units` in four little-endian bytes.
#[verifier::external_body]
pub(crate) fn build_set_compute_unit_limit(units: u32) -> (ix: Instruction)
    ensures
        ix@ == set_compute_unit_limit_view(units),
{
    let ix = ComputeBudgetInstruction::set_compute_unit_limit(units);
    let key = |k: &Pubkey| Address { bytes: k.to_bytes() };
    let metas = ix.accounts.iter().map(
        |m| AccountMeta { pubkey: key(&m.pubkey), is_signer: m.is_signer, is_writable: m.is_writable },
    );
    Instruction { program_id: key(&ix.program_id), accounts: metas.collect(), data: ix.data }
}

/// First eight bytes of a swap instruction's input.
pub const SWAP_DISCRIMINATOR: [u8; 8] = [248, 198, 158, 145, 225, 117, 135, 200];

/// The accounts a swap names, before the bin arrays.
#[derive(Clone, Copy, Debug, PartialEq, Eq)]
pub struct SwapAccounts {
    pub lb_pair: Address,
    pub bin_array_bitmap_extension: Option<Address>,
    pub reserve_x: Address,
    pub reserve_y: Address,
    pub user_token_in: Address,
    pub user_token_out: Address,
    pub token_x_mint: Address,
    pub token_y_mint: Address,
    pub oracle: Address,
    pub host_fee_in: Option<Address>,
    pub user: Address,
    pub token_x_program: Address,
    pub token_y_program: Address,
    pub event_authority: Address,
    pub program: Address,
}

/// What a [`SwapAccounts`] holds, as plain values.
pub struct SwapAccountsView {
    pub lb_pair: Seq<u8>,
    pub bin_array_bitmap_extension: Option<Seq<u8>>,
    pub reserve_x: Seq<u8>,
    pub reserve_y: Seq<u8>,
    pub user_token_in: Seq<u8>,
    pub user_token_out: Seq<u8>,
    pub token_x_mint: Seq<u8>,
    pub token_y_mint: Seq<u8>,
    pub oracle: Seq<u8>,
    pub host_fee_in: Option<Seq<u8>>,
    pub user: Seq<u8>,
    pub token_x_program: Seq<u8>,
    pub token_y_program: Seq<u8>,
    pub event_authority: Seq<u8>,
    pub program: Seq<u8>,
}

impl View for SwapAccounts {
    type V = SwapAccountsView;

    open spec fn view(&self) -> SwapAccountsView {
        SwapAccountsView {
            lb_pair: self.lb_pair@,
            bin_array_bitmap_extension: match self.bin_array_bitmap_extension {
                Some(a) => Some(a@),
                None => None,
            },
            reserve_x: self.reserve_x@,
            reserve_y: self.reserve_y@,
            user_token_in: self.user_token_in@,
            user_token_out: self.user_token_out@,
            token_x_mint: self.token_x_mint@,
            token_y_mint: self.token_y_mint@,
            oracle: self.oracle@,
            host_fee_in: match self.host_fee_in {
                Some(a) => Some(a@),
                None => None,
            },
            user: self.user@,
            token_x_program: self.token_x_program@,
            token_y_program: self.token_y_program@,
            event_authority: self.event_authority@,
            program: self.program@,
        }
    }
}

/// How an account that may be left out is named: written to or only read,
/// as `is_writable` says, where it is given; the program itself, only read,
/// where it is not.
pub open spec fn optional_account(key: Option<Seq<u8>>, is_writable: bool) -> AccountMetaView {
    match key {
        Some(a) => AccountMetaView { pubkey: a, is_signer: false, is_writable },
        None => readonly(PROGRAM_ID@),
    }
}

/// The fifteen accounts a swap names first, in the program's order.
pub open spec fn swap_account_metas(a: SwapAccountsView) -> Seq<AccountMetaView> {
    seq![
        writable(a.lb_pair),
        optional_account(a.bin_array_bitmap_extension, false),
        writable(a.reserve_x),
        writable(a.reserve_y),
        writable(a.user_token_in),
        writable(a.user_token_out),
        readonly(a.token_x_mint),
        readonly(a.token_y_mint),
        writable(a.oracle),
        optional_account(a.host_fee_in, true),
        signer(a.user),
        readonly(a.token_x_program),
        readonly(a.token_y_program),
        readonly(a.event_authority),
        readonly(a.program),
    ]
}

/// The bin arrays a swap names after its own accounts: each written to, in
/// the order given.
pub open spec fn bin_array_metas(bin_arrays: Seq<Address>) -> Seq<AccountMetaView> {
    Seq::new(bin_arrays.len(), |i: int| writable(bin_arrays[i]@))
}

/// The input of a swap: the discriminator, the amount paid in and the least
/// amount accepted in return, each in eight little-endian bytes.
pub open spec fn swap_data(amount_in: u64, min_amount_out: u64) -> Seq<u8> {
    SWAP_DISCRIMINATOR@ + u64_le_bytes(amount_in as int) + u64_le_bytes(min_amount_out as int)
}

/// The swap instruction.
pub open spec fn swap_instruction_view(
    accounts: SwapAccountsView,
    bin_arrays: Seq<Address>,
    amount_in: u64,
    min_amount_out: u64,
) -> InstructionView {
    InstructionView {
        program_id: PROGRAM_ID@,
        accounts: swap_account_metas(accounts) + bin_array_metas(bin_arrays),
        data: swap_data(amount_in, min_amount_out),
    }
}

fn optional_account_meta(key: Option<Address>, is_writable: bool) -> (m: AccountMeta)
    ensures
        m@ == optional_account(
            match key {
                Some(a) => Some(a@),
                None => None,
            },
            is_writable,
        ),
{
    match key {
        Some(a) => AccountMeta { pubkey: a, is_signer: false, is_writable },
        None => AccountMeta::readonly(program_id()),
    }
}

/// Builds the swap instruction: the swap's own accounts in the program's
/// order, then the bin arrays in the order given, and the two amounts as
/// input.
pub fn swap_instruction(
    accounts: &SwapAccounts,
    bin_arrays: &Vec<Address>,
    amount_in: u64,
    min_amount_out: u64,
) -> (ix: Instruction)
    ensures
        ix@ == swap_instruction_view(accounts@, bin_arrays@, amount_in, min_amount_out),
{
    let mut metas: Vec<AccountMeta> = Vec::new();
    metas.push(AccountMeta::writable(accounts.lb_pair));
    metas.push(optional_account_meta(accounts.bin_array_bitmap_extension, false));
    metas.push(AccountMeta::writable(accounts.reserve_x));
    metas.push(AccountMeta::writable(accounts.reserve_y));
    metas.push(AccountMeta::writable(accounts.user_token_in));
    metas.push(AccountMeta::writable(accounts.user_token_out));
    metas.push(AccountMeta::readonly(accounts.token_x_mint));
    metas.push(AccountMeta::readonly(accounts.token_y_mint));
    metas.push(AccountMeta::writable(accounts.oracle));
    metas.push(optional_account_meta(accounts.host_fee_in, true));
    metas.push(AccountMeta::signer(accounts.user));
    metas.push(AccountMeta::readonly(accounts.token_x_program));
    metas.push(AccountMeta::readonly(accounts.token_y_program));
    metas.push(AccountMeta::readonly(accounts.event_authority));
    metas.push(AccountMeta::readonly(accounts.program));
    let ghost own = swap_account_metas(accounts@);
    assert(Seq::new(metas@.len(), |i: int| metas@[i]@) =~= own);
    let mut i: usize = 0;
    while i < bin_arrays.len()
        invariant
            i <= bin_arrays@.len(),
            own == swap_account_metas(accounts@),
            own.len() == 15,
            metas@.len() == 15 + i,
            forall|k: int| 0 <= k < 15 ==> metas@[k]@ == own[k],
            forall|k: int| 0 <= k < i ==> metas@[15 + k]@ == writable(bin_arrays@[k]@),
        decreases bin_arrays@.len() - i,
    {
        metas.push(AccountMeta::writable(bin_arrays[i]));
        i = i + 1;
    }
    let mut data: Vec<u8> = array_to_vec(&SWAP_DISCRIMINATOR);
    let mut first = write_u64(amount_in);
    let mut second = write_u64(min_amount_out);
    data.append(&mut first);
    data.append(&mut second);
    let ix = Instruction { program_id: program_id(), accounts: metas, data };
    assert(ix@.accounts =~= swap_account_metas(accounts@) + bin_array_metas(bin_arrays@));
    assert(ix@.data =~= swap_data(amount_in, min_amount_out));
    ix
}

} // verus!
