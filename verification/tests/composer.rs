use anchor_lang::solana_program::instruction::Instruction as LedgerInstruction;
use anchor_lang::solana_program::pubkey::Pubkey;
use dlmm_swap::address::{
    derive_bin_array_bitmap_extension, derive_event_authority, get_associated_token_address,
    Address, ASSOCIATED_TOKEN_PROGRAM_ID, COMPUTE_BUDGET_PROGRAM_ID, PROGRAM_ID,
    TOKEN_PROGRAM_ID,
};
use dlmm_swap::composer::{
    assemble, compose_swap, create_ata_token, create_ata_token_or_not,
    destination_needs_creation, minimum_output, resolve_swap_accounts, swap,
    swap_exact_in_instructions, ComposeError, DestinationProbe, SwapExactInParameters,
    BASIS_POINT_MAX, COMPUTE_UNIT_LIMIT,
};
use dlmm_swap::decode::{decode_bitmap_extension_raw, decode_lb_pair_raw};
use dlmm_swap::instruction::{swap_instruction, AccountMeta, Instruction, SwapAccounts};
use dlmm_swap::layout::{BITMAP_EXTENSION_LEN, LB_PAIR_LEN};
use dlmm_swap::state::{BinArrayBitmapExtension, LbPair};
use solana_compute_budget_interface::ComputeBudgetInstruction;

const POOL: Address = Address { bytes: [50; 32] };
const USER: Address = Address { bytes: [60; 32] };
const MINT_X: Address = Address { bytes: [11; 32] };
const MINT_Y: Address = Address { bytes: [12; 32] };
const RESERVE_X: Address = Address { bytes: [13; 32] };
const RESERVE_Y: Address = Address { bytes: [14; 32] };
const ORACLE: Address = Address { bytes: [16; 32] };

fn pool() -> LbPair {
    let mut b = vec![0u8; LB_PAIR_LEN];
    b[88..120].copy_from_slice(&MINT_X.bytes);
    b[120..152].copy_from_slice(&MINT_Y.bytes);
    b[152..184].copy_from_slice(&RESERVE_X.bytes);
    b[184..216].copy_from_slice(&RESERVE_Y.bytes);
    b[552..584].copy_from_slice(&ORACLE.bytes);
    decode_lb_pair_raw(&b).unwrap()
}

fn extension() -> BinArrayBitmapExtension {
    decode_bitmap_extension_raw(&vec![0u8; BITMAP_EXTENSION_LEN]).unwrap()
}

fn params(swap_for_y: bool) -> SwapExactInParameters {
    SwapExactInParameters { lb_pair: POOL, amount_in: 5_000_000, swap_for_y }
}

fn key(a: &Address) -> Pubkey {
    Pubkey::new_from_array(a.bytes)
}

fn from_ledger(ix: &LedgerInstruction) -> Instruction {
    Instruction {
        program_id: Address::new(ix.program_id.to_bytes()),
        accounts: ix
            .accounts
            .iter()
            .map(|m| AccountMeta {
                pubkey: Address::new(m.pubkey.to_bytes()),
                is_signer: m.is_signer,
                is_writable: m.is_writable,
            })
            .collect(),
        data: ix.data.clone(),
    }
}

fn writable(pubkey: Address) -> AccountMeta {
    AccountMeta { pubkey, is_signer: false, is_writable: true }
}

fn readonly(pubkey: Address) -> AccountMeta {
    AccountMeta { pubkey, is_signer: false, is_writable: false }
}

fn is_creation(ix: &Instruction) -> bool {
    ix.program_id.bytes == ASSOCIATED_TOKEN_PROGRAM_ID
}

fn is_swap(ix: &Instruction) -> bool {
    ix.program_id.bytes == PROGRAM_ID
}

#[test]
fn minimum_output_of_one_million_at_one_percent() {
    assert_eq!(minimum_output(1_000_000, 100), 990_000);
}

#[test]
fn minimum_output_rounds_down() {
    assert_eq!(minimum_output(1, 1), 0);
    assert_eq!(minimum_output(3, 5_000), 1);
    assert_eq!(minimum_output(10_001, 1), 9_999);
    assert_eq!(minimum_output(999, 100), 989);
    assert_eq!(minimum_output(u64::MAX, 9_999), u64::MAX / 10_000);
}

#[test]
fn minimum_output_at_the_ends_of_the_range() {
    assert_eq!(BASIS_POINT_MAX, 10_000);
    for quoted in [0u64, 1, 990_000, u64::MAX] {
        assert_eq!(minimum_output(quoted, 0), quoted);
        assert_eq!(minimum_output(quoted, 10_000), 0);
    }
}

#[test]
fn minimum_output_never_grows_with_the_tolerance() {
    for quoted in [0u64, 1, 7, 10_000, 1_000_003, u64::MAX] {
        let mut last = minimum_output(quoted, 0);
        assert_eq!(last, quoted);
        for bps in 1..=10_000u64 {
            let now = minimum_output(quoted, bps);
            assert!(now <= last);
            if quoted > 0 {
                assert!(now < quoted);
            }
            last = now;
        }
    }
}

#[test]
fn only_a_balance_spares_the_creation() {
    assert!(destination_needs_creation(DestinationProbe::Failed));
    assert!(destination_needs_creation(DestinationProbe::NotFound));
    assert!(destination_needs_creation(DestinationProbe::NoBalance));
    assert!(!destination_needs_creation(DestinationProbe::Balance));
}

#[test]
fn idempotent_creation_is_the_token_crates_instruction() {
    let expected =
        spl_associated_token_account::instruction::create_associated_token_account_idempotent(
            &key(&USER),
            &key(&POOL),
            &key(&MINT_Y),
            &anchor_spl::token::ID,
        );
    let with_program =
        create_ata_token_or_not(&USER, &POOL, &MINT_Y, Some(&Address::new(TOKEN_PROGRAM_ID)));
    assert_eq!(with_program, Some(vec![from_ledger(&expected)]));
    assert_eq!(create_ata_token_or_not(&USER, &POOL, &MINT_Y, None), with_program);
    let ix = &with_program.unwrap()[0];
    assert_eq!(ix.data, vec![1]);
    assert_eq!(ix.accounts.len(), 6);
    assert_eq!(ix.accounts[0], AccountMeta { pubkey: USER, is_signer: true, is_writable: true });
    assert_eq!(
        ix.accounts[1],
        writable(get_associated_token_address(&POOL, &MINT_Y).unwrap())
    );
    assert_eq!(ix.accounts[2], readonly(POOL));
    assert_eq!(ix.accounts[3], readonly(MINT_Y));
    assert_eq!(ix.accounts[4], readonly(Address::new([0; 32])));
    assert_eq!(ix.accounts[5], readonly(Address::new(TOKEN_PROGRAM_ID)));
}

#[test]
fn plain_creation_is_the_token_crates_instruction() {
    let other_program = Address::new([77; 32]);
    let expected = spl_associated_token_account::instruction::create_associated_token_account(
        &key(&USER),
        &key(&USER),
        &key(&MINT_X),
        &key(&other_program),
    );
    let got = create_ata_token(&USER, &USER, &MINT_X, Some(&other_program)).unwrap();
    assert_eq!(got, vec![from_ledger(&expected)]);
    assert_eq!(got[0].data, vec![0]);
    assert_eq!(got[0].accounts[5], readonly(other_program));
    assert_ne!(create_ata_token(&USER, &USER, &MINT_X, None).unwrap(), got);
}

#[test]
fn accounts_follow_the_direction_of_the_swap() {
    let token_x = get_associated_token_address(&USER, &MINT_X).unwrap();
    let token_y = get_associated_token_address(&USER, &MINT_Y).unwrap();
    let sell_x = resolve_swap_accounts(&POOL, &pool(), None, &USER, true).unwrap();
    assert_eq!(sell_x.user_token_in, token_x);
    assert_eq!(sell_x.user_token_out, token_y);
    let sell_y = resolve_swap_accounts(&POOL, &pool(), None, &USER, false).unwrap();
    assert_eq!(sell_y.user_token_in, token_y);
    assert_eq!(sell_y.user_token_out, token_x);
    assert_eq!(
        sell_x,
        SwapAccounts {
            lb_pair: POOL,
            bin_array_bitmap_extension: Some(Address::new(PROGRAM_ID)),
            reserve_x: RESERVE_X,
            reserve_y: RESERVE_Y,
            user_token_in: token_x,
            user_token_out: token_y,
            token_x_mint: MINT_X,
            token_y_mint: MINT_Y,
            oracle: ORACLE,
            host_fee_in: Some(Address::new(PROGRAM_ID)),
            user: USER,
            token_x_program: Address::new(TOKEN_PROGRAM_ID),
            token_y_program: Address::new(TOKEN_PROGRAM_ID),
            event_authority: derive_event_authority().unwrap().0,
            program: Address::new(PROGRAM_ID),
        }
    );
}

#[test]
fn the_extension_is_named_where_the_pool_has_one() {
    let x = extension();
    let with = resolve_swap_accounts(&POOL, &pool(), Some(&x), &USER, true).unwrap();
    assert_eq!(
        with.bin_array_bitmap_extension,
        Some(derive_bin_array_bitmap_extension(&POOL).unwrap().0)
    );
    let without = resolve_swap_accounts(&POOL, &pool(), None, &USER, true).unwrap();
    assert_eq!(without.bin_array_bitmap_extension, Some(Address::new(PROGRAM_ID)));
}

#[test]
fn swap_instruction_names_accounts_in_the_programs_order() {
    let accounts = resolve_swap_accounts(&POOL, &pool(), None, &USER, true).unwrap();
    let bin_arrays = vec![Address::new([1; 32]), Address::new([2; 32]), Address::new([3; 32])];
    let ix = swap_instruction(&accounts, &bin_arrays, 5_000_000, 4_950_000);
    assert_eq!(ix.program_id, Address::new(PROGRAM_ID));
    assert_eq!(
        ix.accounts,
        vec![
            writable(POOL),
            readonly(Address::new(PROGRAM_ID)),
            writable(RESERVE_X),
            writable(RESERVE_Y),
            writable(accounts.user_token_in),
            writable(accounts.user_token_out),
            readonly(MINT_X),
            readonly(MINT_Y),
            writable(ORACLE),
            writable(Address::new(PROGRAM_ID)),
            AccountMeta { pubkey: USER, is_signer: true, is_writable: false },
            readonly(Address::new(TOKEN_PROGRAM_ID)),
            readonly(Address::new(TOKEN_PROGRAM_ID)),
            readonly(accounts.event_authority),
            readonly(Address::new(PROGRAM_ID)),
            writable(Address::new([1; 32])),
            writable(Address::new([2; 32])),
            writable(Address::new([3; 32])),
        ]
    );
    let mut data = vec![248, 198, 158, 145, 225, 117, 135, 200];
    data.extend_from_slice(&5_000_000u64.to_le_bytes());
    data.extend_from_slice(&4_950_000u64.to_le_bytes());
    assert_eq!(ix.data, data);
}

#[test]
fn accounts_left_out_are_replaced_by_the_program() {
    let mut accounts = resolve_swap_accounts(&POOL, &pool(), None, &USER, true).unwrap();
    accounts.bin_array_bitmap_extension = None;
    accounts.host_fee_in = None;
    let ix = swap_instruction(&accounts, &Vec::new(), 1, 0);
    assert_eq!(ix.accounts.len(), 15);
    assert_eq!(ix.accounts[1], readonly(Address::new(PROGRAM_ID)));
    assert_eq!(ix.accounts[9], readonly(Address::new(PROGRAM_ID)));
    accounts.bin_array_bitmap_extension = Some(Address::new([4; 32]));
    accounts.host_fee_in = Some(Address::new([5; 32]));
    let named = swap_instruction(&accounts, &Vec::new(), 1, 0);
    assert_eq!(named.accounts[1], readonly(Address::new([4; 32])));
    assert_eq!(named.accounts[9], writable(Address::new([5; 32])));
}

#[test]
fn bin_arrays_keep_their_order_in_the_swap() {
    let accounts = resolve_swap_accounts(&POOL, &pool(), None, &USER, false).unwrap();
    let forwards = vec![Address::new([1; 32]), Address::new([2; 32])];
    let backwards = vec![Address::new([2; 32]), Address::new([1; 32])];
    let a = swap_instruction(&accounts, &forwards, 9, 8);
    let b = swap_instruction(&accounts, &backwards, 9, 8);
    assert_eq!(a.accounts[15..], [writable(forwards[0]), writable(forwards[1])]);
    assert_eq!(b.accounts[15..], [writable(backwards[0]), writable(backwards[1])]);
}

#[test]
fn an_account_not_found_puts_the_creation_first() {
    let bin_arrays = vec![Address::new([1; 32])];
    let list = swap_exact_in_instructions(
        &params(true),
        &USER,
        &pool(),
        None,
        &bin_arrays,
        1_000_000,
        100,
        DestinationProbe::NotFound,
    )
    .unwrap();
    assert_eq!(list.len(), 2);
    assert!(is_creation(&list[0]));
    assert!(is_swap(&list[1]));
    let expected =
        spl_associated_token_account::instruction::create_associated_token_account_idempotent(
            &key(&USER),
            &key(&USER),
            &key(&MINT_Y),
            &anchor_spl::token::ID,
        );
    assert_eq!(list[0], from_ledger(&expected));
    let accounts = resolve_swap_accounts(&POOL, &pool(), None, &USER, true).unwrap();
    assert_eq!(list[0].accounts[1].pubkey, accounts.user_token_out);
    assert_eq!(list[1], swap_instruction(&accounts, &bin_arrays, 5_000_000, 990_000));
}

#[test]
fn every_probe_but_a_balance_creates_the_destination() {
    for (probe, creates) in [
        (DestinationProbe::Failed, true),
        (DestinationProbe::NotFound, true),
        (DestinationProbe::NoBalance, true),
        (DestinationProbe::Balance, false),
    ] {
        for swap_for_y in [true, false] {
            let list = swap_exact_in_instructions(
                &params(swap_for_y),
                &USER,
                &pool(),
                None,
                &Vec::new(),
                10,
                0,
                probe,
            )
            .unwrap();
            assert_eq!(list.len(), if creates { 2 } else { 1 });
            assert!(is_swap(list.last().unwrap()));
            let swap_at = list.iter().position(is_swap).unwrap();
            for (at, ix) in list.iter().enumerate() {
                if is_creation(ix) {
                    assert!(at < swap_at);
                    let mint = if swap_for_y { MINT_Y } else { MINT_X };
                    assert_eq!(ix.accounts[3].pubkey, mint);
                }
            }
        }
    }
}

#[test]
fn an_absent_extension_passes_the_program_in_its_place() {
    let list = swap_exact_in_instructions(
        &params(false),
        &USER,
        &pool(),
        None,
        &Vec::new(),
        1_000,
        100,
        DestinationProbe::Balance,
    )
    .unwrap();
    assert_eq!(list.len(), 1);
    assert_eq!(list[0].accounts[1], readonly(Address::new(PROGRAM_ID)));
    let x = extension();
    let with = swap_exact_in_instructions(
        &params(false),
        &USER,
        &pool(),
        Some(&x),
        &Vec::new(),
        1_000,
        100,
        DestinationProbe::Balance,
    )
    .unwrap();
    assert_eq!(
        with[0].accounts[1],
        readonly(derive_bin_array_bitmap_extension(&POOL).unwrap().0)
    );
}

#[test]
fn the_swap_carries_the_minimum_output() {
    let list = swap_exact_in_instructions(
        &params(true),
        &USER,
        &pool(),
        None,
        &Vec::new(),
        1_000_000,
        100,
        DestinationProbe::Balance,
    )
    .unwrap();
    assert_eq!(list[0].data[8..16], 5_000_000u64.to_le_bytes());
    assert_eq!(list[0].data[16..24], 990_000u64.to_le_bytes());
    assert_eq!(list[0].data.len(), 24);
}

#[test]
fn a_tolerance_above_one_hundred_percent_is_refused() {
    for bps in [10_001u64, 20_000, u64::MAX] {
        assert_eq!(
            swap_exact_in_instructions(
                &params(true),
                &USER,
                &pool(),
                None,
                &Vec::new(),
                1,
                bps,
                DestinationProbe::Balance,
            ),
            Err(ComposeError::SlippageOutOfRange)
        );
        assert_eq!(
            swap(
                &params(true),
                &USER,
                &pool(),
                None,
                &Vec::new(),
                1,
                bps,
                DestinationProbe::Balance
            ),
            Err(ComposeError::SlippageOutOfRange)
        );
    }
    assert!(swap_exact_in_instructions(
        &params(true),
        &USER,
        &pool(),
        None,
        &Vec::new(),
        1,
        10_000,
        DestinationProbe::Balance,
    )
    .is_ok());
}

#[test]
fn a_swap_submitted_at_once_sets_the_compute_unit_limit_first() {
    assert_eq!(COMPUTE_UNIT_LIMIT, 1_400_000);
    let bin_arrays = vec![Address::new([1; 32]), Address::new([2; 32])];
    let list = swap(
        &params(true),
        &USER,
        &pool(),
        None,
        &bin_arrays,
        1_000_000,
        100,
        DestinationProbe::NoBalance,
    )
    .unwrap();
    assert_eq!(list.len(), 3);
    let expected = ComputeBudgetInstruction::set_compute_unit_limit(1_400_000);
    assert_eq!(list[0], from_ledger(&expected));
    assert_eq!(list[0].program_id, Address::new(COMPUTE_BUDGET_PROGRAM_ID));
    assert_eq!(list[0].data, vec![2, 0xc0, 0x5c, 0x15, 0x00]);
    assert!(is_creation(&list[1]));
    assert!(is_swap(&list[2]));
    let rest = swap_exact_in_instructions(
        &params(true),
        &USER,
        &pool(),
        None,
        &bin_arrays,
        1_000_000,
        100,
        DestinationProbe::NoBalance,
    )
    .unwrap();
    assert_eq!(list[1..], rest[..]);
    let funded = swap(
        &params(true),
        &USER,
        &pool(),
        None,
        &bin_arrays,
        1_000_000,
        100,
        DestinationProbe::Balance,
    )
    .unwrap();
    assert_eq!(funded.len(), 2);
    assert_eq!(funded[0], list[0]);
    assert_eq!(funded[1], list[2]);
}

#[test]
fn any_compute_unit_limit_can_be_asked_for() {
    for units in [0u32, 1, 257, 200_000, u32::MAX] {
        let list = compose_swap(
            &params(false),
            &USER,
            &pool(),
            None,
            &Vec::new(),
            1,
            1,
            DestinationProbe::Balance,
            Some(units),
        )
        .unwrap();
        let expected = ComputeBudgetInstruction::set_compute_unit_limit(units);
        assert_eq!(list[0], from_ledger(&expected));
        assert_eq!(list.len(), 2);
    }
}

#[test]
fn assembled_lists_end_with_the_swap() {
    let a = Instruction { program_id: Address::new([1; 32]), accounts: Vec::new(), data: vec![1] };
    let b = Instruction { program_id: Address::new([2; 32]), accounts: Vec::new(), data: vec![2] };
    let c = Instruction { program_id: Address::new([3; 32]), accounts: Vec::new(), data: vec![3] };
    assert_eq!(assemble(Vec::new(), Vec::new(), c.clone()), vec![c.clone()]);
    assert_eq!(assemble(vec![a.clone()], Vec::new(), c.clone()), vec![a.clone(), c.clone()]);
    assert_eq!(assemble(Vec::new(), vec![b.clone()], c.clone()), vec![b.clone(), c.clone()]);
    assert_eq!(assemble(vec![a.clone()], vec![b.clone()], c.clone()), vec![a, b, c]);
}
