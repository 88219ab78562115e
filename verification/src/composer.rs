//! Composition of the instruction list of a swap.
//!
//! The list ends with the swap instruction. Before it stands, where the
//! caller's destination token account is not known to hold a balance, an
//! instruction that creates that account unless it exists; and before that,
//! where the caller asks for it, one that sets the compute unit limit.

use crate::address::{
    associated_token_seeds, bitmap_extension_seeds, derive_bin_array_bitmap_extension,
    derive_event_authority, event_authority_seeds, get_associated_token_address,
    get_associated_token_address_with_program_id, program_address_key, program_id,
    token_program_id, Address, ASSOCIATED_TOKEN_PROGRAM_ID, COMPUTE_BUDGET_PROGRAM_ID, PROGRAM_ID,
    TOKEN_PROGRAM_ID,
};
use crate::instruction::{
    build_create, build_create_idempotent, build_set_compute_unit_limit,
    create_associated_token_account_view, instructions_view, set_compute_unit_limit_view,
    swap_instruction, swap_instruction_view, Instruction, InstructionView, SwapAccounts,
    SwapAccountsView, CREATE_IDEMPOTENT_TAG, CREATE_TAG,
};
use crate::state::{BinArrayBitmapExtension, LbPair, LbPairView};
use vstd::prelude::*;

verus! {

/// One hundred percent in basis points.
pub const BASIS_POINT_MAX: u64 = 10_000;

/// Compute unit limit asked for where a swap is submitted at once.
pub const COMPUTE_UNIT_LIMIT: u32 = 1_400_000;

/// What to swap: the pool, the amount paid in, and the direction. The swap
/// sells the pool's first token for its second if `swap_for_y` holds, the
/// second for the first otherwise.
#[derive(Clone, Copy, Debug, PartialEq, Eq)]
pub struct SwapExactInParameters {
    pub lb_pair: Address,
    pub amount_in: u64,
    pub swap_for_y: bool,
}

/// What a look at the caller's destination token account told.
#[derive(Clone, Copy, Debug, PartialEq, Eq, Structural)]
pub enum DestinationProbe {
    /// The look itself failed.
    Failed,
    /// There is no such account.
    NotFound,
    /// The account answered without a balance.
    NoBalance,
    /// The account holds a balance.
    Balance,
}

/// Why no instruction list was composed.
#[derive(Clone, Copy, Debug, PartialEq, Eq, Structural)]
pub enum ComposeError {
    /// The slippage tolerance is above one hundred percent.
    SlippageOutOfRange,
    /// One of the accounts the swap names has no address.
    NoAddress,
}

/// The least output accepted for a quoted output under a slippage tolerance
/// in basis points: the quote less the tolerance, rounded down.
pub open spec fn minimum_output_of(quoted_output: int, slippage_bps: int) -> int {
    quoted_output * (10_000 - slippage_bps) / 10_000
}

/// The least output accepted for `quoted_output` under `slippage_bps`.
pub fn minimum_output(quoted_output: u64, slippage_bps: u64) -> (r: u64)
    requires
        slippage_bps <= BASIS_POINT_MAX,
    ensures
        r == minimum_output_of(quoted_output as int, slippage_bps as int),
        r <= quoted_output,
{
    let kept: u128 = (BASIS_POINT_MAX - slippage_bps) as u128;
    let quoted: u128 = quoted_output as u128;
    let ghost bound: int = 10_000 * (quoted as int);
    assert(quoted * kept <= bound) by (nonlinear_arith)
        requires
            kept <= 10_000,
            quoted >= 0,
            bound == 10_000 * (quoted as int),
    ;
    let scaled: u128 = quoted * kept;
    let kept_part: u128 = scaled / 10_000;
    kept_part as u64
}

/// The least output accepted never exceeds the quote, and equals it only
/// for a tolerance of zero or a quote of zero.
pub proof fn lemma_minimum_output_bounded(quoted_output: int, slippage_bps: int)
    requires
        0 <= quoted_output,
        0 <= slippage_bps <= 10_000,
    ensures
        0 <= minimum_output_of(quoted_output, slippage_bps) <= quoted_output,
        minimum_output_of(quoted_output, slippage_bps) == quoted_output <==> (slippage_bps == 0
            || quoted_output == 0),
{
    let kept = 10_000 - slippage_bps;
    assert(0 <= quoted_output * kept <= quoted_output * 10_000) by (nonlinear_arith)
        requires
            0 <= kept <= 10_000,
            0 <= quoted_output,
    ;
    if slippage_bps > 0 && quoted_output > 0 {
        assert(quoted_output * kept < quoted_output * 10_000) by (nonlinear_arith)
            requires
                0 <= kept < 10_000,
                0 < quoted_output,
        ;
    }
}

/// A greater tolerance never gives a greater least output.
pub proof fn lemma_minimum_output_monotonic(quoted_output: int, lower_bps: int, higher_bps: int)
    requires
        0 <= quoted_output,
        0 <= lower_bps <= higher_bps <= 10_000,
    ensures
        minimum_output_of(quoted_output, higher_bps) <= minimum_output_of(
            quoted_output,
            lower_bps,
        ),
{
    let kept_low = 10_000 - lower_bps;
    let kept_high = 10_000 - higher_bps;
    assert(quoted_output * kept_high <= quoted_output * kept_low) by (nonlinear_arith)
        requires
            kept_high <= kept_low,
            0 <= quoted_output,
    ;
}

/// Whether the destination token account has to be created: always, unless
/// it is known to hold a balance.
pub open spec fn needs_destination(probe: DestinationProbe) -> bool {
    !(probe is Balance)
}

/// Whether the destination token account has to be created.
pub fn destination_needs_creation(probe: DestinationProbe) -> (r: bool)
    ensures
        r == needs_destination(probe),
{
    match probe {
        DestinationProbe::Balance => false,
        _ => true,
    }
}

/// Address of the token account of `owner` for `mint` under
/// `token_program`, if it has one.
pub open spec fn associated_key(owner: Seq<u8>, token_program: Seq<u8>, mint: Seq<u8>) -> Option<
    Seq<u8>,
> {
    program_address_key(
        associated_token_seeds(owner, token_program, mint),
        ASSOCIATED_TOKEN_PROGRAM_ID@,
    )
}

/// The token program given, or the token program where none is given.
pub open spec fn token_program_or_default(token_program: Option<&Address>) -> Seq<u8> {
    match token_program {
        Some(p) => p@,
        None => TOKEN_PROGRAM_ID@,
    }
}

/// What building a creation instruction gives: the one instruction, if the
/// token account has an address; nothing, if it has none.
pub open spec fn creation_outcome(
    funding: Seq<u8>,
    owner: Seq<u8>,
    mint: Seq<u8>,
    token_program: Seq<u8>,
    tag: u8,
) -> Option<Seq<InstructionView>> {
    match associated_key(owner, token_program, mint) {
        Some(associated) => Some(
            seq![
                create_associated_token_account_view(
                    funding,
                    associated,
                    owner,
                    mint,
                    token_program,
                    tag,
                ),
            ],
        ),
        None => None,
    }
}

/// An instruction list that may be missing, as plain values.
pub open spec fn optional_instructions_view(r: Option<Vec<Instruction>>) -> Option<
    Seq<InstructionView>,
> {
    match r {
        Some(v) => Some(instructions_view(v@)),
        None => None,
    }
}

/// The instruction that creates the token account of `owner` for `mint`
/// unless it exists, paid for by `funding`: a list of that one instruction.
/// `None` if that token account has no address.
pub fn create_ata_token_or_not(
    funding: &Address,
    owner: &Address,
    mint: &Address,
    token_program: Option<&Address>,
) -> (r: Option<Vec<Instruction>>)
    ensures
        optional_instructions_view(r) == creation_outcome(
            funding@,
            owner@,
            mint@,
            token_program_or_default(token_program),
            CREATE_IDEMPOTENT_TAG,
        ),
{
    let program = match token_program {
        Some(p) => *p,
        None => token_program_id(),
    };
    match get_associated_token_address_with_program_id(owner, mint, &program) {
        None => None,
        Some(_) => {
            let ix = build_create_idempotent(funding, owner, mint, &program);
            let mut list: Vec<Instruction> = Vec::new();
            list.push(ix);
            assert(instructions_view(list@) =~= seq![ix@]);
            Some(list)
        },
    }
}

/// The instruction that creates the token account of `owner` for `mint`,
/// paid for by `funding`: a list of that one instruction. `None` if that
/// token account has no address.
pub fn create_ata_token(
    funding: &Address,
    owner: &Address,
    mint: &Address,
    token_program: Option<&Address>,
) -> (r: Option<Vec<Instruction>>)
    ensures
        optional_instructions_view(r) == creation_outcome(
            funding@,
            owner@,
            mint@,
            token_program_or_default(token_program),
            CREATE_TAG,
        ),
{
    let program = match token_program {
        Some(p) => *p,
        None => token_program_id(),
    };
    match get_associated_token_address_with_program_id(owner, mint, &program) {
        None => None,
        Some(_) => {
            let ix = build_create(funding, owner, mint, &program);
            let mut list: Vec<Instruction> = Vec::new();
            list.push(ix);
            assert(instructions_view(list@) =~= seq![ix@]);
            Some(list)
        },
    }
}

/// The mint of the token a swap pays in.
pub open spec fn mint_in(pool: LbPairView, swap_for_y: bool) -> Seq<u8> {
    if swap_for_y {
        pool.token_x_mint
    } else {
        pool.token_y_mint
    }
}

/// The mint of the token a swap pays out.
pub open spec fn mint_out(pool: LbPairView, swap_for_y: bool) -> Seq<u8> {
    if swap_for_y {
        pool.token_y_mint
    } else {
        pool.token_x_mint
    }
}

/// The accounts a swap names. The reserves, mints and oracle are the pool's
/// own; the caller's token accounts are those associated with the caller for
/// the two mints; the bitmap extension is the pool's if it has one and the
/// program itself if not; no host fee account is named, the program standing
/// in its place. `None` if one of the derived addresses does not exist.
pub open spec fn swap_accounts_of(
    lb_pair: Seq<u8>,
    pool: LbPairView,
    has_extension: bool,
    user: Seq<u8>,
    swap_for_y: bool,
) -> Option<SwapAccountsView> {
    let token_in = associated_key(user, TOKEN_PROGRAM_ID@, mint_in(pool, swap_for_y));
    let token_out = associated_key(user, TOKEN_PROGRAM_ID@, mint_out(pool, swap_for_y));
    let extension = program_address_key(bitmap_extension_seeds(lb_pair), PROGRAM_ID@);
    let authority = program_address_key(event_authority_seeds(), PROGRAM_ID@);
    if token_in is Some && token_out is Some && authority is Some && (has_extension
        ==> extension is Some) {
        Some(
            SwapAccountsView {
                lb_pair,
                bin_array_bitmap_extension: Some(
                    if has_extension {
                        extension->0
                    } else {
                        PROGRAM_ID@
                    },
                ),
                reserve_x: pool.reserve_x,
                reserve_y: pool.reserve_y,
                user_token_in: token_in->0,
                user_token_out: token_out->0,
                token_x_mint: pool.token_x_mint,
                token_y_mint: pool.token_y_mint,
                oracle: pool.oracle,
                host_fee_in: Some(PROGRAM_ID@),
                user,
                token_x_program: TOKEN_PROGRAM_ID@,
                token_y_program: TOKEN_PROGRAM_ID@,
                event_authority: authority->0,
                program: PROGRAM_ID@,
            },
        )
    } else {
        None
    }
}

/// Accounts that may be missing, as plain values.
pub open spec fn optional_accounts_view(r: Option<SwapAccounts>) -> Option<SwapAccountsView> {
    match r {
        Some(a) => Some(a@),
        None => None,
    }
}

/// Gathers the accounts a swap names.
pub fn resolve_swap_accounts(
    lb_pair: &Address,
    lb_pair_state: &LbPair,
    bitmap_extension: Option<&BinArrayBitmapExtension>,
    user: &Address,
    swap_for_y: bool,
) -> (r: Option<SwapAccounts>)
    ensures
        optional_accounts_view(r) == swap_accounts_of(
            lb_pair@,
            lb_pair_state@,
            bitmap_extension is Some,
            user@,
            swap_for_y,
        ),
{
    let (mint_in, mint_out) = if swap_for_y {
        (lb_pair_state.token_x_mint, lb_pair_state.token_y_mint)
    } else {
        (lb_pair_state.token_y_mint, lb_pair_state.token_x_mint)
    };
    let user_token_in = match get_associated_token_address(user, &mint_in) {
        Some(a) => a,
        None => {
            return None;
        },
    };
    let user_token_out = match get_associated_token_address(user, &mint_out) {
        Some(a) => a,
        None => {
            return None;
        },
    };
    let event_authority = match derive_event_authority() {
        Some((a, _)) => a,
        None => {
            return None;
        },
    };
    let extension = match bitmap_extension {
        None => program_id(),
        Some(_) => match derive_bin_array_bitmap_extension(lb_pair) {
            Some((a, _)) => a,
            None => {
                return None;
            },
        },
    };
    Some(
        SwapAccounts {
            lb_pair: *lb_pair,
            bin_array_bitmap_extension: Some(extension),
            reserve_x: lb_pair_state.reserve_x,
            reserve_y: lb_pair_state.reserve_y,
            user_token_in,
            user_token_out,
            token_x_mint: lb_pair_state.token_x_mint,
            token_y_mint: lb_pair_state.token_y_mint,
            oracle: lb_pair_state.oracle,
            host_fee_in: Some(program_id()),
            user: *user,
            token_x_program: token_program_id(),
            token_y_program: token_program_id(),
            event_authority,
            program: program_id(),
        },
    )
}

/// The instruction list of a swap: what comes first, then the creation of
/// the destination account, then the swap.
pub open spec fn composed(
    first: Seq<InstructionView>,
    creation: Seq<InstructionView>,
    swap: InstructionView,
) -> Seq<InstructionView> {
    first + creation + seq![swap]
}

/// Puts the instruction list of a swap together.
pub fn assemble(first: Vec<Instruction>, creation: Vec<Instruction>, swap: Instruction) -> (v: Vec<
    Instruction,
>)
    ensures
        instructions_view(v@) == composed(
            instructions_view(first@),
            instructions_view(creation@),
            swap@,
        ),
        v@.len() == first@.len() + creation@.len() + 1,
        v@[v@.len() - 1] == swap,
{
    let ghost before = instructions_view(first@);
    let ghost middle = instructions_view(creation@);
    let mut list = first;
    let mut rest = creation;
    list.append(&mut rest);
    list.push(swap);
    assert(instructions_view(list@) =~= composed(before, middle, swap@));
    list
}

/// In a composed list the swap instruction comes last, and every creation
/// instruction stands before it.
pub proof fn lemma_creation_precedes_swap(
    first: Seq<InstructionView>,
    creation: Seq<InstructionView>,
    swap: InstructionView,
)
    ensures
        composed(first, creation, swap).len() == first.len() + creation.len() + 1,
        composed(first, creation, swap).last() == swap,
        forall|i: int|
            0 <= i < creation.len() ==> {
                &&& first.len() + i < composed(first, creation, swap).len() - 1
                &&& composed(first, creation, swap)[first.len() + i] == #[trigger] creation[i]
            },
        forall|i: int|
            0 <= i < first.len() ==> composed(first, creation, swap)[i] == #[trigger] first[i],
{
}

/// The instruction that sets the compute unit limit, where one is asked for.
pub open spec fn budget_instructions(compute_unit_limit: Option<u32>) -> Seq<InstructionView> {
    match compute_unit_limit {
        Some(units) => seq![set_compute_unit_limit_view(units)],
        None => Seq::empty(),
    }
}

/// The instruction that creates the caller's destination token account
/// unless it exists, where the probe calls for it.
pub open spec fn destination_instructions(
    user: Seq<u8>,
    destination: Seq<u8>,
    mint: Seq<u8>,
    probe: DestinationProbe,
) -> Seq<InstructionView> {
    if needs_destination(probe) {
        seq![
            create_associated_token_account_view(
                user,
                destination,
                user,
                mint,
                TOKEN_PROGRAM_ID@,
                CREATE_IDEMPOTENT_TAG,
            ),
        ]
    } else {
        Seq::empty()
    }
}

/// The instruction list of a swap, or why there is none.
///
/// A tolerance above one hundred percent is refused first. Then the
/// accounts are gathered; if one has no address, nothing is composed.
/// Otherwise the list holds, in this order: the compute unit limit, if one
/// is asked for; the creation of the destination token account, if the
/// probe calls for it; and the swap, with the least output accepted and the
/// bin arrays in the order given.
pub open spec fn swap_instructions_of(
    params: SwapExactInParameters,
    user: Seq<u8>,
    pool: LbPairView,
    has_extension: bool,
    bin_arrays: Seq<Address>,
    quoted_output: u64,
    slippage_bps: u64,
    probe: DestinationProbe,
    compute_unit_limit: Option<u32>,
) -> Result<Seq<InstructionView>, ComposeError> {
    if slippage_bps > BASIS_POINT_MAX {
        Err(ComposeError::SlippageOutOfRange)
    } else {
        match swap_accounts_of(params.lb_pair@, pool, has_extension, user, params.swap_for_y) {
            None => Err(ComposeError::NoAddress),
            Some(accounts) => Ok(
                composed(
                    budget_instructions(compute_unit_limit),
                    destination_instructions(
                        user,
                        accounts.user_token_out,
                        mint_out(pool, params.swap_for_y),
                        probe,
                    ),
                    swap_instruction_view(
                        accounts,
                        bin_arrays,
                        params.amount_in,
                        minimum_output_of(quoted_output as int, slippage_bps as int) as u64,
                    ),
                ),
            ),
        }
    }
}

/// Whether an instruction creates an associated token account.
pub open spec fn is_creation(ix: InstructionView) -> bool {
    ix.program_id == ASSOCIATED_TOKEN_PROGRAM_ID@
}

/// Whether an instruction is one of the liquidity-book program.
pub open spec fn is_swap(ix: InstructionView) -> bool {
    ix.program_id == PROGRAM_ID@
}

/// Every instruction list composed for a swap ends with the swap
/// instruction, which is its only one; an instruction that creates a token
/// account stands before it, never after.
pub proof fn lemma_swap_comes_last(
    params: SwapExactInParameters,
    user: Seq<u8>,
    pool: LbPairView,
    has_extension: bool,
    bin_arrays: Seq<Address>,
    quoted_output: u64,
    slippage_bps: u64,
    probe: DestinationProbe,
    compute_unit_limit: Option<u32>,
)
    ensures
        swap_instructions_of(
            params,
            user,
            pool,
            has_extension,
            bin_arrays,
            quoted_output,
            slippage_bps,
            probe,
            compute_unit_limit,
        ) matches Ok(list) ==> {
            &&& list.len() >= 1
            &&& is_swap(list.last())
            &&& forall|i: int| 0 <= i < list.len() - 1 ==> !is_swap(#[trigger] list[i])
            &&& forall|i: int|
                0 <= i < list.len() && is_creation(#[trigger] list[i]) ==> i < list.len() - 1
            &&& needs_destination(probe) ==> list.len() >= 2 && is_creation(list[list.len() - 2])
        },
{
    assert(PROGRAM_ID@[0] == 4);
    assert(ASSOCIATED_TOKEN_PROGRAM_ID@[0] == 140);
    assert(COMPUTE_BUDGET_PROGRAM_ID@[0] == 3);
}

/// The outcome of composing, as plain values.
pub open spec fn compose_outcome(r: Result<Vec<Instruction>, ComposeError>) -> Result<
    Seq<InstructionView>,
    ComposeError,
> {
    match r {
        Ok(v) => Ok(instructions_view(v@)),
        Err(e) => Err(e),
    }
}

/// Composes the instruction list of a swap from what was read of the
/// ledger: the pool, its bitmap extension if it has one, the bin arrays
/// located for the swap, the quoted output, and what the look at the
/// destination token account told.
pub fn compose_swap(
    params: &SwapExactInParameters,
    user: &Address,
    lb_pair_state: &LbPair,
    bitmap_extension: Option<&BinArrayBitmapExtension>,
    bin_arrays_for_swap: &Vec<Address>,
    quoted_output: u64,
    slippage_bps: u64,
    probe: DestinationProbe,
    compute_unit_limit: Option<u32>,
) -> (r: Result<Vec<Instruction>, ComposeError>)
    ensures
        compose_outcome(r) == swap_instructions_of(
            *params,
            user@,
            lb_pair_state@,
            bitmap_extension is Some,
            bin_arrays_for_swap@,
            quoted_output,
            slippage_bps,
            probe,
            compute_unit_limit,
        ),
{
    if slippage_bps > BASIS_POINT_MAX {
        return Err(ComposeError::SlippageOutOfRange);
    }
    let accounts = match resolve_swap_accounts(
        &params.lb_pair,
        lb_pair_state,
        bitmap_extension,
        user,
        params.swap_for_y,
    ) {
        Some(a) => a,
        None => {
            return Err(ComposeError::NoAddress);
        },
    };
    let min_amount_out: u64 = minimum_output(quoted_output, slippage_bps);
    let mut first: Vec<Instruction> = Vec::new();
    match compute_unit_limit {
        Some(units) => {
            let ix = build_set_compute_unit_limit(units);
            first.push(ix);
            assert(instructions_view(first@) =~= budget_instructions(compute_unit_limit));
        },
        None => {
            assert(instructions_view(first@) =~= budget_instructions(compute_unit_limit));
        },
    }
    let user_mint_out = if params.swap_for_y {
        lb_pair_state.token_y_mint
    } else {
        lb_pair_state.token_x_mint
    };
    let ghost wanted = destination_instructions(
        user@,
        accounts@.user_token_out,
        mint_out(lb_pair_state@, params.swap_for_y),
        probe,
    );
    let creation: Vec<Instruction> = if destination_needs_creation(probe) {
        let program = token_program_id();
        match create_ata_token_or_not(user, user, &user_mint_out, Some(&program)) {
            Some(list) => list,
            None => {
                return Err(ComposeError::NoAddress);
            },
        }
    } else {
        let none: Vec<Instruction> = Vec::new();
        assert(instructions_view(none@) =~= wanted);
        none
    };
    let swap = swap_instruction(&accounts, bin_arrays_for_swap, params.amount_in, min_amount_out);
    Ok(assemble(first, creation, swap))
}

/// The instruction list of a swap that the caller will place in a
/// transaction of their own: the creation of the destination token account
/// where the probe calls for it, then the swap.
pub fn swap_exact_in_instructions(
    params: &SwapExactInParameters,
    user: &Address,
    lb_pair_state: &LbPair,
    bitmap_extension: Option<&BinArrayBitmapExtension>,
    bin_arrays_for_swap: &Vec<Address>,
    quoted_output: u64,
    slippage_bps: u64,
    probe: DestinationProbe,
) -> (r: Result<Vec<Instruction>, ComposeError>)
    ensures
        compose_outcome(r) == swap_instructions_of(
            *params,
            user@,
            lb_pair_state@,
            bitmap_extension is Some,
            bin_arrays_for_swap@,
            quoted_output,
            slippage_bps,
            probe,
            None,
        ),
{
    compose_swap(
        params,
        user,
        lb_pair_state,
        bitmap_extension,
        bin_arrays_for_swap,
        quoted_output,
        slippage_bps,
        probe,
        None,
    )
}

/// The instruction list of a swap that is submitted at once: the compute
/// unit limit first, then the creation of the destination token account
/// where the probe calls for it, then the swap.
pub fn swap(
    params: &SwapExactInParameters,
    user: &Address,
    lb_pair_state: &LbPair,
    bitmap_extension: Option<&BinArrayBitmapExtension>,
    bin_arrays_for_swap: &Vec<Address>,
    quoted_output: u64,
    slippage_bps: u64,
    probe: DestinationProbe,
) -> (r: Result<Vec<Instruction>, ComposeError>)
    ensures
        compose_outcome(r) == swap_instructions_of(
            *params,
            user@,
            lb_pair_state@,
            bitmap_extension is Some,
            bin_arrays_for_swap@,
            quoted_output,
            slippage_bps,
            probe,
            Some(COMPUTE_UNIT_LIMIT),
        ),
{
    compose_swap(
        params,
        user,
        lb_pair_state,
        bitmap_extension,
        bin_arrays_for_swap,
        quoted_output,
        slippage_bps,
        probe,
        Some(COMPUTE_UNIT_LIMIT),
    )
}

} // verus!
