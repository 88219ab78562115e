//! The steps of building a swap, one ledger read at a time.
//!
//! Building a swap takes six answers from outside: the pool account, the
//! pool's bitmap extension account if there is one, the accounts of the bin
//! arrays located for the swap, the clock account, a quote for the swap, and
//! a look at the caller's destination token account. A [`SwapBuild`] says
//! which of them it needs next, takes it, and in the end hands over the
//! instruction list. It reads nothing and sends nothing itself.

use crate::address::{
    bitmap_extension_seeds, clock_sysvar_id, derive_bin_array_bitmap_extension,
    program_address_key, Address, CLOCK_SYSVAR_ID, PROGRAM_ID,
};
use crate::clock::{clock_at, decode_clock, unsigned_timestamp, Clock, ClockError, CLOCK_LEN};
use crate::composer::{
    compose_swap, resolve_swap_accounts, swap_accounts_of, swap_instructions_of, ComposeError,
    DestinationProbe, SwapExactInParameters, BASIS_POINT_MAX,
};
use crate::decode::{
    account_view, accounts_view, decode_bin_arrays, decode_lb_pair,
    decode_optional_bitmap_extension, gathered, optional_bitmap_extension, pairs_view,
    resilient_lb_pair, BinArraysError, DecodeError, RecordKind,
};
use crate::instruction::{instructions_view, Instruction, InstructionView};
use crate::locator::{
    extension_view, get_bin_array_pubkeys_for_swap, located_for_swap, LocateError,
};
use crate::state::{
    BinArray, BinArrayBitmapExtension, BinArrayBitmapExtensionView, BinArrayView, LbPair,
    LbPairView,
};
use vstd::prelude::*;

verus! {

/// Number of bin arrays located for a swap.
pub const BIN_ARRAYS_PER_SWAP: u8 = 3;

/// What the caller is asked to do next.
#[derive(Clone, Debug, PartialEq, Eq)]
pub enum Request {
    /// Read the pool account. It must exist.
    ReadPool { address: Address },
    /// Read the bitmap extension account, which may not exist.
    ReadBitmapExtension { address: Address },
    /// Read the bin array accounts, all in one request.
    ReadBinArrays { addresses: Vec<Address> },
    /// Read the clock account.
    ReadClock { address: Address },
    /// Have the swap quoted from what [`SwapBuild::quote_inputs`] gives.
    Quote,
    /// Look at the balance of the caller's destination token account.
    ProbeDestination { address: Address },
    /// Nothing more: here is the instruction list.
    Finished { instructions: Vec<Instruction> },
}

/// What a [`Request`] holds, as plain values.
pub enum RequestView {
    ReadPool { address: Seq<u8> },
    ReadBitmapExtension { address: Seq<u8> },
    ReadBinArrays { addresses: Seq<Address> },
    ReadClock { address: Seq<u8> },
    Quote,
    ProbeDestination { address: Seq<u8> },
    Finished { instructions: Seq<InstructionView> },
}

impl View for Request {
    type V = RequestView;

    open spec fn view(&self) -> RequestView {
        match self {
            Request::ReadPool { address } => RequestView::ReadPool { address: address@ },
            Request::ReadBitmapExtension { address } => RequestView::ReadBitmapExtension {
                address: address@,
            },
            Request::ReadBinArrays { addresses } => RequestView::ReadBinArrays {
                addresses: addresses@,
            },
            Request::ReadClock { address } => RequestView::ReadClock { address: address@ },
            Request::Quote => RequestView::Quote,
            Request::ProbeDestination { address } => RequestView::ProbeDestination {
                address: address@,
            },
            Request::Finished { instructions } => RequestView::Finished {
                instructions: instructions_view(instructions@),
            },
        }
    }
}

/// An answer to a [`Request`].
#[derive(Clone, Debug, PartialEq, Eq)]
pub enum Event {
    /// The data of the pool account.
    Pool { data: Vec<u8> },
    /// The data of the bitmap extension account, or `None` if there is no
    /// such account.
    BitmapExtension { account: Option<Vec<u8>> },
    /// The data of each bin array account asked for, in the order asked,
    /// with `None` for an account that does not exist.
    BinArrays { accounts: Vec<Option<Vec<u8>>> },
    /// The data of the clock account.
    Clock { data: Vec<u8> },
    /// The output quoted for the swap.
    Quoted { amount_out: u64 },
    /// What the look at the destination token account told.
    Destination { probe: DestinationProbe },
}

/// What an [`Event`] holds, as plain values.
pub enum EventView {
    Pool { data: Seq<u8> },
    BitmapExtension { account: Option<Seq<u8>> },
    BinArrays { accounts: Seq<Option<Seq<u8>>> },
    Clock { data: Seq<u8> },
    Quoted { amount_out: u64 },
    Destination { probe: DestinationProbe },
}

impl View for Event {
    type V = EventView;

    open spec fn view(&self) -> EventView {
        match self {
            Event::Pool { data } => EventView::Pool { data: data@ },
            Event::BitmapExtension { account } => EventView::BitmapExtension {
                account: account_view(*account),
            },
            Event::BinArrays { accounts } => EventView::BinArrays {
                accounts: accounts_view(accounts@),
            },
            Event::Clock { data } => EventView::Clock { data: data@ },
            Event::Quoted { amount_out } => EventView::Quoted { amount_out: *amount_out },
            Event::Destination { probe } => EventView::Destination { probe: *probe },
        }
    }
}

/// Why a build ended without an instruction list.
#[derive(Clone, Copy, Debug, PartialEq, Eq, Structural)]
pub enum BuildError {
    /// The event does not answer the request that was made.
    UnexpectedEvent,
    /// The pool or its bitmap extension did not decode.
    Decode { kind: RecordKind, error: DecodeError },
    /// The pool's bitmap extension has no address.
    NoExtensionAddress,
    /// A bin array has no address.
    Locate(LocateError),
    /// There are more or fewer bin array accounts than were asked for.
    AccountCount,
    /// A bin array account is missing or did not decode.
    BinArrays(BinArraysError),
    /// The clock did not decode.
    Clock(ClockError),
    /// The instruction list could not be composed.
    Compose(ComposeError),
}

#[derive(Debug)]
enum Stage {
    Pool,
    BitmapExtension { pool: LbPair },
    BinArrays { pool: LbPair, extension: Option<BinArrayBitmapExtension>, keys: Vec<Address> },
    Clock {
        pool: LbPair,
        extension: Option<BinArrayBitmapExtension>,
        keys: Vec<Address>,
        bin_arrays: Vec<(Address, BinArray)>,
    },
    Quote {
        pool: LbPair,
        extension: Option<BinArrayBitmapExtension>,
        keys: Vec<Address>,
        bin_arrays: Vec<(Address, BinArray)>,
        clock: Clock,
    },
    Destination {
        pool: LbPair,
        extension: Option<BinArrayBitmapExtension>,
        keys: Vec<Address>,
        quoted_output: u64,
    },
    Finished,
}

/// How far a build has come, with what it has learnt so far.
pub enum StageView {
    /// Waiting for the pool account.
    Pool,
    /// Waiting for the bitmap extension account.
    BitmapExtension { pool: LbPairView },
    /// Waiting for the bin array accounts at `keys`.
    BinArrays {
        pool: LbPairView,
        extension: Option<BinArrayBitmapExtensionView>,
        keys: Seq<Address>,
    },
    /// Waiting for the clock account.
    Clock {
        pool: LbPairView,
        extension: Option<BinArrayBitmapExtensionView>,
        keys: Seq<Address>,
        bin_arrays: Seq<(Address, BinArrayView)>,
    },
    /// Waiting for the quote.
    Quote {
        pool: LbPairView,
        extension: Option<BinArrayBitmapExtensionView>,
        keys: Seq<Address>,
        bin_arrays: Seq<(Address, BinArrayView)>,
        clock: Clock,
    },
    /// Waiting for the look at the destination token account.
    Destination {
        pool: LbPairView,
        extension: Option<BinArrayBitmapExtensionView>,
        keys: Seq<Address>,
        quoted_output: u64,
    },
    /// The instruction list was handed over.
    Finished,
}

/// A bitmap extension that may be missing, as plain values.
pub open spec fn owned_extension_view(extension: Option<BinArrayBitmapExtension>) -> Option<
    BinArrayBitmapExtensionView,
> {
    match extension {
        Some(x) => Some(x@),
        None => None,
    }
}

impl Stage {
    spec fn view(&self) -> StageView {
        match self {
            Stage::Pool => StageView::Pool,
            Stage::BitmapExtension { pool } => StageView::BitmapExtension { pool: pool@ },
            Stage::BinArrays { pool, extension, keys } => StageView::BinArrays {
                pool: pool@,
                extension: owned_extension_view(*extension),
                keys: keys@,
            },
            Stage::Clock { pool, extension, keys, bin_arrays } => StageView::Clock {
                pool: pool@,
                extension: owned_extension_view(*extension),
                keys: keys@,
                bin_arrays: pairs_view(bin_arrays@),
            },
            Stage::Quote { pool, extension, keys, bin_arrays, clock } => StageView::Quote {
                pool: pool@,
                extension: owned_extension_view(*extension),
                keys: keys@,
                bin_arrays: pairs_view(bin_arrays@),
                clock: *clock,
            },
            Stage::Destination { pool, extension, keys, quoted_output } => StageView::Destination {
                pool: pool@,
                extension: owned_extension_view(*extension),
                keys: keys@,
                quoted_output: *quoted_output,
            },
            Stage::Finished => StageView::Finished,
        }
    }
}

/// A swap being built.
#[derive(Debug)]
pub struct SwapBuild {
    params: SwapExactInParameters,
    user: Address,
    slippage_bps: u64,
    compute_unit_limit: Option<u32>,
    stage: Stage,
}

/// What a [`SwapBuild`] holds, as plain values.
pub struct SwapBuildView {
    pub params: SwapExactInParameters,
    pub user: Seq<u8>,
    pub slippage_bps: u64,
    pub compute_unit_limit: Option<u32>,
    pub stage: StageView,
}

impl View for SwapBuild {
    type V = SwapBuildView;

    closed spec fn view(&self) -> SwapBuildView {
        SwapBuildView {
            params: self.params,
            user: self.user@,
            slippage_bps: self.slippage_bps,
            compute_unit_limit: self.compute_unit_limit,
            stage: self.stage.view(),
        }
    }
}

impl SwapBuildView {
    /// The same build at another stage.
    pub open spec fn at(self, stage: StageView) -> SwapBuildView {
        SwapBuildView {
            params: self.params,
            user: self.user,
            slippage_bps: self.slippage_bps,
            compute_unit_limit: self.compute_unit_limit,
            stage,
        }
    }
}

/// An outcome of a step: the build and the next request, or an error.
pub type Step = Result<(SwapBuildView, RequestView), BuildError>;

/// How a build starts: with a tolerance of at most one hundred percent, by
/// asking for the pool account.
pub open spec fn begins(
    params: SwapExactInParameters,
    user: Seq<u8>,
    slippage_bps: u64,
    compute_unit_limit: Option<u32>,
    after: Step,
) -> bool {
    if slippage_bps > BASIS_POINT_MAX {
        after == Err::<(SwapBuildView, RequestView), BuildError>(
            BuildError::Compose(ComposeError::SlippageOutOfRange),
        )
    } else {
        after == Ok::<(SwapBuildView, RequestView), BuildError>(
            (
                SwapBuildView {
                    params,
                    user,
                    slippage_bps,
                    compute_unit_limit,
                    stage: StageView::Pool,
                },
                RequestView::ReadPool { address: params.lb_pair@ },
            ),
        )
    }
}

/// The step taken on the pool account: the pool is decoded, and its bitmap
/// extension account is asked for.
pub open spec fn pool_step(before: SwapBuildView, data: Seq<u8>, after: Step) -> bool {
    match resilient_lb_pair(data) {
        Err(error) => after == Err::<(SwapBuildView, RequestView), BuildError>(
            BuildError::Decode { kind: RecordKind::LbPair, error },
        ),
        Ok(pool) => match program_address_key(
            bitmap_extension_seeds(before.params.lb_pair@),
            PROGRAM_ID@,
        ) {
            None => after == Err::<(SwapBuildView, RequestView), BuildError>(
                BuildError::NoExtensionAddress,
            ),
            Some(address) => after == Ok::<(SwapBuildView, RequestView), BuildError>(
                (
                    before.at(StageView::BitmapExtension { pool }),
                    RequestView::ReadBitmapExtension { address },
                ),
            ),
        },
    }
}

/// The step taken on the bitmap extension account: it is decoded if it
/// exists, the bin arrays of the swap are located, and their accounts are
/// asked for.
pub open spec fn extension_step(
    before: SwapBuildView,
    pool: LbPairView,
    data: Option<Seq<u8>>,
    after: Step,
) -> bool {
    match optional_bitmap_extension(data) {
        Err(error) => after == Err::<(SwapBuildView, RequestView), BuildError>(
            BuildError::Decode { kind: RecordKind::BitmapExtension, error },
        ),
        Ok(extension) => match after {
            Ok((build, RequestView::ReadBinArrays { addresses })) => {
                &&& build == before.at(StageView::BinArrays { pool, extension, keys: addresses })
                &&& located_for_swap(
                    before.params.lb_pair@,
                    pool.bin_array_bitmap,
                    pool.active_id,
                    extension,
                    before.params.swap_for_y,
                    BIN_ARRAYS_PER_SWAP as nat,
                    Ok(addresses),
                )
            },
            Err(BuildError::Locate(e)) => located_for_swap(
                before.params.lb_pair@,
                pool.bin_array_bitmap,
                pool.active_id,
                extension,
                before.params.swap_for_y,
                BIN_ARRAYS_PER_SWAP as nat,
                Err(e),
            ),
            _ => false,
        },
    }
}

/// The step taken on the bin array accounts: there must be one for each
/// address asked for, and each must exist and decode; the clock account is
/// asked for.
pub open spec fn bin_arrays_step(
    before: SwapBuildView,
    pool: LbPairView,
    extension: Option<BinArrayBitmapExtensionView>,
    keys: Seq<Address>,
    accounts: Seq<Option<Seq<u8>>>,
    after: Step,
) -> bool {
    if accounts.len() != keys.len() {
        after == Err::<(SwapBuildView, RequestView), BuildError>(BuildError::AccountCount)
    } else {
        match after {
            Ok((build, RequestView::ReadClock { address })) => {
                &&& address == CLOCK_SYSVAR_ID@
                &&& build.stage matches StageView::Clock {
                    pool: same_pool,
                    extension: same_extension,
                    keys: same_keys,
                    bin_arrays,
                }
                &&& build == before.at(build.stage)
                &&& same_pool == pool
                &&& same_extension == extension
                &&& same_keys == keys
                &&& gathered(keys, accounts, Ok(bin_arrays))
            },
            Err(BuildError::BinArrays(e)) => gathered(keys, accounts, Err(e)),
            _ => false,
        }
    }
}

/// The step taken on the clock account: the clock is decoded, and a quote is
/// asked for.
pub open spec fn clock_step(
    before: SwapBuildView,
    pool: LbPairView,
    extension: Option<BinArrayBitmapExtensionView>,
    keys: Seq<Address>,
    bin_arrays: Seq<(Address, BinArrayView)>,
    data: Seq<u8>,
    after: Step,
) -> bool {
    if data.len() < CLOCK_LEN {
        after == Err::<(SwapBuildView, RequestView), BuildError>(
            BuildError::Clock(ClockError::Malformed),
        )
    } else {
        after == Ok::<(SwapBuildView, RequestView), BuildError>(
            (
                before.at(
                    StageView::Quote { pool, extension, keys, bin_arrays, clock: clock_at(data) },
                ),
                RequestView::Quote,
            ),
        )
    }
}

/// The step taken on the quote: the accounts of the swap are gathered, and a
/// look at the destination token account is asked for.
pub open spec fn quote_step(
    before: SwapBuildView,
    pool: LbPairView,
    extension: Option<BinArrayBitmapExtensionView>,
    keys: Seq<Address>,
    amount_out: u64,
    after: Step,
) -> bool {
    match swap_accounts_of(
        before.params.lb_pair@,
        pool,
        extension is Some,
        before.user,
        before.params.swap_for_y,
    ) {
        None => after == Err::<(SwapBuildView, RequestView), BuildError>(
            BuildError::Compose(ComposeError::NoAddress),
        ),
        Some(accounts) => after == Ok::<(SwapBuildView, RequestView), BuildError>(
            (
                before.at(
                    StageView::Destination { pool, extension, keys, quoted_output: amount_out },
                ),
                RequestView::ProbeDestination { address: accounts.user_token_out },
            ),
        ),
    }
}

/// The last step, taken on the look at the destination token account: the
/// instruction list is composed and handed over.
pub open spec fn destination_step(
    before: SwapBuildView,
    pool: LbPairView,
    extension: Option<BinArrayBitmapExtensionView>,
    keys: Seq<Address>,
    quoted_output: u64,
    probe: DestinationProbe,
    after: Step,
) -> bool {
    match swap_instructions_of(
        before.params,
        before.user,
        pool,
        extension is Some,
        keys,
        quoted_output,
        before.slippage_bps,
        probe,
        before.compute_unit_limit,
    ) {
        Err(e) => after == Err::<(SwapBuildView, RequestView), BuildError>(BuildError::Compose(e)),
        Ok(instructions) => after == Ok::<(SwapBuildView, RequestView), BuildError>(
            (before.at(StageView::Finished), RequestView::Finished { instructions }),
        ),
    }
}

/// What a build does with an event: the step of its stage if the event
/// answers the request of that stage, and `UnexpectedEvent` if not.
pub open spec fn steps_to(before: SwapBuildView, event: EventView, after: Step) -> bool {
    match (before.stage, event) {
        (StageView::Pool, EventView::Pool { data }) => pool_step(before, data, after),
        (StageView::BitmapExtension { pool }, EventView::BitmapExtension { account }) => {
            extension_step(before, pool, account, after)
        },
        (StageView::BinArrays { pool, extension, keys }, EventView::BinArrays { accounts }) => {
            bin_arrays_step(before, pool, extension, keys, accounts, after)
        },
        (StageView::Clock { pool, extension, keys, bin_arrays }, EventView::Clock { data }) => {
            clock_step(before, pool, extension, keys, bin_arrays, data, after)
        },
        (
            StageView::Quote { pool, extension, keys, bin_arrays, clock },
            EventView::Quoted { amount_out },
        ) => quote_step(before, pool, extension, keys, amount_out, after),
        (
            StageView::Destination { pool, extension, keys, quoted_output },
            EventView::Destination { probe },
        ) => destination_step(before, pool, extension, keys, quoted_output, probe, after),
        _ => after == Err::<(SwapBuildView, RequestView), BuildError>(BuildError::UnexpectedEvent),
    }
}

/// The outcome of a step, as plain values.
pub open spec fn step_view(r: Result<(SwapBuild, Request), BuildError>) -> Step {
    match r {
        Ok((build, request)) => Ok((build@, request@)),
        Err(e) => Err(e),
    }
}

fn copy_addresses(v: &Vec<Address>) -> (r: Vec<Address>)
    ensures
        r@ == v@,
{
    let mut out: Vec<Address> = Vec::new();
    let mut i: usize = 0;
    while i < v.len()
        invariant
            i <= v@.len(),
            out@.len() == i,
            forall|k: int| 0 <= k < i ==> out@[k] == v@[k],
        decreases v@.len() - i,
    {
        out.push(v[i]);
        i = i + 1;
    }
    assert(out@ =~= v@);
    out
}

/// What a quote is made from.
#[derive(Clone, Copy, Debug)]
pub struct QuoteInputs<'a> {
    pub lb_pair: Address,
    pub lb_pair_state: &'a LbPair,
    pub amount_in: u64,
    pub swap_for_y: bool,
    pub bin_arrays: &'a Vec<(Address, BinArray)>,
    pub bitmap_extension: Option<&'a BinArrayBitmapExtension>,
    pub unix_timestamp: u64,
    pub slot: u64,
}

impl SwapBuild {
    /// Starts a build.
    pub fn begin(
        params: SwapExactInParameters,
        user: Address,
        slippage_bps: u64,
        compute_unit_limit: Option<u32>,
    ) -> (r: Result<(SwapBuild, Request), BuildError>)
        ensures
            begins(params, user@, slippage_bps, compute_unit_limit, step_view(r)),
            r matches Ok((build, _)) ==> consistent(build@),
    {
        if slippage_bps > BASIS_POINT_MAX {
            return Err(BuildError::Compose(ComposeError::SlippageOutOfRange));
        }
        let request = Request::ReadPool { address: params.lb_pair };
        let stage = Stage::Pool;
        Ok((SwapBuild { params, user, slippage_bps, compute_unit_limit, stage }, request))
    }

    /// What the quote asked for is made from: the pool and its address, the
    /// amount and direction of the swap, the bin arrays read for it with
    /// their addresses, the bitmap extension if there is one, and the
    /// clock's timestamp and slot. `None` unless a quote is asked for.
    pub fn quote_inputs(&self) -> (r: Option<QuoteInputs<'_>>)
        ensures
            match self@.stage {
                StageView::Quote { pool, extension, keys, bin_arrays, clock } => {
                    &&& r matches Some(q)
                    &&& q.lb_pair == self@.params.lb_pair
                    &&& q.lb_pair_state@ == pool
                    &&& q.amount_in == self@.params.amount_in
                    &&& q.swap_for_y == self@.params.swap_for_y
                    &&& pairs_view(q.bin_arrays@) == bin_arrays
                    &&& extension_view(q.bitmap_extension) == extension
                    &&& q.unix_timestamp == unsigned_timestamp(clock.unix_timestamp as int)
                    &&& q.slot == clock.slot
                },
                _ => r is None,
            },
    {
        match &self.stage {
            Stage::Quote { pool, extension, keys, bin_arrays, clock } => {
                let (unix_timestamp, slot) = clock.quote_inputs();
                Some(
                    QuoteInputs {
                        lb_pair: self.params.lb_pair,
                        lb_pair_state: pool,
                        amount_in: self.params.amount_in,
                        swap_for_y: self.params.swap_for_y,
                        bin_arrays,
                        bitmap_extension: extension.as_ref(),
                        unix_timestamp,
                        slot,
                    },
                )
            },
            _ => None,
        }
    }

    /// Takes the answer to the last request and says what to do next.
    #[verifier::rlimit(30)]
    pub fn advance(self, event: Event) -> (r: Result<(SwapBuild, Request), BuildError>)
        ensures
            steps_to(self@, event@, step_view(r)),
            consistent(self@) ==> (r matches Ok((build, _)) ==> consistent(build@)),
    {
        let SwapBuild { params, user, slippage_bps, compute_unit_limit, stage } = self;
        match stage {
            Stage::Pool => match event {
                Event::Pool { data } => {
                    let pool = match decode_lb_pair(data.as_slice()) {
                        Ok(p) => p,
                        Err(error) => {
                            return Err(BuildError::Decode { kind: RecordKind::LbPair, error });
                        },
                    };
                    let address = match derive_bin_array_bitmap_extension(&params.lb_pair) {
                        Some((a, _)) => a,
                        None => {
                            return Err(BuildError::NoExtensionAddress);
                        },
                    };
                    let stage = Stage::BitmapExtension { pool };
                    Ok(
                        (
                            SwapBuild { params, user, slippage_bps, compute_unit_limit, stage },
                            Request::ReadBitmapExtension { address },
                        ),
                    )
                },
                _ => Err(BuildError::UnexpectedEvent),
            },
            Stage::BitmapExtension { pool } => match event {
                Event::BitmapExtension { account } => {
                    let found = match &account {
                        Some(bytes) => decode_optional_bitmap_extension(Some(bytes.as_slice())),
                        None => decode_optional_bitmap_extension(None),
                    };
                    let extension = match found {
                        Ok(x) => x,
                        Err(error) => {
                            return Err(
                                BuildError::Decode { kind: RecordKind::BitmapExtension, error },
                            );
                        },
                    };
                    let located = get_bin_array_pubkeys_for_swap(
                        &params.lb_pair,
                        &pool,
                        extension.as_ref(),
                        params.swap_for_y,
                        BIN_ARRAYS_PER_SWAP,
                    );
                    let keys = match located {
                        Ok(keys) => keys,
                        Err(e) => {
                            return Err(BuildError::Locate(e));
                        },
                    };
                    let addresses = copy_addresses(&keys);
                    let stage = Stage::BinArrays { pool, extension, keys };
                    Ok(
                        (
                            SwapBuild { params, user, slippage_bps, compute_unit_limit, stage },
                            Request::ReadBinArrays { addresses },
                        ),
                    )
                },
                _ => Err(BuildError::UnexpectedEvent),
            },
            Stage::BinArrays { pool, extension, keys } => match event {
                Event::BinArrays { accounts } => {
                    if accounts.len() != keys.len() {
                        return Err(BuildError::AccountCount);
                    }
                    let bin_arrays = match decode_bin_arrays(&keys, &accounts) {
                        Ok(pairs) => pairs,
                        Err(e) => {
                            return Err(BuildError::BinArrays(e));
                        },
                    };
                    let stage = Stage::Clock { pool, extension, keys, bin_arrays };
                    Ok(
                        (
                            SwapBuild { params, user, slippage_bps, compute_unit_limit, stage },
                            Request::ReadClock { address: clock_sysvar_id() },
                        ),
                    )
                },
                _ => Err(BuildError::UnexpectedEvent),
            },
            Stage::Clock { pool, extension, keys, bin_arrays } => match event {
                Event::Clock { data } => {
                    let clock = match decode_clock(data.as_slice()) {
                        Ok(c) => c,
                        Err(e) => {
                            return Err(BuildError::Clock(e));
                        },
                    };
                    let stage = Stage::Quote { pool, extension, keys, bin_arrays, clock };
                    Ok(
                        (
                            SwapBuild { params, user, slippage_bps, compute_unit_limit, stage },
                            Request::Quote,
                        ),
                    )
                },
                _ => Err(BuildError::UnexpectedEvent),
            },
            Stage::Quote { pool, extension, keys, bin_arrays, clock } => match event {
                Event::Quoted { amount_out } => {
                    let accounts = match resolve_swap_accounts(
                        &params.lb_pair,
                        &pool,
                        extension.as_ref(),
                        &user,
                        params.swap_for_y,
                    ) {
                        Some(a) => a,
                        None => {
                            return Err(BuildError::Compose(ComposeError::NoAddress));
                        },
                    };
                    let stage = Stage::Destination {
                        pool,
                        extension,
                        keys,
                        quoted_output: amount_out,
                    };
                    Ok(
                        (
                            SwapBuild { params, user, slippage_bps, compute_unit_limit, stage },
                            Request::ProbeDestination { address: accounts.user_token_out },
                        ),
                    )
                },
                _ => Err(BuildError::UnexpectedEvent),
            },
            Stage::Destination { pool, extension, keys, quoted_output } => match event {
                Event::Destination { probe } => {
                    let composed = compose_swap(
                        &params,
                        &user,
                        &pool,
                        extension.as_ref(),
                        &keys,
                        quoted_output,
                        slippage_bps,
                        probe,
                        compute_unit_limit,
                    );
                    let instructions = match composed {
                        Ok(list) => list,
                        Err(e) => {
                            return Err(BuildError::Compose(e));
                        },
                    };
                    let stage = Stage::Finished;
                    Ok(
                        (
                            SwapBuild { params, user, slippage_bps, compute_unit_limit, stage },
                            Request::Finished { instructions },
                        ),
                    )
                },
                _ => Err(BuildError::UnexpectedEvent),
            },
            Stage::Finished => Err(BuildError::UnexpectedEvent),
        }
    }
}

/// Whether what a build has learnt hangs together: the tolerance is at most
/// one hundred percent; the addresses it keeps are those of the bin arrays
/// located for the swap in the pool and extension it decoded; the bin arrays
/// it keeps are paired with those addresses, in their order; and once it
/// asks for a look at the destination account, every account of the swap
/// has an address.
pub open spec fn consistent(build: SwapBuildView) -> bool {
    &&& build.slippage_bps <= BASIS_POINT_MAX
    &&& match build.stage {
        StageView::Pool => true,
        StageView::BitmapExtension { pool } => true,
        StageView::BinArrays { pool, extension, keys } => keys_are_located(
            build,
            pool,
            extension,
            keys,
        ),
        StageView::Clock { pool, extension, keys, bin_arrays } => {
            &&& keys_are_located(build, pool, extension, keys)
            &&& pairs_follow_keys(keys, bin_arrays)
        },
        StageView::Quote { pool, extension, keys, bin_arrays, clock } => {
            &&& keys_are_located(build, pool, extension, keys)
            &&& pairs_follow_keys(keys, bin_arrays)
        },
        StageView::Destination { pool, extension, keys, quoted_output } => {
            &&& keys_are_located(build, pool, extension, keys)
            &&& swap_accounts_of(
                build.params.lb_pair@,
                pool,
                extension is Some,
                build.user,
                build.params.swap_for_y,
            ) is Some
        },
        StageView::Finished => true,
    }
}

/// Whether `keys` are the addresses of the bin arrays located for the swap.
pub open spec fn keys_are_located(
    build: SwapBuildView,
    pool: LbPairView,
    extension: Option<BinArrayBitmapExtensionView>,
    keys: Seq<Address>,
) -> bool {
    located_for_swap(
        build.params.lb_pair@,
        pool.bin_array_bitmap,
        pool.active_id,
        extension,
        build.params.swap_for_y,
        BIN_ARRAYS_PER_SWAP as nat,
        Ok(keys),
    )
}

/// Whether the bin arrays are paired with `keys`, one for one and in order.
pub open spec fn pairs_follow_keys(
    keys: Seq<Address>,
    bin_arrays: Seq<(Address, BinArrayView)>,
) -> bool {
    &&& bin_arrays.len() == keys.len()
    &&& forall|i: int| 0 <= i < keys.len() ==> (#[trigger] bin_arrays[i]).0 == keys[i]
}

/// A build starts consistent.
pub proof fn lemma_begin_is_consistent(
    params: SwapExactInParameters,
    user: Seq<u8>,
    slippage_bps: u64,
    compute_unit_limit: Option<u32>,
    after: Step,
)
    requires
        begins(params, user, slippage_bps, compute_unit_limit, after),
    ensures
        after matches Ok((build, _)) ==> consistent(build),
{
}

/// Every step keeps a build consistent.
pub proof fn lemma_step_keeps_consistent(before: SwapBuildView, event: EventView, after: Step)
    requires
        consistent(before),
        steps_to(before, event, after),
    ensures
        after matches Ok((build, _)) ==> consistent(build),
{
}

/// The last step of a consistent build does not fail: it hands over the
/// instruction list composed from the pool and extension the build decoded,
/// the bin arrays it located, and the quote it was given.
pub proof fn lemma_last_step_finishes(
    before: SwapBuildView,
    probe: DestinationProbe,
    after: Step,
)
    requires
        consistent(before),
        before.stage is Destination,
        steps_to(before, EventView::Destination { probe }, after),
    ensures
        ({
            &&& after matches Ok((build, RequestView::Finished { instructions }))
            &&& build.stage is Finished
            &&& before.stage matches StageView::Destination { pool, extension, keys, quoted_output }
            &&& keys_are_located(before, pool, extension, keys)
            &&& swap_instructions_of(
                before.params,
                before.user,
                pool,
                extension is Some,
                keys,
                quoted_output,
                before.slippage_bps,
                probe,
                before.compute_unit_limit,
            ) == Ok::<Seq<InstructionView>, ComposeError>(instructions)
        }),
{
}

} // verus!
