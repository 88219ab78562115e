//! Decoding of account records.
//!
//! A record can be read in two ways. The canonical reading accepts a buffer
//! only if it starts with the record's discriminator; the raw reading takes
//! the fields from their positions and does not look at the discriminator.
//! Both demand the record's exact length, and both give the same record
//! where both succeed. The decoders named after a record alone prefer the
//! canonical reading and fall back to the raw one.

use crate::address::Address;
use crate::layout::{
    bin_array_at, bitmap_extension_at, lb_pair_at, lemma_bin_array_at_is_lossless,
    lemma_bitmap_extension_at_is_lossless, lemma_lb_pair_at_is_lossless, read_bin_array,
    read_bitmap_extension, read_lb_pair, BIN_ARRAY_LEN, BITMAP_EXTENSION_LEN, LB_PAIR_LEN,
};
use crate::state::{
    BinArray, BinArrayBitmapExtension, BinArrayBitmapExtensionView, BinArrayView, LbPair,
    LbPairView,
};
use vstd::prelude::*;

verus! {

/// Why a buffer was not decoded.
#[derive(Clone, Copy, Debug, PartialEq, Eq, Structural)]
pub enum DecodeError {
    /// The buffer does not have the record's exact length.
    LengthMismatch,
    /// The buffer does not start with the record's discriminator.
    DiscriminatorMismatch,
}

/// The kinds of record this library decodes.
#[derive(Clone, Copy, Debug, PartialEq, Eq, Structural)]
pub enum RecordKind {
    LbPair,
    BinArray,
    BitmapExtension,
}

/// Discriminator of a pool account.
pub const LB_PAIR_DISCRIMINATOR: [u8; 8] = [33, 11, 49, 98, 181, 101, 177, 13];

/// Discriminator of a bin array account.
pub const BIN_ARRAY_DISCRIMINATOR: [u8; 8] = [92, 142, 92, 220, 5, 148, 70, 181];

/// Discriminator of a bitmap extension account.
pub const BITMAP_EXTENSION_DISCRIMINATOR: [u8; 8] = [80, 111, 124, 113, 55, 237, 18, 5];

impl RecordKind {
    /// The exact length of an account of this kind.
    pub open spec fn account_len(self) -> nat {
        match self {
            RecordKind::LbPair => LB_PAIR_LEN as nat,
            RecordKind::BinArray => BIN_ARRAY_LEN as nat,
            RecordKind::BitmapExtension => BITMAP_EXTENSION_LEN as nat,
        }
    }

    /// The eight bytes an account of this kind starts with.
    pub open spec fn tag(self) -> Seq<u8> {
        match self {
            RecordKind::LbPair => LB_PAIR_DISCRIMINATOR@,
            RecordKind::BinArray => BIN_ARRAY_DISCRIMINATOR@,
            RecordKind::BitmapExtension => BITMAP_EXTENSION_DISCRIMINATOR@,
        }
    }

    /// The exact length of an account of this kind.
    pub fn expected_len(self) -> (n: usize)
        ensures
            n == self.account_len(),
    {
        match self {
            RecordKind::LbPair => LB_PAIR_LEN,
            RecordKind::BinArray => BIN_ARRAY_LEN,
            RecordKind::BitmapExtension => BITMAP_EXTENSION_LEN,
        }
    }

    /// The eight bytes an account of this kind starts with.
    pub fn discriminator(self) -> (d: [u8; 8])
        ensures
            d@ == self.tag(),
    {
        match self {
            RecordKind::LbPair => LB_PAIR_DISCRIMINATOR,
            RecordKind::BinArray => BIN_ARRAY_DISCRIMINATOR,
            RecordKind::BitmapExtension => BITMAP_EXTENSION_DISCRIMINATOR,
        }
    }
}

/// Whether the raw reading accepts `b` as a record of `kind`.
pub open spec fn raw_check(kind: RecordKind, b: Seq<u8>) -> Result<(), DecodeError> {
    if b.len() != kind.account_len() {
        Err(DecodeError::LengthMismatch)
    } else {
        Ok(())
    }
}

/// Whether the canonical reading accepts `b` as a record of `kind`.
pub open spec fn canonical_check(kind: RecordKind, b: Seq<u8>) -> Result<(), DecodeError> {
    if b.len() != kind.account_len() {
        Err(DecodeError::LengthMismatch)
    } else if b.subrange(0, 8) != kind.tag() {
        Err(DecodeError::DiscriminatorMismatch)
    } else {
        Ok(())
    }
}

/// Whether either reading accepts `b` as a record of `kind`: the canonical
/// one first, the raw one where that fails.
pub open spec fn resilient_check(kind: RecordKind, b: Seq<u8>) -> Result<(), DecodeError> {
    match canonical_check(kind, b) {
        Ok(()) => Ok(()),
        Err(_) => raw_check(kind, b),
    }
}

/// Checks what the raw reading demands of `b`: the exact length.
pub fn check_raw(kind: RecordKind, b: &[u8]) -> (r: Result<(), DecodeError>)
    ensures
        r == raw_check(kind, b@),
{
    if b.len() != kind.expected_len() {
        Err(DecodeError::LengthMismatch)
    } else {
        Ok(())
    }
}

/// Checks what the canonical reading demands of `b`: the exact length,
/// then the discriminator.
pub fn check_canonical(kind: RecordKind, b: &[u8]) -> (r: Result<(), DecodeError>)
    ensures
        r == canonical_check(kind, b@),
{
    if b.len() != kind.expected_len() {
        return Err(DecodeError::LengthMismatch);
    }
    let tag = kind.discriminator();
    let mut i: usize = 0;
    while i < 8
        invariant
            i <= 8,
            b.len() == kind.account_len(),
            tag@ == kind.tag(),
            forall|k: int| 0 <= k < i ==> b@[k] == tag@[k],
        decreases 8 - i,
    {
        if b[i] != tag[i] {
            assert(b@.subrange(0, 8)[i as int] != kind.tag()[i as int]);
            return Err(DecodeError::DiscriminatorMismatch);
        }
        i = i + 1;
    }
    assert(b@.subrange(0, 8) =~= kind.tag());
    Ok(())
}

/// Checks whether either reading accepts `b`.
pub fn check_resilient(kind: RecordKind, b: &[u8]) -> (r: Result<(), DecodeError>)
    ensures
        r == resilient_check(kind, b@),
{
    match check_canonical(kind, b) {
        Ok(()) => Ok(()),
        Err(_) => check_raw(kind, b),
    }
}

/// The pool that the raw reading finds in `b`.
pub open spec fn raw_lb_pair(b: Seq<u8>) -> Result<LbPairView, DecodeError> {
    match raw_check(RecordKind::LbPair, b) {
        Ok(()) => Ok(lb_pair_at(b, 8)),
        Err(e) => Err(e),
    }
}

/// The pool that the canonical reading finds in `b`.
pub open spec fn canonical_lb_pair(b: Seq<u8>) -> Result<LbPairView, DecodeError> {
    match canonical_check(RecordKind::LbPair, b) {
        Ok(()) => Ok(lb_pair_at(b, 8)),
        Err(e) => Err(e),
    }
}

/// The pool decoded from `b`: the canonical reading where it succeeds, else
/// the raw one.
pub open spec fn resilient_lb_pair(b: Seq<u8>) -> Result<LbPairView, DecodeError> {
    match canonical_lb_pair(b) {
        Ok(p) => Ok(p),
        Err(_) => raw_lb_pair(b),
    }
}

/// The bin array that the raw reading finds in `b`.
pub open spec fn raw_bin_array(b: Seq<u8>) -> Result<BinArrayView, DecodeError> {
    match raw_check(RecordKind::BinArray, b) {
        Ok(()) => Ok(bin_array_at(b)),
        Err(e) => Err(e),
    }
}

/// The bin array that the canonical reading finds in `b`.
pub open spec fn canonical_bin_array(b: Seq<u8>) -> Result<BinArrayView, DecodeError> {
    match canonical_check(RecordKind::BinArray, b) {
        Ok(()) => Ok(bin_array_at(b)),
        Err(e) => Err(e),
    }
}

/// The bin array decoded from `b`: the canonical reading where it succeeds,
/// else the raw one.
pub open spec fn resilient_bin_array(b: Seq<u8>) -> Result<BinArrayView, DecodeError> {
    match canonical_bin_array(b) {
        Ok(a) => Ok(a),
        Err(_) => raw_bin_array(b),
    }
}

/// The bitmap extension that the raw reading finds in `b`.
pub open spec fn raw_bitmap_extension(b: Seq<u8>) -> Result<
    BinArrayBitmapExtensionView,
    DecodeError,
> {
    match raw_check(RecordKind::BitmapExtension, b) {
        Ok(()) => Ok(bitmap_extension_at(b)),
        Err(e) => Err(e),
    }
}

/// The bitmap extension that the canonical reading finds in `b`.
pub open spec fn canonical_bitmap_extension(b: Seq<u8>) -> Result<
    BinArrayBitmapExtensionView,
    DecodeError,
> {
    match canonical_check(RecordKind::BitmapExtension, b) {
        Ok(()) => Ok(bitmap_extension_at(b)),
        Err(e) => Err(e),
    }
}

/// The bitmap extension decoded from `b`: the canonical reading where it
/// succeeds, else the raw one.
pub open spec fn resilient_bitmap_extension(b: Seq<u8>) -> Result<
    BinArrayBitmapExtensionView,
    DecodeError,
> {
    match canonical_bitmap_extension(b) {
        Ok(e) => Ok(e),
        Err(_) => raw_bitmap_extension(b),
    }
}

/// The outcome of decoding a pool, as plain values.
pub open spec fn lb_pair_outcome(r: Result<LbPair, DecodeError>) -> Result<
    LbPairView,
    DecodeError,
> {
    match r {
        Ok(p) => Ok(p@),
        Err(e) => Err(e),
    }
}

/// The outcome of decoding a bin array, as plain values.
pub open spec fn bin_array_outcome(r: Result<BinArray, DecodeError>) -> Result<
    BinArrayView,
    DecodeError,
> {
    match r {
        Ok(a) => Ok(a@),
        Err(e) => Err(e),
    }
}

/// The outcome of decoding a bitmap extension, as plain values.
pub open spec fn bitmap_extension_outcome(
    r: Result<BinArrayBitmapExtension, DecodeError>,
) -> Result<BinArrayBitmapExtensionView, DecodeError> {
    match r {
        Ok(x) => Ok(x@),
        Err(e) => Err(e),
    }
}

/// Reads a pool from its positions in `b`, whatever `b` starts with.
pub fn decode_lb_pair_raw(b: &[u8]) -> (r: Result<LbPair, DecodeError>)
    ensures
        lb_pair_outcome(r) == raw_lb_pair(b@),
        b.len() != LB_PAIR_LEN ==> r == Err::<LbPair, DecodeError>(DecodeError::LengthMismatch),
        b.len() == LB_PAIR_LEN ==> r is Ok,
{
    match check_raw(RecordKind::LbPair, b) {
        Ok(()) => Ok(read_lb_pair(b, 8)),
        Err(e) => Err(e),
    }
}

/// Reads a pool from `b` if `b` starts with the pool discriminator.
pub fn decode_lb_pair_canonical(b: &[u8]) -> (r: Result<LbPair, DecodeError>)
    ensures
        lb_pair_outcome(r) == canonical_lb_pair(b@),
        b.len() != LB_PAIR_LEN ==> r == Err::<LbPair, DecodeError>(DecodeError::LengthMismatch),
{
    match check_canonical(RecordKind::LbPair, b) {
        Ok(()) => Ok(read_lb_pair(b, 8)),
        Err(e) => Err(e),
    }
}

/// Decodes a pool: canonically where that succeeds, from its positions
/// otherwise. The outcome is that of the raw reading: a pool for every
/// buffer of the exact length, `LengthMismatch` for every other.
pub fn decode_lb_pair(b: &[u8]) -> (r: Result<LbPair, DecodeError>)
    ensures
        lb_pair_outcome(r) == resilient_lb_pair(b@),
        lb_pair_outcome(r) == raw_lb_pair(b@),
        b.len() != LB_PAIR_LEN ==> r == Err::<LbPair, DecodeError>(DecodeError::LengthMismatch),
        b.len() == LB_PAIR_LEN ==> r is Ok,
{
    match decode_lb_pair_canonical(b) {
        Ok(p) => Ok(p),
        Err(_) => decode_lb_pair_raw(b),
    }
}

/// Reads a bin array from its positions in `b`, whatever `b` starts with.
pub fn decode_bin_array_raw(b: &[u8]) -> (r: Result<BinArray, DecodeError>)
    ensures
        bin_array_outcome(r) == raw_bin_array(b@),
        b.len() != BIN_ARRAY_LEN ==> r == Err::<BinArray, DecodeError>(
            DecodeError::LengthMismatch,
        ),
        b.len() == BIN_ARRAY_LEN ==> r is Ok,
{
    match check_raw(RecordKind::BinArray, b) {
        Ok(()) => Ok(read_bin_array(b)),
        Err(e) => Err(e),
    }
}

/// Reads a bin array from `b` if `b` starts with the bin array
/// discriminator.
pub fn decode_bin_array_canonical(b: &[u8]) -> (r: Result<BinArray, DecodeError>)
    ensures
        bin_array_outcome(r) == canonical_bin_array(b@),
        b.len() != BIN_ARRAY_LEN ==> r == Err::<BinArray, DecodeError>(
            DecodeError::LengthMismatch,
        ),
{
    match check_canonical(RecordKind::BinArray, b) {
        Ok(()) => Ok(read_bin_array(b)),
        Err(e) => Err(e),
    }
}

/// Decodes a bin array: canonically where that succeeds, from its positions
/// otherwise.
pub fn decode_bin_array(b: &[u8]) -> (r: Result<BinArray, DecodeError>)
    ensures
        bin_array_outcome(r) == resilient_bin_array(b@),
        bin_array_outcome(r) == raw_bin_array(b@),
        b.len() != BIN_ARRAY_LEN ==> r == Err::<BinArray, DecodeError>(
            DecodeError::LengthMismatch,
        ),
        b.len() == BIN_ARRAY_LEN ==> r is Ok,
{
    match decode_bin_array_canonical(b) {
        Ok(a) => Ok(a),
        Err(_) => decode_bin_array_raw(b),
    }
}

/// Reads a bitmap extension from its positions in `b`, whatever `b` starts
/// with.
pub fn decode_bitmap_extension_raw(b: &[u8]) -> (r: Result<BinArrayBitmapExtension, DecodeError>)
    ensures
        bitmap_extension_outcome(r) == raw_bitmap_extension(b@),
        b.len() != BITMAP_EXTENSION_LEN ==> r == Err::<BinArrayBitmapExtension, DecodeError>(
            DecodeError::LengthMismatch,
        ),
        b.len() == BITMAP_EXTENSION_LEN ==> r is Ok,
{
    match check_raw(RecordKind::BitmapExtension, b) {
        Ok(()) => Ok(read_bitmap_extension(b)),
        Err(e) => Err(e),
    }
}

/// Reads a bitmap extension from `b` if `b` starts with the bitmap extension
/// discriminator.
pub fn decode_bitmap_extension_canonical(b: &[u8]) -> (r: Result<
    BinArrayBitmapExtension,
    DecodeError,
>)
    ensures
        bitmap_extension_outcome(r) == canonical_bitmap_extension(b@),
        b.len() != BITMAP_EXTENSION_LEN ==> r == Err::<BinArrayBitmapExtension, DecodeError>(
            DecodeError::LengthMismatch,
        ),
{
    match check_canonical(RecordKind::BitmapExtension, b) {
        Ok(()) => Ok(read_bitmap_extension(b)),
        Err(e) => Err(e),
    }
}

/// Decodes a bitmap extension: canonically where that succeeds, from its
/// positions otherwise.
pub fn decode_bitmap_extension(b: &[u8]) -> (r: Result<BinArrayBitmapExtension, DecodeError>)
    ensures
        bitmap_extension_outcome(r) == resilient_bitmap_extension(b@),
        bitmap_extension_outcome(r) == raw_bitmap_extension(b@),
        b.len() != BITMAP_EXTENSION_LEN ==> r == Err::<BinArrayBitmapExtension, DecodeError>(
            DecodeError::LengthMismatch,
        ),
        b.len() == BITMAP_EXTENSION_LEN ==> r is Ok,
{
    match decode_bitmap_extension_canonical(b) {
        Ok(x) => Ok(x),
        Err(_) => decode_bitmap_extension_raw(b),
    }
}

/// The outcome of decoding an account that need not exist.
pub open spec fn optional_bitmap_extension(data: Option<Seq<u8>>) -> Result<
    Option<BinArrayBitmapExtensionView>,
    DecodeError,
> {
    match data {
        None => Ok(None),
        Some(b) => match resilient_bitmap_extension(b) {
            Ok(x) => Ok(Some(x)),
            Err(e) => Err(e),
        },
    }
}

/// Decodes the bitmap extension of a pool that may have none. An absent
/// account is no error: it gives `Ok(None)`. A present one must decode.
pub fn decode_optional_bitmap_extension(data: Option<&[u8]>) -> (r: Result<
    Option<BinArrayBitmapExtension>,
    DecodeError,
>)
    ensures
        data is None ==> r matches Ok(None),
        data matches Some(b) ==> match r {
            Ok(Some(x)) => resilient_bitmap_extension(b@) == Ok::<
                BinArrayBitmapExtensionView,
                DecodeError,
            >(x@),
            Ok(None) => false,
            Err(e) => resilient_bitmap_extension(b@) == Err::<
                BinArrayBitmapExtensionView,
                DecodeError,
            >(e),
        },
{
    match data {
        None => Ok(None),
        Some(b) => match decode_bitmap_extension(b) {
            Ok(x) => Ok(Some(x)),
            Err(e) => Err(e),
        },
    }
}

/// A decoded record of any kind.
#[derive(Clone, Debug, PartialEq, Eq)]
pub enum Record {
    LbPair(LbPair),
    BinArray(BinArray),
    BitmapExtension(BinArrayBitmapExtension),
}

/// What a [`Record`] holds, as plain values.
pub enum RecordView {
    LbPair(LbPairView),
    BinArray(BinArrayView),
    BitmapExtension(BinArrayBitmapExtensionView),
}

impl View for Record {
    type V = RecordView;

    open spec fn view(&self) -> RecordView {
        match self {
            Record::LbPair(p) => RecordView::LbPair(p@),
            Record::BinArray(a) => RecordView::BinArray(a@),
            Record::BitmapExtension(x) => RecordView::BitmapExtension(x@),
        }
    }
}

/// The record of `kind` decoded from `b`: the canonical reading where it
/// succeeds, else the raw one.
pub open spec fn resilient_record(kind: RecordKind, b: Seq<u8>) -> Result<RecordView, DecodeError> {
    match resilient_check(kind, b) {
        Err(e) => Err(e),
        Ok(()) => Ok(
            match kind {
                RecordKind::LbPair => RecordView::LbPair(lb_pair_at(b, 8)),
                RecordKind::BinArray => RecordView::BinArray(bin_array_at(b)),
                RecordKind::BitmapExtension => RecordView::BitmapExtension(bitmap_extension_at(b)),
            },
        ),
    }
}

/// The outcome of decoding a record, as plain values.
pub open spec fn record_outcome(r: Result<Record, DecodeError>) -> Result<RecordView, DecodeError> {
    match r {
        Ok(x) => Ok(x@),
        Err(e) => Err(e),
    }
}

/// Decodes the bytes of an account as a record of the kind expected:
/// canonically where that succeeds, from its positions otherwise. Every
/// buffer of the kind's exact length gives a record, every other
/// `LengthMismatch`.
pub fn decode_record(kind: RecordKind, b: &[u8]) -> (r: Result<Record, DecodeError>)
    ensures
        record_outcome(r) == resilient_record(kind, b@),
        b.len() != kind.account_len() ==> r == Err::<Record, DecodeError>(
            DecodeError::LengthMismatch,
        ),
        b.len() == kind.account_len() ==> r is Ok,
{
    match kind {
        RecordKind::LbPair => match decode_lb_pair(b) {
            Ok(p) => Ok(Record::LbPair(p)),
            Err(e) => Err(e),
        },
        RecordKind::BinArray => match decode_bin_array(b) {
            Ok(a) => Ok(Record::BinArray(a)),
            Err(e) => Err(e),
        },
        RecordKind::BitmapExtension => match decode_bitmap_extension(b) {
            Ok(x) => Ok(Record::BitmapExtension(x)),
            Err(e) => Err(e),
        },
    }
}

/// Why the bin arrays of a swap could not be gathered.
#[derive(Clone, Copy, Debug, PartialEq, Eq, Structural)]
pub enum BinArraysError {
    /// The account at this position does not exist.
    Missing { position: usize },
    /// The account at this position does not decode.
    Malformed { position: usize, error: DecodeError },
}

/// The bytes of an account that may be missing, as plain values.
pub open spec fn account_view(account: Option<Vec<u8>>) -> Option<Seq<u8>> {
    match account {
        Some(b) => Some(b@),
        None => None,
    }
}

/// The accounts read for a list of addresses, as plain values.
pub open spec fn accounts_view(accounts: Seq<Option<Vec<u8>>>) -> Seq<Option<Seq<u8>>> {
    Seq::new(accounts.len(), |i: int| account_view(accounts[i]))
}

/// Addresses paired with bin arrays, as plain values.
pub open spec fn pairs_view(pairs: Seq<(Address, BinArray)>) -> Seq<(Address, BinArrayView)> {
    Seq::new(pairs.len(), |i: int| (pairs[i].0, pairs[i].1@))
}

/// Whether the account at position `i` exists and decodes as a bin array.
pub open spec fn bin_array_is_good(accounts: Seq<Option<Seq<u8>>>, i: int) -> bool {
    accounts[i] matches Some(b) && resilient_bin_array(b) is Ok
}

/// What gathering gives: each address with the bin array its account holds,
/// position by position, as far as both lists reach, if every account
/// exists and decodes; else the first position that fails, and how.
pub open spec fn gathered(
    keys: Seq<Address>,
    accounts: Seq<Option<Seq<u8>>>,
    r: Result<Seq<(Address, BinArrayView)>, BinArraysError>,
) -> bool {
    let n = if keys.len() <= accounts.len() {
        keys.len()
    } else {
        accounts.len()
    };
    match r {
        Ok(pairs) => {
            &&& pairs.len() == n
            &&& forall|i: int|
                0 <= i < n ==> {
                    &&& (#[trigger] pairs[i]).0 == keys[i]
                    &&& accounts[i] matches Some(b)
                    &&& resilient_bin_array(b) == Ok::<BinArrayView, DecodeError>(pairs[i].1)
                }
        },
        Err(BinArraysError::Missing { position }) => {
            &&& position < n
            &&& accounts[position as int] is None
            &&& forall|j: int| 0 <= j < position ==> bin_array_is_good(accounts, j)
        },
        Err(BinArraysError::Malformed { position, error }) => {
            &&& position < n
            &&& accounts[position as int] matches Some(b)
            &&& resilient_bin_array(b) == Err::<BinArrayView, DecodeError>(error)
            &&& forall|j: int| 0 <= j < position ==> bin_array_is_good(accounts, j)
        },
    }
}

/// The outcome of gathering, as plain values.
pub open spec fn pairs_outcome(r: Result<Vec<(Address, BinArray)>, BinArraysError>) -> Result<
    Seq<(Address, BinArrayView)>,
    BinArraysError,
> {
    match r {
        Ok(pairs) => Ok(pairs_view(pairs@)),
        Err(e) => Err(e),
    }
}

/// Pairs the addresses of the bin arrays of a swap with the bin arrays read
/// from the ledger for them, position by position. Every account must exist
/// and decode: the first that does not ends the gathering.
pub fn decode_bin_arrays(keys: &Vec<Address>, accounts: &Vec<Option<Vec<u8>>>) -> (r: Result<
    Vec<(Address, BinArray)>,
    BinArraysError,
>)
    ensures
        gathered(keys@, accounts_view(accounts@), pairs_outcome(r)),
{
    let n: usize = if keys.len() <= accounts.len() {
        keys.len()
    } else {
        accounts.len()
    };
    let mut pairs: Vec<(Address, BinArray)> = Vec::new();
    let mut i: usize = 0;
    let ghost read = accounts_view(accounts@);
    while i < n
        invariant
            i <= n,
            n == if keys@.len() <= accounts@.len() {
                keys@.len()
            } else {
                accounts@.len()
            },
            read == accounts_view(accounts@),
            pairs@.len() == i,
            forall|j: int| 0 <= j < i ==> bin_array_is_good(read, j),
            forall|k: int|
                0 <= k < i ==> {
                    &&& (#[trigger] pairs@[k]).0 == keys@[k]
                    &&& read[k] matches Some(b)
                    &&& resilient_bin_array(b) == Ok::<BinArrayView, DecodeError>(pairs@[k].1@)
                },
        decreases n - i,
    {
        match &accounts[i] {
            None => {
                assert(read[i as int] is None);
                return Err(BinArraysError::Missing { position: i });
            },
            Some(data) => match decode_bin_array(data.as_slice()) {
                Ok(bin_array) => {
                    assert(read[i as int] == Some(data@));
                    pairs.push((keys[i], bin_array));
                },
                Err(error) => {
                    assert(read[i as int] == Some(data@));
                    return Err(BinArraysError::Malformed { position: i, error });
                },
            },
        }
        i = i + 1;
    }
    assert forall|k: int| 0 <= k < n implies {
        &&& (#[trigger] pairs_view(pairs@)[k]).0 == keys@[k]
        &&& read[k] matches Some(b)
        &&& resilient_bin_array(b) == Ok::<BinArrayView, DecodeError>(pairs_view(pairs@)[k].1)
    } by {
        assert(pairs@[k].0 == keys@[k]);
    }
    Ok(pairs)
}

/// Where both readings of a pool account succeed, they give the same pool,
/// field for field.
pub proof fn lemma_lb_pair_readings_agree(b: Seq<u8>)
    requires
        b.len() == LB_PAIR_LEN,
        canonical_lb_pair(b) is Ok,
        raw_lb_pair(b) is Ok,
    ensures
        canonical_lb_pair(b) == raw_lb_pair(b),
{
}

/// Where both readings of a bin array account succeed, they give the same
/// bin array.
pub proof fn lemma_bin_array_readings_agree(b: Seq<u8>)
    requires
        b.len() == BIN_ARRAY_LEN,
        canonical_bin_array(b) is Ok,
        raw_bin_array(b) is Ok,
    ensures
        canonical_bin_array(b) == raw_bin_array(b),
{
}

/// Where both readings of a bitmap extension account succeed, they give the
/// same bitmap extension.
pub proof fn lemma_bitmap_extension_readings_agree(b: Seq<u8>)
    requires
        b.len() == BITMAP_EXTENSION_LEN,
        canonical_bitmap_extension(b) is Ok,
        raw_bitmap_extension(b) is Ok,
    ensures
        canonical_bitmap_extension(b) == raw_bitmap_extension(b),
{
}

/// A buffer of any length but the record's own is rejected by every
/// reading, and a buffer of that length is never rejected by the raw one.
pub proof fn lemma_only_the_exact_length_decodes(kind: RecordKind, b: Seq<u8>)
    ensures
        b.len() != kind.account_len() ==> {
            &&& raw_check(kind, b) == Err::<(), DecodeError>(DecodeError::LengthMismatch)
            &&& canonical_check(kind, b) == Err::<(), DecodeError>(DecodeError::LengthMismatch)
            &&& resilient_check(kind, b) == Err::<(), DecodeError>(DecodeError::LengthMismatch)
        },
        b.len() == kind.account_len() ==> {
            &&& raw_check(kind, b) is Ok
            &&& resilient_check(kind, b) is Ok
        },
{
}

/// Decoding a pool loses nothing: two accounts in which the same pool is
/// found hold the same bytes after the discriminator.
pub proof fn lemma_lb_pair_decoding_is_lossless(a: Seq<u8>, b: Seq<u8>)
    requires
        raw_lb_pair(a) is Ok,
        raw_lb_pair(a) == raw_lb_pair(b),
    ensures
        a.subrange(8, LB_PAIR_LEN as int) == b.subrange(8, LB_PAIR_LEN as int),
{
    lemma_lb_pair_at_is_lossless(a, b, 8);
    assert(a.subrange(8, LB_PAIR_LEN as int) =~= b.subrange(8, LB_PAIR_LEN as int));
}

/// Decoding a bin array loses nothing: two accounts in which the same bin
/// array is found hold the same bytes after the discriminator.
pub proof fn lemma_bin_array_decoding_is_lossless(a: Seq<u8>, b: Seq<u8>)
    requires
        raw_bin_array(a) is Ok,
        raw_bin_array(a) == raw_bin_array(b),
    ensures
        a.subrange(8, BIN_ARRAY_LEN as int) == b.subrange(8, BIN_ARRAY_LEN as int),
{
    lemma_bin_array_at_is_lossless(a, b);
    assert(a.subrange(8, BIN_ARRAY_LEN as int) =~= b.subrange(8, BIN_ARRAY_LEN as int));
}

/// Decoding a bitmap extension loses nothing: two accounts in which the
/// same bitmap extension is found hold the same bytes after the
/// discriminator.
pub proof fn lemma_bitmap_extension_decoding_is_lossless(a: Seq<u8>, b: Seq<u8>)
    requires
        raw_bitmap_extension(a) is Ok,
        raw_bitmap_extension(a) == raw_bitmap_extension(b),
    ensures
        a.subrange(8, BITMAP_EXTENSION_LEN as int) == b.subrange(8, BITMAP_EXTENSION_LEN as int),
{
    lemma_bitmap_extension_at_is_lossless(a, b);
    assert(a.subrange(8, BITMAP_EXTENSION_LEN as int) =~= b.subrange(
        8,
        BITMAP_EXTENSION_LEN as int,
    ));
}

} // verus!
