//! Location of the bin arrays a swap will cross.
//!
//! A pool marks which bin arrays exist in a bitmap of its own, for indexes
//! from -512 to 511, and, for pools that reach further, in a bitmap
//! extension, for indexes up to 6655 and down to -6656. A swap starts in the
//! bin array of the active bin and moves through the marked bin arrays in
//! one direction: towards lower indexes when it sells the first token,
//! towards higher ones when it sells the second.

use crate::address::{
    bin_array_seeds, derive_bin_array_pda, program_address_key, Address, PROGRAM_ID,
};
use crate::state::{BinArrayBitmapExtension, BinArrayBitmapExtensionView, LbPair};
use vstd::prelude::*;

verus! {

/// Number of bin arrays on each side of index zero that the pool's own
/// bitmap covers; also the number of bits in one row of the extension.
pub const BIN_ARRAY_BITMAP_SIZE: i32 = 512;

/// Lowest bin array index any bitmap covers.
pub const MIN_BIN_ARRAY_INDEX: i32 = -6656;

/// Highest bin array index any bitmap covers.
pub const MAX_BIN_ARRAY_INDEX: i32 = 6655;

/// A bin array's address could not be derived.
#[derive(Clone, Copy, Debug, PartialEq, Eq, Structural)]
pub enum LocateError {
    /// No bump seed gives the bin array with this index an address.
    NoAddress { index: i32 },
}

/// Index of the bin array that holds the bin `bin_id`: seventy bins to an
/// array, rounded towards minus infinity.
pub open spec fn bin_array_index_of(bin_id: int) -> int {
    bin_id / 70
}

/// Index of the bin array that holds the bin `bin_id`.
pub fn bin_id_to_bin_array_index(bin_id: i32) -> (r: i32)
    ensures
        r == bin_array_index_of(bin_id as int),
{
    if bin_id >= 0 {
        ((bin_id as u32) / 70) as i32
    } else {
        let below: u32 = (-(bin_id + 1)) as u32;
        -((below / 70) as i32) - 1
    }
}

/// Bit `pos` of a bitmap stored as 64-bit words, least significant word
/// first.
pub open spec fn bit_at(words: Seq<u64>, pos: int) -> bool {
    (words[pos / 64] >> ((pos % 64) as u64)) & 1 == 1
}

/// Whether the pool's own bitmap covers `index`.
pub open spec fn in_pool_range(index: int) -> bool {
    -512 <= index < 512
}

/// Whether a bitmap extension covers `index`.
pub open spec fn in_extension_range(index: int) -> bool {
    512 <= index <= 6655 || -6656 <= index < -512
}

/// Whether the extension marks the bin array `index`, for an index it
/// covers. Bit `k` of row `r` stands for index `512 * (r + 1) + k` on the
/// positive side and for `-(512 * (r + 1) + k) - 1` on the negative side.
pub open spec fn extension_marks(ext: BinArrayBitmapExtensionView, index: int) -> bool {
    if index >= 512 {
        bit_at(ext.positive_bin_array_bitmap[index / 512 - 1], index % 512)
    } else {
        bit_at(ext.negative_bin_array_bitmap[(-(index + 1)) / 512 - 1], (-(index + 1)) % 512)
    }
}

/// Whether some bitmap at hand covers `index`.
pub open spec fn addressable(ext: Option<BinArrayBitmapExtensionView>, index: int) -> bool {
    in_pool_range(index) || (ext is Some && in_extension_range(index))
}

/// Whether the bin array `index` is marked as existing: in the pool's bitmap
/// for the indexes that bitmap covers, in the extension, if there is one,
/// for the others.
pub open spec fn populated(
    bitmap: Seq<u64>,
    ext: Option<BinArrayBitmapExtensionView>,
    index: int,
) -> bool {
    if in_pool_range(index) {
        bit_at(bitmap, index + 512)
    } else {
        ext matches Some(e) && in_extension_range(index) && extension_marks(e, index)
    }
}

/// The index after `index` in the direction of travel.
pub open spec fn next_index(index: int, swap_for_y: bool) -> int {
    if swap_for_y {
        index - 1
    } else {
        index + 1
    }
}

/// Number of indexes from `index` to the end of all bitmaps in the direction
/// of travel, `index` included.
pub open spec fn indexes_ahead(index: int, swap_for_y: bool) -> int {
    if swap_for_y {
        index + 6657
    } else {
        6656 - index
    }
}

/// The bin arrays a swap crosses: the first `count` marked indexes met from
/// `start` on in the direction of travel, nearest first. The walk ends where
/// the bitmaps at hand end; it is empty if they do not cover `start`.
pub open spec fn walk(
    bitmap: Seq<u64>,
    ext: Option<BinArrayBitmapExtensionView>,
    start: int,
    swap_for_y: bool,
    count: nat,
) -> Seq<int>
    decreases indexes_ahead(start, swap_for_y),
{
    if count == 0 || !addressable(ext, start) {
        Seq::empty()
    } else if populated(bitmap, ext, start) {
        seq![start] + walk(
            bitmap,
            ext,
            next_index(start, swap_for_y),
            swap_for_y,
            (count - 1) as nat,
        )
    } else {
        walk(bitmap, ext, next_index(start, swap_for_y), swap_for_y, count)
    }
}

/// Whether `a` is met strictly before `b` in the direction of travel.
pub open spec fn met_before(a: int, b: int, swap_for_y: bool) -> bool {
    if swap_for_y {
        a > b
    } else {
        a < b
    }
}

/// The walk never returns more than `count` indexes; each is marked in a
/// bitmap at hand; the first lies at `start` or beyond it in the direction
/// of travel, and each later one strictly beyond the one before.
pub proof fn lemma_walk_is_sound(
    bitmap: Seq<u64>,
    ext: Option<BinArrayBitmapExtensionView>,
    start: int,
    swap_for_y: bool,
    count: nat,
)
    ensures
        walk(bitmap, ext, start, swap_for_y, count).len() <= count,
        forall|k: int|
            0 <= k < walk(bitmap, ext, start, swap_for_y, count).len() ==> {
                let index = #[trigger] walk(bitmap, ext, start, swap_for_y, count)[k];
                &&& populated(bitmap, ext, index)
                &&& addressable(ext, index)
                &&& index == start || met_before(start, index, swap_for_y)
            },
        forall|j: int, k: int|
            0 <= j < k < walk(bitmap, ext, start, swap_for_y, count).len() ==> met_before(
                #[trigger] walk(bitmap, ext, start, swap_for_y, count)[j],
                #[trigger] walk(bitmap, ext, start, swap_for_y, count)[k],
                swap_for_y,
            ),
    decreases indexes_ahead(start, swap_for_y),
{
    let w = walk(bitmap, ext, start, swap_for_y, count);
    if count == 0 || !addressable(ext, start) {
    } else {
        let next = next_index(start, swap_for_y);
        if populated(bitmap, ext, start) {
            let rest = walk(bitmap, ext, next, swap_for_y, (count - 1) as nat);
            lemma_walk_is_sound(bitmap, ext, next, swap_for_y, (count - 1) as nat);
            assert(w == seq![start] + rest);
            assert forall|k: int| 0 <= k < w.len() implies {
                let index = #[trigger] w[k];
                &&& populated(bitmap, ext, index)
                &&& addressable(ext, index)
                &&& index == start || met_before(start, index, swap_for_y)
            } by {
                if k > 0 {
                    assert(w[k] == rest[k - 1]);
                }
            }
            assert forall|j: int, k: int| 0 <= j < k < w.len() implies met_before(
                #[trigger] w[j],
                #[trigger] w[k],
                swap_for_y,
            ) by {
                assert(w[k] == rest[k - 1]);
                if j > 0 {
                    assert(w[j] == rest[j - 1]);
                }
            }
        } else {
            let rest = walk(bitmap, ext, next, swap_for_y, count);
            lemma_walk_is_sound(bitmap, ext, next, swap_for_y, count);
            assert(w == rest);
            assert forall|k: int| 0 <= k < w.len() implies {
                let index = #[trigger] w[k];
                &&& populated(bitmap, ext, index)
                &&& addressable(ext, index)
                &&& index == start || met_before(start, index, swap_for_y)
            } by {
                assert(w[k] == rest[k]);
            }
        }
    }
}

/// The walk skips nothing: a marked index at `start` or beyond it in the
/// direction of travel, within the bitmaps at hand, is returned, unless
/// `count` indexes were met before it.
pub proof fn lemma_walk_skips_nothing(
    bitmap: Seq<u64>,
    ext: Option<BinArrayBitmapExtensionView>,
    start: int,
    swap_for_y: bool,
    count: nat,
    index: int,
)
    requires
        addressable(ext, start),
        addressable(ext, index),
        index == start || met_before(start, index, swap_for_y),
        populated(bitmap, ext, index),
    ensures
        walk(bitmap, ext, start, swap_for_y, count).contains(index) || {
            &&& walk(bitmap, ext, start, swap_for_y, count).len() == count
            &&& forall|k: int|
                0 <= k < count ==> met_before(
                    #[trigger] walk(bitmap, ext, start, swap_for_y, count)[k],
                    index,
                    swap_for_y,
                )
        },
    decreases indexes_ahead(start, swap_for_y),
{
    let w = walk(bitmap, ext, start, swap_for_y, count);
    if count == 0 {
    } else {
        let next = next_index(start, swap_for_y);
        if populated(bitmap, ext, start) {
            let rest = walk(bitmap, ext, next, swap_for_y, (count - 1) as nat);
            assert(w == seq![start] + rest);
            if index == start {
                assert(w[0] == index);
            } else {
                lemma_walk_skips_nothing(bitmap, ext, next, swap_for_y, (count - 1) as nat, index);
                if rest.contains(index) {
                    let k = choose|k: int| 0 <= k < rest.len() && rest[k] == index;
                    assert(w[k + 1] == index);
                } else {
                    assert forall|k: int| 0 <= k < count implies met_before(
                        #[trigger] w[k],
                        index,
                        swap_for_y,
                    ) by {
                        if k > 0 {
                            assert(w[k] == rest[k - 1]);
                        }
                    }
                }
            }
        } else {
            lemma_walk_skips_nothing(bitmap, ext, next, swap_for_y, count, index);
        }
    }
}

/// Asking for more bin arrays only adds to the end: the walk for `fewer` is
/// the start of the walk for `more`, cut after `fewer` indexes.
pub proof fn lemma_walk_is_prefix(
    bitmap: Seq<u64>,
    ext: Option<BinArrayBitmapExtensionView>,
    start: int,
    swap_for_y: bool,
    fewer: nat,
    more: nat,
)
    requires
        fewer <= more,
    ensures
        walk(bitmap, ext, start, swap_for_y, fewer).len() == if walk(
            bitmap,
            ext,
            start,
            swap_for_y,
            more,
        ).len() < fewer {
            walk(bitmap, ext, start, swap_for_y, more).len()
        } else {
            fewer
        },
        walk(bitmap, ext, start, swap_for_y, fewer) == walk(
            bitmap,
            ext,
            start,
            swap_for_y,
            more,
        ).subrange(0, walk(bitmap, ext, start, swap_for_y, fewer).len() as int),
    decreases indexes_ahead(start, swap_for_y),
{
    let short = walk(bitmap, ext, start, swap_for_y, fewer);
    let long = walk(bitmap, ext, start, swap_for_y, more);
    if fewer == 0 || !addressable(ext, start) {
        assert(short =~= long.subrange(0, 0));
    } else {
        let next = next_index(start, swap_for_y);
        if populated(bitmap, ext, start) {
            let short_rest = walk(bitmap, ext, next, swap_for_y, (fewer - 1) as nat);
            let long_rest = walk(bitmap, ext, next, swap_for_y, (more - 1) as nat);
            lemma_walk_is_prefix(
                bitmap,
                ext,
                next,
                swap_for_y,
                (fewer - 1) as nat,
                (more - 1) as nat,
            );
            assert(short == seq![start] + short_rest);
            assert(long == seq![start] + long_rest);
            assert(short =~= long.subrange(0, short.len() as int));
        } else {
            lemma_walk_is_prefix(bitmap, ext, next, swap_for_y, fewer, more);
        }
    }
}

/// The extension at hand, as plain values.
pub open spec fn extension_view(ext: Option<&BinArrayBitmapExtension>) -> Option<
    BinArrayBitmapExtensionView,
> {
    match ext {
        Some(e) => Some(e@),
        None => None,
    }
}

fn word_bit<const N: usize>(words: &[u64; N], pos: usize) -> (r: bool)
    requires
        pos < 64 * N,
    ensures
        r == bit_at(words@, pos as int),
{
    (words[pos / 64] >> ((pos % 64) as u64)) & 1 == 1
}

/// Whether some bitmap at hand covers `index`.
pub fn is_addressable(ext: Option<&BinArrayBitmapExtension>, index: i32) -> (r: bool)
    ensures
        r == addressable(extension_view(ext), index as int),
{
    if -BIN_ARRAY_BITMAP_SIZE <= index && index < BIN_ARRAY_BITMAP_SIZE {
        true
    } else {
        ext.is_some() && MIN_BIN_ARRAY_INDEX <= index && index <= MAX_BIN_ARRAY_INDEX
    }
}

/// Whether the bin array `index` is marked as existing.
pub fn is_populated(lb_pair: &LbPair, ext: Option<&BinArrayBitmapExtension>, index: i32) -> (r:
    bool)
    ensures
        r == populated(lb_pair@.bin_array_bitmap, extension_view(ext), index as int),
{
    if -BIN_ARRAY_BITMAP_SIZE <= index && index < BIN_ARRAY_BITMAP_SIZE {
        word_bit(&lb_pair.bin_array_bitmap, (index + BIN_ARRAY_BITMAP_SIZE) as usize)
    } else {
        match ext {
            None => false,
            Some(e) => {
                if BIN_ARRAY_BITMAP_SIZE <= index && index <= MAX_BIN_ARRAY_INDEX {
                    let p: usize = index as usize;
                    word_bit(&e.positive_bin_array_bitmap[p / 512 - 1], p % 512)
                } else if MIN_BIN_ARRAY_INDEX <= index && index < -BIN_ARRAY_BITMAP_SIZE {
                    let p: usize = (-(index + 1)) as usize;
                    word_bit(&e.negative_bin_array_bitmap[p / 512 - 1], p % 512)
                } else {
                    false
                }
            },
        }
    }
}

/// The indexes in `v` as mathematical integers.
pub open spec fn indexes_view(v: Seq<i32>) -> Seq<int> {
    Seq::new(v.len(), |k: int| v[k] as int)
}

/// Indexes of the first `take_count` marked bin arrays a swap meets, from
/// the bin array of the active bin on, nearest first.
pub fn get_bin_array_indexes_for_swap(
    lb_pair: &LbPair,
    bitmap_extension: Option<&BinArrayBitmapExtension>,
    swap_for_y: bool,
    take_count: u8,
) -> (r: Vec<i32>)
    ensures
        indexes_view(r@) == walk(
            lb_pair@.bin_array_bitmap,
            extension_view(bitmap_extension),
            bin_array_index_of(lb_pair.active_id as int),
            swap_for_y,
            take_count as nat,
        ),
        r@.len() <= take_count,
{
    let start: i32 = bin_id_to_bin_array_index(lb_pair.active_id);
    let mut cur: i32 = start;
    let mut out: Vec<i32> = Vec::new();
    let ghost bitmap = lb_pair@.bin_array_bitmap;
    let ghost ext = extension_view(bitmap_extension);
    assert(indexes_view(out@) =~= Seq::<int>::empty());
    while out.len() < take_count as usize && is_addressable(bitmap_extension, cur)
        invariant
            bitmap == lb_pair@.bin_array_bitmap,
            ext == extension_view(bitmap_extension),
            out@.len() <= take_count,
            walk(bitmap, ext, start as int, swap_for_y, take_count as nat) == indexes_view(out@)
                + walk(bitmap, ext, cur as int, swap_for_y, (take_count - out@.len()) as nat),
        decreases
                if addressable(ext, cur as int) {
                    indexes_ahead(cur as int, swap_for_y)
                } else {
                    0
                },
    {
        let ghost before = indexes_view(out@);
        if is_populated(lb_pair, bitmap_extension, cur) {
            out.push(cur);
            assert(indexes_view(out@) =~= before + seq![cur as int]);
        }
        cur = if swap_for_y {
            cur - 1
        } else {
            cur + 1
        };
    }
    out
}

/// The addresses of the bin arrays with the indexes `indexes` of the pool at
/// `lb_pair`, as far as each has one.
pub open spec fn bin_array_addresses(lb_pair: Seq<u8>, indexes: Seq<int>) -> Seq<Option<Seq<u8>>> {
    Seq::new(
        indexes.len(),
        |k: int| program_address_key(bin_array_seeds(lb_pair, indexes[k]), PROGRAM_ID@),
    )
}

/// What deriving the addresses in `all` gives: every address, in order, if
/// each index has one; else the first index without.
pub open spec fn located(
    indexes: Seq<int>,
    all: Seq<Option<Seq<u8>>>,
    r: Result<Seq<Address>, LocateError>,
) -> bool {
    match r {
        Ok(keys) => {
            &&& keys.len() == indexes.len()
            &&& forall|k: int| 0 <= k < keys.len() ==> #[trigger] all[k] == Some(keys[k]@)
        },
        Err(LocateError::NoAddress { index }) => exists|k: int|
            {
                &&& 0 <= k < indexes.len()
                &&& indexes[k] == index
                &&& #[trigger] all[k] is None
                &&& forall|j: int| 0 <= j < k ==> #[trigger] all[j] is Some
            },
    }
}

/// The outcome of locating, as plain values.
pub open spec fn keys_outcome(r: Result<Vec<Address>, LocateError>) -> Result<
    Seq<Address>,
    LocateError,
> {
    match r {
        Ok(keys) => Ok(keys@),
        Err(e) => Err(e),
    }
}

/// Derives the address of each bin array in `indexes`, in their order. Fails
/// on the first index without an address, which it names.
pub fn derive_bin_array_pubkeys(lb_pair_pubkey: &Address, indexes: &Vec<i32>) -> (r: Result<
    Vec<Address>,
    LocateError,
>)
    ensures
        located(
            indexes_view(indexes@),
            bin_array_addresses(lb_pair_pubkey@, indexes_view(indexes@)),
            keys_outcome(r),
        ),
{
    let mut keys: Vec<Address> = Vec::new();
    let mut i: usize = 0;
    let ghost all = bin_array_addresses(lb_pair_pubkey@, indexes_view(indexes@));
    while i < indexes.len()
        invariant
            i <= indexes@.len(),
            keys@.len() == i,
            all == bin_array_addresses(lb_pair_pubkey@, indexes_view(indexes@)),
            forall|k: int| 0 <= k < i ==> #[trigger] all[k] == Some(keys@[k]@),
        decreases indexes@.len() - i,
    {
        let index: i32 = indexes[i];
        match derive_bin_array_pda(lb_pair_pubkey, index as i64) {
            Some((key, _)) => {
                keys.push(key);
            },
            None => {
                assert(all[i as int] is None);
                return Err(LocateError::NoAddress { index });
            },
        }
        i = i + 1;
    }
    Ok(keys)
}

/// What locating the bin arrays of a swap gives: the addresses of the first
/// `take_count` marked bin arrays met from the bin array of the active bin
/// on, nearest first; or the first of them that has no address.
pub open spec fn located_for_swap(
    lb_pair: Seq<u8>,
    bitmap: Seq<u64>,
    active_id: int,
    ext: Option<BinArrayBitmapExtensionView>,
    swap_for_y: bool,
    take_count: nat,
    r: Result<Seq<Address>, LocateError>,
) -> bool {
    let indexes = walk(bitmap, ext, bin_array_index_of(active_id), swap_for_y, take_count);
    located(indexes, bin_array_addresses(lb_pair, indexes), r)
}

/// Addresses of the first `take_count` marked bin arrays a swap meets, from
/// the bin array of the active bin on, nearest first. There are fewer than
/// `take_count` where the bitmaps at hand mark fewer; none is made up.
pub fn get_bin_array_pubkeys_for_swap(
    lb_pair_pubkey: &Address,
    lb_pair: &LbPair,
    bitmap_extension: Option<&BinArrayBitmapExtension>,
    swap_for_y: bool,
    take_count: u8,
) -> (r: Result<Vec<Address>, LocateError>)
    ensures
        located_for_swap(
            lb_pair_pubkey@,
            lb_pair@.bin_array_bitmap,
            lb_pair@.active_id,
            extension_view(bitmap_extension),
            swap_for_y,
            take_count as nat,
            keys_outcome(r),
        ),
        r matches Ok(keys) ==> keys@.len() <= take_count,
{
    let indexes = get_bin_array_indexes_for_swap(lb_pair, bitmap_extension, swap_for_y, take_count);
    derive_bin_array_pubkeys(lb_pair_pubkey, &indexes)
}

} // verus!
