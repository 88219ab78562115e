use anchor_lang::solana_program::pubkey::Pubkey;
use dlmm_swap::address::{Address, PROGRAM_ID};
use dlmm_swap::decode::{decode_bitmap_extension_raw, decode_lb_pair_raw};
use dlmm_swap::layout::{BITMAP_EXTENSION_LEN, LB_PAIR_LEN};
use dlmm_swap::locator::{
    bin_id_to_bin_array_index, derive_bin_array_pubkeys, get_bin_array_indexes_for_swap,
    get_bin_array_pubkeys_for_swap, is_addressable, is_populated, BIN_ARRAY_BITMAP_SIZE,
    MAX_BIN_ARRAY_INDEX, MIN_BIN_ARRAY_INDEX,
};
use dlmm_swap::state::{BinArrayBitmapExtension, LbPair};

/// A pool whose active bin lies in the bin array `active_index` and whose
/// own bitmap marks the bin arrays `marked`.
fn pool(active_index: i32, marked: &[i32]) -> LbPair {
    let mut b = vec![0u8; LB_PAIR_LEN];
    b[76..80].copy_from_slice(&(active_index * 70).to_le_bytes());
    b[80..82].copy_from_slice(&10u16.to_le_bytes());
    for &index in marked {
        let bit = (index + 512) as usize;
        b[584 + bit / 8] |= 1 << (bit % 8);
    }
    decode_lb_pair_raw(&b).unwrap()
}

/// An extension that marks the bin arrays `marked`.
fn extension(marked: &[i32]) -> BinArrayBitmapExtension {
    let mut b = vec![0u8; BITMAP_EXTENSION_LEN];
    for &index in marked {
        let (base, position) = if index > 0 {
            (40usize, index as usize - 512)
        } else {
            (808usize, (-(index + 1)) as usize - 512)
        };
        b[base + position / 8] |= 1 << (position % 8);
    }
    decode_bitmap_extension_raw(&b).unwrap()
}

fn address_of(pool: &Address, index: i32) -> Address {
    let (key, _) = Pubkey::find_program_address(
        &[b"bin_array", &pool.bytes, &(index as i64).to_le_bytes()],
        &Pubkey::new_from_array(PROGRAM_ID),
    );
    Address::new(key.to_bytes())
}

#[test]
fn bitmaps_cover_512_and_6656_indexes_a_side() {
    assert_eq!(BIN_ARRAY_BITMAP_SIZE, 512);
    assert_eq!(MIN_BIN_ARRAY_INDEX, -6_656);
    assert_eq!(MAX_BIN_ARRAY_INDEX, 6_655);
}

#[test]
fn bin_array_index_rounds_towards_minus_infinity() {
    assert_eq!(bin_id_to_bin_array_index(0), 0);
    assert_eq!(bin_id_to_bin_array_index(69), 0);
    assert_eq!(bin_id_to_bin_array_index(70), 1);
    assert_eq!(bin_id_to_bin_array_index(7_000), 100);
    assert_eq!(bin_id_to_bin_array_index(7_069), 100);
    assert_eq!(bin_id_to_bin_array_index(-1), -1);
    assert_eq!(bin_id_to_bin_array_index(-70), -1);
    assert_eq!(bin_id_to_bin_array_index(-71), -2);
    assert_eq!(bin_id_to_bin_array_index(i32::MAX), 30_678_337);
    assert_eq!(bin_id_to_bin_array_index(i32::MIN), -30_678_338);
}

#[test]
fn three_marked_bin_arrays_from_the_active_one_upwards() {
    let p = pool(100, &[100, 101, 102]);
    assert_eq!(p.active_id, 7_000);
    assert_eq!(p.bin_step, 10);
    assert_eq!(get_bin_array_indexes_for_swap(&p, None, false, 3), vec![100, 101, 102]);
    let at = Address::new([5; 32]);
    let keys = get_bin_array_pubkeys_for_swap(&at, &p, None, false, 3).unwrap();
    assert_eq!(keys, vec![address_of(&at, 100), address_of(&at, 101), address_of(&at, 102)]);
}

#[test]
fn selling_the_first_token_walks_downwards() {
    let p = pool(100, &[97, 98, 99, 100, 101, 102]);
    assert_eq!(get_bin_array_indexes_for_swap(&p, None, true, 3), vec![100, 99, 98]);
    assert_eq!(get_bin_array_indexes_for_swap(&p, None, false, 3), vec![100, 101, 102]);
}

#[test]
fn unmarked_bin_arrays_are_passed_over() {
    let p = pool(0, &[-400, -3, 2, 7, 300]);
    assert_eq!(get_bin_array_indexes_for_swap(&p, None, false, 3), vec![2, 7, 300]);
    assert_eq!(get_bin_array_indexes_for_swap(&p, None, true, 3), vec![-3, -400]);
    assert_eq!(get_bin_array_indexes_for_swap(&p, None, false, 1), vec![2]);
}

#[test]
fn never_more_than_asked_for() {
    let p = pool(-2, &[-2, -1, 0, 1, 2, 3]);
    assert_eq!(get_bin_array_indexes_for_swap(&p, None, false, 0), Vec::<i32>::new());
    assert_eq!(get_bin_array_indexes_for_swap(&p, None, false, 2), vec![-2, -1]);
    assert_eq!(get_bin_array_indexes_for_swap(&p, None, false, 255), vec![-2, -1, 0, 1, 2, 3]);
}

#[test]
fn fewer_than_asked_for_where_the_bitmap_ends() {
    let p = pool(510, &[510, 511]);
    assert_eq!(get_bin_array_indexes_for_swap(&p, None, false, 3), vec![510, 511]);
    let q = pool(-511, &[-512]);
    assert_eq!(get_bin_array_indexes_for_swap(&q, None, true, 3), vec![-512]);
    let empty = pool(0, &[]);
    assert_eq!(get_bin_array_indexes_for_swap(&empty, None, true, 3), Vec::<i32>::new());
    assert_eq!(
        get_bin_array_pubkeys_for_swap(&Address::new([1; 32]), &empty, None, false, 3),
        Ok(Vec::new())
    );
}

#[test]
fn the_extension_continues_the_pool_bitmap() {
    let p = pool(510, &[511]);
    let x = extension(&[512, 1_024, 6_655]);
    assert_eq!(get_bin_array_indexes_for_swap(&p, Some(&x), false, 3), vec![511, 512, 1_024]);
    assert_eq!(
        get_bin_array_indexes_for_swap(&p, Some(&x), false, 9),
        vec![511, 512, 1_024, 6_655]
    );
    let q = pool(-510, &[-512]);
    let y = extension(&[-513, -514, -6_656]);
    assert_eq!(get_bin_array_indexes_for_swap(&q, Some(&y), true, 3), vec![-512, -513, -514]);
    assert_eq!(
        get_bin_array_indexes_for_swap(&q, Some(&y), true, 9),
        vec![-512, -513, -514, -6_656]
    );
}

#[test]
fn a_walk_can_start_in_the_extension_and_come_back() {
    let p = pool(600, &[5, 511]);
    let x = extension(&[512, 599, 600, 601]);
    assert_eq!(get_bin_array_indexes_for_swap(&p, Some(&x), true, 4), vec![600, 599, 512, 511]);
    assert_eq!(get_bin_array_indexes_for_swap(&p, Some(&x), false, 4), vec![600, 601]);
    let q = pool(-600, &[-512, 0]);
    let y = extension(&[-513, -600, -601]);
    assert_eq!(get_bin_array_indexes_for_swap(&q, Some(&y), false, 4), vec![-600, -513, -512, 0]);
    assert_eq!(get_bin_array_indexes_for_swap(&q, Some(&y), true, 4), vec![-600, -601]);
}

#[test]
fn nothing_is_found_where_no_bitmap_covers_the_start() {
    let p = pool(600, &[5, 511]);
    assert_eq!(get_bin_array_indexes_for_swap(&p, None, true, 3), Vec::<i32>::new());
    assert_eq!(get_bin_array_indexes_for_swap(&p, None, false, 3), Vec::<i32>::new());
    let far = pool(7_000, &[5]);
    let x = extension(&[6_655]);
    assert_eq!(get_bin_array_indexes_for_swap(&far, Some(&x), true, 3), Vec::<i32>::new());
    assert_eq!(get_bin_array_indexes_for_swap(&far, Some(&x), false, 3), Vec::<i32>::new());
}

#[test]
fn marks_are_read_from_the_right_bits() {
    let p = pool(0, &[-512, -1, 0, 63, 64, 511]);
    for index in -512..512 {
        let marked = [-512, -1, 0, 63, 64, 511].contains(&index);
        assert_eq!(is_populated(&p, None, index), marked);
    }
    let x = extension(&[512, 575, 576, 1_023, 1_024, 6_655, -513, -1_024, -1_025, -6_656]);
    for index in [512, 575, 576, 1_023, 1_024, 6_655, -513, -1_024, -1_025, -6_656] {
        assert!(is_populated(&p, Some(&x), index));
        assert!(!is_populated(&p, None, index));
    }
    for index in [513, 574, 1_022, 1_025, 6_654, -514, -1_023, -1_026, -6_655, 6_656, -6_657] {
        assert!(!is_populated(&p, Some(&x), index));
    }
}

#[test]
fn extension_words_map_to_indexes_row_by_row() {
    let mut x = extension(&[]);
    x.positive_bin_array_bitmap[0][0] = 1;
    x.positive_bin_array_bitmap[11][7] = 1 << 63;
    x.negative_bin_array_bitmap[0][0] = 1;
    x.negative_bin_array_bitmap[2][1] = 1 << 3;
    let p = pool(0, &[]);
    assert!(is_populated(&p, Some(&x), 512));
    assert!(is_populated(&p, Some(&x), 6_655));
    assert!(is_populated(&p, Some(&x), -513));
    assert!(is_populated(&p, Some(&x), -(512 * 3 + 64 + 3) - 1));
    assert_eq!(
        get_bin_array_indexes_for_swap(&p, Some(&x), true, 5),
        vec![-513, -(512 * 3 + 64 + 3) - 1]
    );
}

#[test]
fn addressable_ranges_depend_on_the_extension() {
    let x = extension(&[]);
    for (index, alone, extended) in [
        (0, true, true),
        (511, true, true),
        (-512, true, true),
        (512, false, true),
        (-513, false, true),
        (6_655, false, true),
        (-6_656, false, true),
        (6_656, false, false),
        (-6_657, false, false),
        (i32::MAX, false, false),
        (i32::MIN, false, false),
    ] {
        assert_eq!(is_addressable(None, index), alone);
        assert_eq!(is_addressable(Some(&x), index), extended);
    }
}

#[test]
fn every_returned_index_is_marked_and_further_than_the_last() {
    let marked = [-700, -513, -512, -90, -1, 0, 44, 511, 512, 3_000];
    let x = extension(&[-700, -513, 512, 3_000]);
    for start in [-800, -513, -512, -100, 0, 45, 511, 512, 2_999] {
        let p = pool(start, &[-512, -90, -1, 0, 44, 511]);
        for swap_for_y in [false, true] {
            for count in [0u8, 1, 2, 5, 20] {
                let found = get_bin_array_indexes_for_swap(&p, Some(&x), swap_for_y, count);
                assert!(found.len() <= count as usize);
                let mut expected: Vec<i32> = marked
                    .iter()
                    .copied()
                    .filter(|&i| if swap_for_y { i <= start } else { i >= start })
                    .collect();
                if swap_for_y {
                    expected.reverse();
                }
                expected.truncate(count as usize);
                assert_eq!(found, expected);
                for index in found {
                    assert!(is_populated(&p, Some(&x), index));
                }
            }
        }
    }
}

#[test]
fn addresses_follow_the_indexes_in_order() {
    let at = Address::new([8; 32]);
    let indexes = vec![3, -3, 600, -6_656];
    let keys = derive_bin_array_pubkeys(&at, &indexes).unwrap();
    let expected: Vec<Address> = indexes.iter().map(|&i| address_of(&at, i)).collect();
    assert_eq!(keys, expected);
    assert_eq!(derive_bin_array_pubkeys(&at, &Vec::new()), Ok(Vec::new()));
    let other = derive_bin_array_pubkeys(&Address::new([9; 32]), &indexes).unwrap();
    assert_ne!(other, keys);
}
