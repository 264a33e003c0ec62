use vstd::prelude::*;
use crate::constants::{CONFIG_ARRAY_START, CONFIG_LINE_SIZE, MAX_NAME_LENGTH, MAX_URI_LENGTH};
use crate::errors::MagicHatError;
use crate::address::{same_pubkey, Address};
use crate::constants::{COLLECTIONS_FEATURE_INDEX, EXPIRE_OFFSET, SET_COLLECTION_DURING_MINT_DISCRIMINATOR};
use crate::state::{
    ConfigLine, Creator, EndSettingType, GatekeeperConfig, MagicHat, MagicHatData, WhitelistMintMode,
};
use crate::utils::{assert_valid_go_live, feature_active, go_live_reached, is_feature_active};
use crate::wallet_whitelist::WalletWhitelist;
use vstd::bytes::{spec_u64_from_le_bytes, u64_from_le_bytes};
use crate::text::{
    decimal_digits, decimal_string, lemma_nul_position, nul_position, string_from_utf8, text_field,
};
use vstd::utf8::{decode_utf8, valid_utf8};

verus! {

/// Bit of the mint bitmask that belongs to config line `i`; line 0 is the
/// most significant bit of the first byte.
pub open spec fn mask_of(i: int) -> u8 {
    let r = i % 8;
    if r == 0 {
        128u8
    } else if r == 1 {
        64u8
    } else if r == 2 {
        32u8
    } else if r == 3 {
        16u8
    } else if r == 4 {
        8u8
    } else if r == 5 {
        4u8
    } else if r == 6 {
        2u8
    } else {
        1u8
    }
}

/// Offset of the bitmask that records which config lines were minted, in an
/// account that holds `items` config lines.
pub open spec fn mint_bitmask_start(items: int) -> int {
    CONFIG_ARRAY_START + 4 + items * CONFIG_LINE_SIZE + 4 + items / 8 + 4
}

/// Offset of the bitmask byte that holds the bit of config line `i`.
pub open spec fn mint_byte_index(items: int, i: int) -> int {
    mint_bitmask_start(items) + i / 8
}

/// Config line `i` was already minted.
pub open spec fn line_minted(data: Seq<u8>, items: int, i: int) -> bool {
    data[mint_byte_index(items, i)] & mask_of(i) != 0
}

/// The account data with config line `i` marked as minted.
pub open spec fn mark_minted(data: Seq<u8>, items: int, i: int) -> Seq<u8> {
    data.update(mint_byte_index(items, i), data[mint_byte_index(items, i)] | mask_of(i))
}

/// Byte `b` of the mint bitmask has all its bits set.
pub open spec fn mint_byte_full(data: Seq<u8>, items: int, b: int) -> bool {
    data[mint_bitmask_start(items) + b] == 255
}

/// The mint bitmask of `items` config lines lies inside data of length `len`.
pub open spec fn bitmask_in_bounds(len: int, items: int) -> bool {
    items == 0 || mint_bitmask_start(items) + (items - 1) / 8 < len
}

/// What a search for an unminted config line gives back: `idx` and `found`
/// as returned, `before` and `after` the account data around the search.
/// Searching forward (`pos`) finds the first unminted line at or after
/// `index`, backward the last one at or before it; the line found is marked
/// minted. When none is found the data stays as it was, and `idx` is where
/// the walk over the bitmask stopped.
pub open spec fn good_index_outcome(
    before: Seq<u8>,
    after: Seq<u8>,
    items: int,
    index: int,
    pos: bool,
    idx: int,
    found: bool,
) -> bool {
    if found {
        &&& 0 <= idx < items
        &&& !line_minted(before, items, idx)
        &&& after == mark_minted(before, items, idx)
        &&& if pos {
            &&& index <= idx
            &&& forall|j: int| index <= j < idx ==> #[trigger] line_minted(before, items, j)
        } else {
            &&& idx <= index < items
            &&& forall|j: int| idx < j <= index ==> #[trigger] line_minted(before, items, j)
        }
    } else {
        &&& after == before
        &&& if index >= items {
            idx == index
        } else if pos {
            &&& forall|j: int| index <= j < items ==> #[trigger] line_minted(before, items, j)
            &&& idx == if mint_byte_full(before, items, (items - 1) / 8) {
                ((items - 1) / 8 + 1) * 8
            } else {
                items
            }
        } else {
            &&& forall|j: int| 0 <= j <= index ==> #[trigger] line_minted(before, items, j)
            &&& idx == if mint_byte_full(before, items, 0) {
                if index < 7 {
                    index
                } else {
                    7
                }
            } else {
                0
            }
        }
    }
}

/// Tells whether the mint bitmask of `items` config lines lies inside
/// account data of length `len`.
pub fn bitmask_fits(len: usize, items: usize) -> (ok: bool)
    ensures
        ok == bitmask_in_bounds(len as int, items as int),
{
    if items == 0 {
        return true;
    }
    match items.checked_mul(CONFIG_LINE_SIZE) {
        None => false,
        Some(lines) => match (CONFIG_ARRAY_START + 4 + 4 + 4).checked_add(lines) {
            None => false,
            Some(a) => match a.checked_add(items / 8) {
                None => false,
                Some(b) => match b.checked_add((items - 1) / 8) {
                    None => false,
                    Some(c) => c < len,
                },
            },
        },
    }
}

proof fn lemma_mask_bits(b: u8, m: u8)
    by (bit_vector)
    requires
        m == 128u8 || m == 64u8 || m == 32u8 || m == 16u8 || m == 8u8 || m == 4u8 || m == 2u8
            || m == 1u8,
    ensures
        b == 255u8 ==> b & m != 0u8,
        (b | m) & m != 0u8,
        b & m == 0u8 ==> b != 255u8,
        b & m == m & b,
{
}

proof fn lemma_mask_of(i: int)
    ensures
        mask_of(i) == 128u8 || mask_of(i) == 64u8 || mask_of(i) == 32u8 || mask_of(i) == 16u8
            || mask_of(i) == 8u8 || mask_of(i) == 4u8 || mask_of(i) == 2u8 || mask_of(i) == 1u8,
{
}

/// Every line of a full bitmask byte is minted.
proof fn lemma_full_byte_minted(data: Seq<u8>, items: int, j: int)
    requires
        0 <= j,
        0 <= mint_byte_index(items, j) < data.len(),
        data[mint_byte_index(items, j)] == 255u8,
    ensures
        line_minted(data, items, j),
{
    lemma_mask_of(j);
    lemma_mask_bits(data[mint_byte_index(items, j)], mask_of(j));
}

/// The mask of line `index`: the bit `7 - index % 8` places from the right.
fn bit_mask(index: usize) -> (m: u8)
    ensures
        m == mask_of(index as int),
{
    let position_from_right = 7 - index % 8;
    if position_from_right == 7 {
        128
    } else if position_from_right == 6 {
        64
    } else if position_from_right == 5 {
        32
    } else if position_from_right == 4 {
        16
    } else if position_from_right == 3 {
        8
    } else if position_from_right == 2 {
        4
    } else if position_from_right == 1 {
        2
    } else {
        1
    }
}

/// Looks for a config line that was not minted yet, walking the mint
/// bitmask from `index` forward (`pos`) or backward, skipping full bytes,
/// and marks the line it finds. Gives back where it stopped and whether it
/// found a line.
pub fn get_good_index(arr: &mut Vec<u8>, items_available: usize, index: usize, pos: bool) -> (res:
    Result<(usize, bool), MagicHatError>)
    requires
        bitmask_in_bounds(old(arr)@.len() as int, items_available as int),
    ensures
        final(arr)@.len() == old(arr)@.len(),
        res matches Ok((idx, found)) && good_index_outcome(
            old(arr)@,
            final(arr)@,
            items_available as int,
            index as int,
            pos,
            idx as int,
            found,
        ),
{
    let ghost a0 = arr@;
    let ghost items = items_available as int;
    let len = arr.len();
    let mut index_to_use = index;
    let mut taken: u8 = 1;
    let mut found = false;
    assert(items_available * CONFIG_LINE_SIZE + items_available / 8 + 12 + CONFIG_ARRAY_START <= len
        || items_available == 0);
    let bit_mask_vec_start = CONFIG_ARRAY_START + 4 + items_available * CONFIG_LINE_SIZE + 4
        + items_available / 8 + 4;
    assert(bit_mask_vec_start == mint_bitmask_start(items));
    assert(a0.len() == len);

    while taken > 0 && index_to_use < items_available
        invariant
            arr@.len() == a0.len(),
            a0.len() == len,
            bit_mask_vec_start == mint_bitmask_start(items),
            items == items_available,
            bitmask_in_bounds(a0.len() as int, items),
            found <==> taken == 0,
            !found ==> arr@ == a0,
            found ==> {
                &&& index_to_use < items
                &&& !line_minted(a0, items, index_to_use as int)
                &&& arr@ == mark_minted(a0, items, index_to_use as int)
            },
            index_to_use <= items + 7 || index_to_use == index,
            index >= items ==> index_to_use == index && !found,
            pos ==> {
                &&& index <= index_to_use
                &&& forall|j: int|
                    index <= j < index_to_use && j < items ==> #[trigger] line_minted(a0, items, j)
                &&& index < items && index_to_use >= items && !found ==> index_to_use == if mint_byte_full(
                    a0,
                    items,
                    (items - 1) / 8,
                ) {
                    ((items - 1) / 8 + 1) * 8
                } else {
                    items
                }
            },
            !pos ==> {
                &&& index_to_use <= index
                &&& index < items ==> forall|j: int|
                    index_to_use < j <= index ==> #[trigger] line_minted(a0, items, j)
                &&& index_to_use < 8 && index_to_use != (if index < 7 {
                    index
                } else {
                    7
                }) ==> !mint_byte_full(a0, items, 0)
            },
        ensures
            good_index_outcome(a0, arr@, items, index as int, pos, index_to_use as int, found),
        decreases (if pos {
            2 * (items + 8 - index_to_use)
        } else {
            2 * index_to_use
        }) + (if taken > 0 {
            1int
        } else {
            0int
        }),
    {
        assert(index_to_use / 8 <= (items - 1) / 8) by {
            vstd::arithmetic::div_mod::lemma_div_is_ordered(index_to_use as int, items - 1, 8);
        }
        assert(index_to_use == 8 * (index_to_use / 8) + index_to_use % 8);
        assert(index_to_use < 8 <==> index_to_use / 8 == 0);
        assert(items * CONFIG_LINE_SIZE < len);
        assert(items + 8 <= len) by (nonlinear_arith)
            requires
                items * CONFIG_LINE_SIZE < len,
                CONFIG_LINE_SIZE == 240,
                items >= 1,
        ;
        assert(index < items);
        let my_position_in_vec = bit_mask_vec_start + index_to_use / 8;
        if arr[my_position_in_vec] == 255 {
            let eight_remainder = 8 - index_to_use % 8;
            let reversed = 8 - eight_remainder + 1;
            if (eight_remainder != 0 && pos) || (reversed != 0 && !pos) {
                if pos {
                    proof {
                        assert forall|j: int|
                            index_to_use <= j < index_to_use + eight_remainder implies #[trigger] line_minted(
                            a0,
                            items,
                            j,
                        ) by {
                            assert(j / 8 == index_to_use / 8);
                            lemma_full_byte_minted(a0, items, j);
                        }
                    }
                    assert(index_to_use + eight_remainder <= items + 8);
                    index_to_use += eight_remainder;
                } else {
                    if index_to_use < 8 {
                        proof {
                            assert forall|j: int| 0 <= j <= index_to_use implies #[trigger] line_minted(
                                a0,
                                items,
                                j,
                            ) by {
                                assert(j / 8 == 0);
                                lemma_full_byte_minted(a0, items, j);
                            }
                        }
                        break;
                    }
                    proof {
                        assert forall|j: int|
                            index_to_use - reversed < j <= index_to_use implies #[trigger] line_minted(
                            a0,
                            items,
                            j,
                        ) by {
                            assert(j / 8 == index_to_use / 8);
                            lemma_full_byte_minted(a0, items, j);
                        }
                    }
                    index_to_use -= reversed;
                }
            } else if pos {
                index_to_use += 8;
            } else {
                index_to_use -= 8;
            }
        } else {
            let mask = bit_mask(index_to_use);
            taken = mask & arr[my_position_in_vec];
            proof {
                lemma_mask_of(index_to_use as int);
                lemma_mask_bits(arr@[my_position_in_vec as int], mask);
            }
            if taken > 0 {
                if pos {
                    index_to_use += 1;
                } else {
                    if index_to_use == 0 {
                        break;
                    }
                    index_to_use -= 1;
                }
            } else if taken == 0 {
                found = true;
                let byte = arr[my_position_in_vec];
                proof {
                    lemma_mask_of(index_to_use as int);
                    lemma_mask_bits(byte, mask);
                }
                arr.set(my_position_in_vec, byte | mask);
            }
        }
    }
    Ok((index_to_use, found))
}

/// First config line at or after `j` that was not minted, or `items` when
/// there is none.
pub open spec fn next_unminted(data: Seq<u8>, items: int, j: int) -> int
    decreases items - j,
{
    if j >= items {
        items
    } else if !line_minted(data, items, j) {
        j
    } else {
        next_unminted(data, items, j + 1)
    }
}

/// Last config line at or before `j` that was not minted, or -1 when there
/// is none.
pub open spec fn prev_unminted(data: Seq<u8>, items: int, j: int) -> int
    decreases j + 1,
{
    if j < 0 {
        -1
    } else if !line_minted(data, items, j) {
        j
    } else {
        prev_unminted(data, items, j - 1)
    }
}

/// The config line that a mint picks from the random `index`: the first one
/// not minted at or after it, else the last one not minted before it.
pub open spec fn chosen_line(data: Seq<u8>, items: int, index: int) -> Option<int> {
    if index >= items {
        None
    } else if next_unminted(data, items, index) < items {
        Some(next_unminted(data, items, index))
    } else if prev_unminted(data, items, index) >= 0 {
        Some(prev_unminted(data, items, index))
    } else {
        None
    }
}

proof fn lemma_next_found(data: Seq<u8>, items: int, j: int, idx: int)
    requires
        j <= idx < items,
        !line_minted(data, items, idx),
        forall|k: int| j <= k < idx ==> #[trigger] line_minted(data, items, k),
    ensures
        next_unminted(data, items, j) == idx,
    decreases idx - j,
{
    if j < idx {
        lemma_next_found(data, items, j + 1, idx);
    }
}

proof fn lemma_next_none(data: Seq<u8>, items: int, j: int)
    requires
        forall|k: int| j <= k < items ==> #[trigger] line_minted(data, items, k),
    ensures
        next_unminted(data, items, j) == items,
    decreases items - j,
{
    if j < items {
        lemma_next_none(data, items, j + 1);
    }
}

proof fn lemma_prev_found(data: Seq<u8>, items: int, j: int, idx: int)
    requires
        0 <= idx <= j,
        !line_minted(data, items, idx),
        forall|k: int| idx < k <= j ==> #[trigger] line_minted(data, items, k),
    ensures
        prev_unminted(data, items, j) == idx,
    decreases j - idx,
{
    if idx < j {
        lemma_prev_found(data, items, j - 1, idx);
    }
}

proof fn lemma_prev_none(data: Seq<u8>, items: int, j: int)
    requires
        forall|k: int| 0 <= k <= j ==> #[trigger] line_minted(data, items, k),
    ensures
        prev_unminted(data, items, j) == -1,
    decreases j + 1,
{
    if j >= 0 {
        lemma_prev_none(data, items, j - 1);
    }
}

proof fn lemma_next_is_unminted(data: Seq<u8>, items: int, j: int)
    ensures
        next_unminted(data, items, j) < items ==> !line_minted(data, items, next_unminted(data, items, j)),
    decreases items - j,
{
    if j < items && line_minted(data, items, j) {
        lemma_next_is_unminted(data, items, j + 1);
    }
}

proof fn lemma_prev_is_unminted(data: Seq<u8>, items: int, j: int)
    ensures
        prev_unminted(data, items, j) >= 0 ==> !line_minted(data, items, prev_unminted(data, items, j)),
    decreases j + 1,
{
    if j >= 0 && line_minted(data, items, j) {
        lemma_prev_is_unminted(data, items, j - 1);
    }
}

/// The config line that a mint chooses was not minted before.
pub proof fn lemma_chosen_line_was_unminted(data: Seq<u8>, items: int, index: int)
    requires
        0 <= index,
    ensures
        chosen_line(data, items, index) matches Some(i) ==> 0 <= i < items && !line_minted(
            data,
            items,
            i,
        ),
{
    lemma_next_is_unminted(data, items, index);
    lemma_prev_is_unminted(data, items, index);
    lemma_prev_bounds(data, items, index);
    lemma_next_bounds(data, items, index);
}

proof fn lemma_prev_bounds(data: Seq<u8>, items: int, j: int)
    ensures
        prev_unminted(data, items, j) == -1 || 0 <= prev_unminted(data, items, j) <= j,
    decreases j + 1,
{
    if j >= 0 && line_minted(data, items, j) {
        lemma_prev_bounds(data, items, j - 1);
    }
}

proof fn lemma_next_bounds(data: Seq<u8>, items: int, j: int)
    ensures
        j <= items ==> j <= next_unminted(data, items, j) <= items,
    decreases items - j,
{
    if j < items && line_minted(data, items, j) {
        lemma_next_bounds(data, items, j + 1);
    }
}

proof fn lemma_next_none_means_all_minted(data: Seq<u8>, items: int, j: int)
    requires
        next_unminted(data, items, j) == items,
    ensures
        forall|k: int| j <= k < items ==> #[trigger] line_minted(data, items, k),
    decreases items - j,
{
    if j < items {
        lemma_next_none_means_all_minted(data, items, j + 1);
    }
}

proof fn lemma_prev_none_means_all_minted(data: Seq<u8>, items: int, j: int)
    requires
        prev_unminted(data, items, j) == -1,
    ensures
        forall|k: int| 0 <= k <= j ==> #[trigger] line_minted(data, items, k),
    decreases j + 1,
{
    if j >= 0 {
        lemma_prev_none_means_all_minted(data, items, j - 1);
    }
}

/// Whatever the random starting index, a mint finds no config line only
/// when every config line was minted.
pub proof fn lemma_no_line_only_when_all_minted(data: Seq<u8>, items: int, index: int)
    requires
        0 <= index < items,
    ensures
        chosen_line(data, items, index) is None <==> forall|k: int|
            0 <= k < items ==> #[trigger] line_minted(data, items, k),
{
    lemma_next_bounds(data, items, index);
    lemma_prev_bounds(data, items, index);
    if chosen_line(data, items, index) is None {
        lemma_next_none_means_all_minted(data, items, index);
        lemma_prev_none_means_all_minted(data, items, index);
    } else {
        lemma_chosen_line_was_unminted(data, items, index);
    }
}

/// A config line, once marked minted, is never chosen again, whatever the
/// random index of a later mint.
pub proof fn lemma_minted_line_not_chosen_again(data: Seq<u8>, items: int, i: int, index: int)
    requires
        0 <= i < items,
        bitmask_in_bounds(data.len() as int, items),
    ensures
        chosen_line(mark_minted(data, items, i), items, index) != Some(i),
{
    let marked = mark_minted(data, items, i);
    vstd::arithmetic::div_mod::lemma_div_is_ordered(i, items - 1, 8);
    lemma_mask_of(i);
    lemma_mask_bits(data[mint_byte_index(items, i)], mask_of(i));
    assert(line_minted(marked, items, i));
    lemma_next_is_unminted(marked, items, index);
    lemma_prev_is_unminted(marked, items, index);
}

proof fn lemma_other_bit(b: u8, mi: u8, mj: u8)
    by (bit_vector)
    requires
        mi == 128u8 || mi == 64u8 || mi == 32u8 || mi == 16u8 || mi == 8u8 || mi == 4u8 || mi == 2u8
            || mi == 1u8,
        mj == 128u8 || mj == 64u8 || mj == 32u8 || mj == 16u8 || mj == 8u8 || mj == 4u8 || mj == 2u8
            || mj == 1u8,
        mi != mj,
    ensures
        ((b | mi) & mj != 0u8) == (b & mj != 0u8),
{
}

/// Marking line `i` minted sets its bit and leaves the bit of every other
/// line as it was.
pub proof fn lemma_mark_keeps_other_lines(data: Seq<u8>, items: int, i: int, j: int)
    requires
        0 <= i < items,
        0 <= j < items,
        bitmask_in_bounds(data.len() as int, items),
    ensures
        line_minted(mark_minted(data, items, i), items, j) == (j == i || line_minted(data, items, j)),
        mark_minted(data, items, i).len() == data.len(),
{
    vstd::arithmetic::div_mod::lemma_div_is_ordered(i, items - 1, 8);
    vstd::arithmetic::div_mod::lemma_div_is_ordered(j, items - 1, 8);
    lemma_mask_of(i);
    lemma_mask_of(j);
    let bi = mint_byte_index(items, i);
    let bj = mint_byte_index(items, j);
    let marked = mark_minted(data, items, i);
    if j == i {
        lemma_mask_bits(data[bi], mask_of(i));
    } else if bi == bj {
        vstd::arithmetic::div_mod::lemma_fundamental_div_mod(i, 8);
        vstd::arithmetic::div_mod::lemma_fundamental_div_mod(j, 8);
        assert(i % 8 != j % 8);
        assert(mask_of(i) != mask_of(j));
        lemma_other_bit(data[bi], mask_of(i), mask_of(j));
    } else {
        assert(marked[bj] == data[bj]);
    }
}

/// The number of config lines among the first `n` that were minted.
pub open spec fn minted_count(data: Seq<u8>, items: int, n: int) -> int
    decreases n,
{
    if n <= 0 {
        0
    } else {
        minted_count(data, items, n - 1) + if line_minted(data, items, n - 1) {
            1int
        } else {
            0int
        }
    }
}

proof fn lemma_mark_counts_once(data: Seq<u8>, items: int, i: int, n: int)
    requires
        0 <= i < items,
        0 <= n <= items,
        bitmask_in_bounds(data.len() as int, items),
        !line_minted(data, items, i),
    ensures
        minted_count(mark_minted(data, items, i), items, n) == minted_count(data, items, n) + if i < n {
            1int
        } else {
            0int
        },
    decreases n,
{
    if n > 0 {
        lemma_mark_counts_once(data, items, i, n - 1);
        lemma_mark_keeps_other_lines(data, items, i, n - 1);
    }
}

/// `datas[t + 1]` is the account data `datas[t]` after the mint that
/// chose config line `lines[t]` from the random index `indexes[t]`.
pub open spec fn config_line_history(
    datas: Seq<Seq<u8>>,
    items: int,
    indexes: Seq<int>,
    lines: Seq<int>,
) -> bool {
    &&& datas.len() == lines.len() + 1
    &&& indexes.len() == lines.len()
    &&& forall|t: int|
        #![trigger lines[t]]
        0 <= t < lines.len() ==> 0 <= indexes[t] && chosen_line(datas[t], items, indexes[t]) == Some(
            lines[t],
        ) && datas[t + 1] == mark_minted(datas[t], items, lines[t])
}

proof fn lemma_history_prefix(datas: Seq<Seq<u8>>, items: int, indexes: Seq<int>, lines: Seq<int>, m: int)
    requires
        config_line_history(datas, items, indexes, lines),
        0 <= m <= lines.len(),
        bitmask_in_bounds(datas[0].len() as int, items),
    ensures
        datas[m].len() == datas[0].len(),
        forall|t: int|
            #![trigger lines[t]]
            0 <= t < m ==> 0 <= lines[t] < items && line_minted(datas[m], items, lines[t]),
        forall|t1: int, t2: int| 0 <= t1 < t2 < m ==> lines[t1] != lines[t2],
        minted_count(datas[m], items, items) == minted_count(datas[0], items, items) + m,
    decreases m,
{
    if m > 0 {
        let p = m - 1;
        lemma_history_prefix(datas, items, indexes, lines, p);
        let l = lines[p];
        assert(0 <= indexes[p]);
        assert(chosen_line(datas[p], items, indexes[p]) == Some(l));
        assert(datas[p + 1] == mark_minted(datas[p], items, l));
        assert(datas[m] == mark_minted(datas[p], items, l));
        lemma_chosen_line_was_unminted(datas[p], items, indexes[p]);
        assert forall|t: int|
            #![trigger lines[t]]
            0 <= t < m implies 0 <= lines[t] < items && line_minted(datas[m], items, lines[t]) by {
            if t < p {
                lemma_mark_keeps_other_lines(datas[p], items, l, lines[t]);
            } else {
                lemma_mark_keeps_other_lines(datas[p], items, l, l);
            }
        }
        assert forall|t1: int, t2: int| 0 <= t1 < t2 < m implies lines[t1] != lines[t2] by {
            if t2 == p {
                assert(line_minted(datas[p], items, lines[t1]));
            }
        }
        lemma_mark_counts_once(datas[p], items, l, items);
        lemma_mark_keeps_other_lines(datas[p], items, l, l);
    }
}

/// Over any number of successive mints from the same account data, each
/// choosing its config line from a random index: no config line is handed
/// out twice, every line handed out stays marked minted, and the number of
/// minted lines grows by exactly the number of mints.
pub proof fn lemma_config_lines_never_reused(
    datas: Seq<Seq<u8>>,
    items: int,
    indexes: Seq<int>,
    lines: Seq<int>,
)
    requires
        config_line_history(datas, items, indexes, lines),
        bitmask_in_bounds(datas[0].len() as int, items),
    ensures
        forall|t1: int, t2: int| 0 <= t1 < t2 < lines.len() ==> lines[t1] != lines[t2],
        forall|t: int|
            #![trigger lines[t]]
            0 <= t < lines.len() ==> 0 <= lines[t] < items && line_minted(datas.last(), items, lines[t]),
        minted_count(datas.last(), items, items) == minted_count(datas[0], items, items) + lines.len(),
{
    lemma_history_prefix(datas, items, indexes, lines, lines.len() as int);
}

/// Offset of config line `i` in the account.
pub open spec fn line_offset(i: int) -> int {
    CONFIG_ARRAY_START + 4 + i * CONFIG_LINE_SIZE
}

/// The zero-padded name field of config line `i`.
pub open spec fn name_window(data: Seq<u8>, i: int) -> Seq<u8> {
    data.subrange(line_offset(i) + 4, line_offset(i) + 4 + MAX_NAME_LENGTH)
}

/// The zero-padded URI field of config line `i`.
pub open spec fn uri_window(data: Seq<u8>, i: int) -> Seq<u8> {
    data.subrange(line_offset(i) + 8 + MAX_NAME_LENGTH, line_offset(i) + 8 + MAX_NAME_LENGTH + MAX_URI_LENGTH)
}

/// What reading config line `i` out of the account data gives: refused when
/// its first byte is 1 or a field is not UTF-8, else its name and URI.
pub open spec fn read_config_line(data: Seq<u8>, i: int, line: Result<ConfigLine, MagicHatError>) -> bool {
    if data[line_offset(i)] == 1 {
        line == Err::<ConfigLine, MagicHatError>(MagicHatError::CannotFindUsableConfigLine)
    } else if !valid_utf8(text_field(name_window(data, i))) || !valid_utf8(
        text_field(uri_window(data, i)),
    ) {
        line == Err::<ConfigLine, MagicHatError>(MagicHatError::InvalidString)
    } else {
        line matches Ok(l) && l.name@ == decode_utf8(text_field(name_window(data, i))) && l.uri@
            == decode_utf8(text_field(uri_window(data, i)))
    }
}

/// Copies the bytes of a zero-padded field of at most `max` bytes starting at
/// `from`, up to its first zero byte.
fn read_text_field(arr: &Vec<u8>, from: usize, max: usize) -> (out: Vec<u8>)
    requires
        from + max <= arr@.len(),
    ensures
        out@ == text_field(arr@.subrange(from as int, from + max)),
{
    let ghost w = arr@.subrange(from as int, from + max);
    let len = arr.len();
    assert(from + max <= len);
    let end = from + max;
    let mut out: Vec<u8> = Vec::with_capacity(max);
    let mut i: usize = from;
    while i < end && arr[i] != 0
        invariant
            end == from + max,
            from <= i <= from + max,
            from + max <= arr@.len(),
            w == arr@.subrange(from as int, from + max),
            out@ == w.take(i - from),
            forall|j: int| 0 <= j < i - from ==> w[j] != 0,
        decreases from + max - i,
    {
        out.push(arr[i]);
        assert(out@ =~= w.take(i + 1 - from));
        i += 1;
    }
    proof {
        if i < end {
            assert(w[i - from] == arr@[i as int]);
        }
        lemma_nul_position(w, i - from);
    }
    out
}

/// The name and URI of the NFT for mint number `mint_number`. With hidden
/// settings every NFT shares their URI and is named after its number;
/// otherwise the config line is chosen from `index` and marked minted in
/// the account data `arr`.
pub fn get_config_line(a: &MagicHat, arr: &mut Vec<u8>, index: usize, mint_number: u64) -> (res:
    Result<ConfigLine, MagicHatError>)
    requires
        a.data.hidden_settings is Some ==> mint_number < u64::MAX,
        a.data.hidden_settings is None ==> bitmask_in_bounds(
            old(arr)@.len() as int,
            (a.data.items_available as usize) as int,
        ),
    ensures
        match a.data.hidden_settings {
            Some(hs) => {
                &&& final(arr)@ == old(arr)@
                &&& res matches Ok(line) && line.name@ == hs.name@ + "#"@ + decimal_digits(
                    (mint_number + 1) as nat,
                ) && line.uri@ == hs.uri@
            },
            None => {
                let items = (a.data.items_available as usize) as int;
                match chosen_line(old(arr)@, items, index as int) {
                    None => final(arr)@ == old(arr)@ && res == Err::<ConfigLine, MagicHatError>(
                        MagicHatError::CannotFindUsableConfigLine,
                    ),
                    Some(i) => {
                        &&& final(arr)@ == mark_minted(old(arr)@, items, i)
                        &&& read_config_line(final(arr)@, i, res)
                    },
                }
            },
        },
{
    if let Some(hs) = &a.data.hidden_settings {
        let mut name = hs.name.clone();
        name.append("#");
        let number = decimal_string(mint_number + 1);
        name.append(number.as_str());
        return Ok(ConfigLine { name, uri: hs.uri.clone() });
    }
    let ghost before = arr@;
    let items_available = a.data.items_available as usize;
    let ghost items = items_available as int;
    let (mut index_to_use, good) = get_good_index(arr, items_available, index, true)?;
    if !good {
        let (index_to_use_new, good_new) = get_good_index(arr, items_available, index, false)?;
        index_to_use = index_to_use_new;
        if !good_new {
            proof {
                if index < items {
                    lemma_next_none(before, items, index as int);
                    lemma_prev_none(before, items, index as int);
                }
            }
            return Err(MagicHatError::CannotFindUsableConfigLine);
        }
        proof {
            lemma_next_none(before, items, index as int);
            lemma_prev_found(before, items, index as int, index_to_use as int);
        }
    } else {
        proof {
            lemma_next_found(before, items, index as int, index_to_use as int);
        }
    }
    assert(chosen_line(before, items, index as int) == Some(index_to_use as int));
    assert(line_offset(index_to_use as int) + CONFIG_LINE_SIZE <= mint_bitmask_start(items)) by (nonlinear_arith)
        requires
            0 <= index_to_use < items,
            CONFIG_LINE_SIZE == 240,
    ;
    let len = arr.len();
    assert(mint_bitmask_start(items) < len);
    assert(index_to_use * CONFIG_LINE_SIZE < len);
    let line_start = CONFIG_ARRAY_START + 4 + index_to_use * CONFIG_LINE_SIZE;
    if arr[line_start] == 1 {
        return Err(MagicHatError::CannotFindUsableConfigLine);
    }
    let name_vec = read_text_field(arr, line_start + 4, MAX_NAME_LENGTH);
    let uri_vec = read_text_field(arr, line_start + 8 + MAX_NAME_LENGTH, MAX_URI_LENGTH);
    let name = match string_from_utf8(name_vec) {
        Some(val) => val,
        None => return Err(MagicHatError::InvalidString),
    };
    let uri = match string_from_utf8(uri_vec) {
        Some(val) => val,
        None => return Err(MagicHatError::InvalidString),
    };
    Ok(ConfigLine { name, uri })
}

/// What the mint instruction does after one of its checks.
#[derive(Clone, Copy, Debug, PartialEq, Eq, Structural)]
pub enum MintVerdict {
    /// Go on with the mint.
    Continue,
    /// Stop the mint, charge the payer the bot fee and end successfully.
    Punish(MagicHatError),
    /// Abort the instruction with the error.
    Fail(MagicHatError),
}

/// The well-known accounts and programs that the mint instruction checks
/// against.
#[derive(Clone, Copy, Debug)]
pub struct ProgramIds {
    pub magic_hat: Address,
    pub gumdrop: Address,
    pub cupcake: Address,
    pub spl_token: Address,
    pub system: Address,
    pub associated_token: Address,
    pub slot_hashes: Address,
    pub block_hashes: Address,
}

/// The verdict on the accounts of a mint transaction.
pub open spec fn transaction_accounts_verdict(
    ids: ProgramIds,
    metadata_is_empty: bool,
    slot_hashes_key: Address,
    current_program: Seq<u8>,
) -> MintVerdict {
    if !metadata_is_empty {
        MintVerdict::Fail(MagicHatError::MetadataAccountMustBeEmpty)
    } else if slot_hashes_key@ != ids.slot_hashes@ && slot_hashes_key@ != ids.block_hashes@ {
        MintVerdict::Fail(MagicHatError::IncorrectSlotHashesPubkey)
    } else if current_program != ids.magic_hat@ && current_program != ids.gumdrop@
        && current_program != ids.cupcake@ {
        MintVerdict::Punish(MagicHatError::SuspiciousTransaction)
    } else {
        MintVerdict::Continue
    }
}

/// Refuses a mint whose metadata account is already used or whose slot
/// hashes account is not the sysvar, and punishes one that another program
/// than the magic hat, gumdrop or cupcake calls.
pub fn check_transaction_accounts(
    ids: &ProgramIds,
    metadata_is_empty: bool,
    slot_hashes_key: &Address,
    current_program: &Address,
) -> (v: MintVerdict)
    ensures
        v == transaction_accounts_verdict(*ids, metadata_is_empty, *slot_hashes_key, current_program@),
{
    if !metadata_is_empty {
        return MintVerdict::Fail(MagicHatError::MetadataAccountMustBeEmpty);
    }
    if !same_pubkey(slot_hashes_key, &ids.slot_hashes) && !same_pubkey(slot_hashes_key, &ids.block_hashes) {
        return MintVerdict::Fail(MagicHatError::IncorrectSlotHashesPubkey);
    }
    if !same_pubkey(current_program, &ids.magic_hat) && !same_pubkey(current_program, &ids.gumdrop)
        && !same_pubkey(current_program, &ids.cupcake) {
        return MintVerdict::Punish(MagicHatError::SuspiciousTransaction);
    }
    MintVerdict::Continue
}

/// The verdict on the instruction that follows a mint, if any.
pub open spec fn next_instruction_verdict(
    ids: ProgramIds,
    uuid: Seq<char>,
    next_program: Option<Seq<u8>>,
    next_data: Seq<u8>,
    has_instruction_after: bool,
) -> MintVerdict {
    match next_program {
        Some(p) => if p != ids.magic_hat@ || next_data.take(8)
            != SET_COLLECTION_DURING_MINT_DISCRIMINATOR@ || has_instruction_after {
            MintVerdict::Fail(MagicHatError::SuspiciousTransaction)
        } else {
            MintVerdict::Continue
        },
        None => if feature_active(uuid, COLLECTIONS_FEATURE_INDEX as int) {
            MintVerdict::Punish(MagicHatError::MissingSetCollectionDuringMint)
        } else {
            MintVerdict::Continue
        },
    }
}

/// Only `set_collection_during_mint` of the magic hat may follow a mint, and
/// nothing after it; a collection sale needs it.
pub fn check_next_instruction(
    ids: &ProgramIds,
    uuid: &String,
    next_program: Option<Address>,
    next_data: &[u8],
    has_instruction_after: bool,
) -> (v: MintVerdict)
    requires
        next_program is Some ==> next_data@.len() >= 8,
        next_program is None ==> COLLECTIONS_FEATURE_INDEX < uuid@.len(),
    ensures
        v == next_instruction_verdict(
            *ids,
            uuid@,
            match next_program {
                Some(p) => Some(p@),
                None => None,
            },
            next_data@,
            has_instruction_after,
        ),
{
    match next_program {
        Some(program) => {
            let discriminator = SET_COLLECTION_DURING_MINT_DISCRIMINATOR;
            let mut same = true;
            let mut i: usize = 0;
            assert(next_data@.take(0) =~= discriminator@.take(0));
            while i < 8
                invariant
                    0 <= i <= 8,
                    next_data@.len() >= 8,
                    discriminator@ == SET_COLLECTION_DURING_MINT_DISCRIMINATOR@,
                    same == (next_data@.take(i as int) == discriminator@.take(i as int)),
                decreases 8 - i,
            {
                if next_data[i] != discriminator[i] {
                    assert(next_data@.take(i + 1)[i as int] != discriminator@.take(i + 1)[i as int]);
                    same = false;
                } else if same {
                    assert(next_data@.take(i + 1) =~= discriminator@.take(i + 1));
                } else {
                    assert(next_data@.take(i + 1) != discriminator@.take(i + 1)) by {
                        if next_data@.take(i + 1) == discriminator@.take(i + 1) {
                            assert(next_data@.take(i as int) =~= discriminator@.take(i as int));
                        }
                    }
                }
                i += 1;
            }
            assert(discriminator@.take(8) =~= discriminator@);
            if !same_pubkey(&program, &ids.magic_hat) || !same || has_instruction_after {
                return MintVerdict::Fail(MagicHatError::SuspiciousTransaction);
            }
            MintVerdict::Continue
        },
        None => {
            if is_feature_active(uuid, COLLECTIONS_FEATURE_INDEX) {
                return MintVerdict::Punish(MagicHatError::MissingSetCollectionDuringMint);
            }
            MintVerdict::Continue
        },
    }
}

/// The programs that the other instructions of a mint transaction may call:
/// the magic hat, the token program, the system program and the associated
/// token program.
pub fn allowed_programs(ids: &ProgramIds) -> (allowed: Vec<Address>)
    ensures
        allowed@ == seq![ids.magic_hat, ids.spl_token, ids.system, ids.associated_token],
{
    let mut allowed: Vec<Address> = Vec::new();
    allowed.push(ids.magic_hat);
    allowed.push(ids.spl_token);
    allowed.push(ids.system);
    allowed.push(ids.associated_token);
    assert(allowed@ =~= seq![ids.magic_hat, ids.spl_token, ids.system, ids.associated_token]);
    allowed
}

/// The verdict of the end settings on a mint at time `now` by `payer`.
pub open spec fn end_settings_verdict(magic_hat: MagicHat, now: i64, payer: Address) -> MintVerdict {
    match magic_hat.data.end_settings {
        None => MintVerdict::Continue,
        Some(es) => match es.end_setting_type {
            EndSettingType::Date => if now > es.number as i64 && payer@ != magic_hat.authority@ {
                MintVerdict::Punish(MagicHatError::MagicHatNotLive)
            } else {
                MintVerdict::Continue
            },
            EndSettingType::Amount => if magic_hat.items_redeemed >= es.number {
                if payer@ != magic_hat.authority@ {
                    MintVerdict::Punish(MagicHatError::MagicHatEmpty)
                } else {
                    MintVerdict::Fail(MagicHatError::MagicHatEmpty)
                }
            } else {
                MintVerdict::Continue
            },
        },
    }
}

/// Stops a mint after the end of the sale: past the end date, or once the
/// end amount was minted. The authority may still mint past the date, and
/// gets an error rather than the fee past the amount.
pub fn check_end_settings(magic_hat: &MagicHat, now: i64, payer: &Address) -> (v: MintVerdict)
    ensures
        v == end_settings_verdict(*magic_hat, now, *payer),
{
    if let Some(es) = &magic_hat.data.end_settings {
        match es.end_setting_type {
            EndSettingType::Date => {
                if now > es.number as i64 && !same_pubkey(payer, &magic_hat.authority) {
                    return MintVerdict::Punish(MagicHatError::MagicHatNotLive);
                }
            },
            EndSettingType::Amount => {
                if magic_hat.items_redeemed >= es.number {
                    if !same_pubkey(payer, &magic_hat.authority) {
                        return MintVerdict::Punish(MagicHatError::MagicHatEmpty);
                    }
                    return MintVerdict::Fail(MagicHatError::MagicHatEmpty);
                }
            },
        }
    }
    MintVerdict::Continue
}

/// Which remaining accounts of the mint the gateway check uses.
#[derive(Clone, Copy, Debug, PartialEq, Eq, Structural)]
pub enum GatekeeperAccounts {
    /// The sale needs no gateway token.
    NotRequired,
    /// Remaining account 0 is the gateway token to verify.
    Verify,
    /// Remaining accounts 0, 1 and 2 are the gateway token, the gateway
    /// program and the network expire feature: verify and expire the token.
    VerifyAndExpire,
    /// An account is missing.
    Refused(MintVerdict),
}

/// How the gateway accounts are found among `remaining` accounts, and how
/// many of them there are.
pub open spec fn gatekeeper_layout(gatekeeper: Option<GatekeeperConfig>, remaining: usize) -> (
    GatekeeperAccounts,
    usize,
) {
    match gatekeeper {
        None => (GatekeeperAccounts::NotRequired, 0usize),
        Some(g) => if remaining <= 0 {
            (
                GatekeeperAccounts::Refused(
                    MintVerdict::Punish(MagicHatError::GatewayTokenMissing),
                ),
                0usize,
            )
        } else if !g.expire_on_use {
            (GatekeeperAccounts::Verify, 1usize)
        } else if remaining <= 1 {
            (
                GatekeeperAccounts::Refused(MintVerdict::Fail(MagicHatError::GatewayAppMissing)),
                1usize,
            )
        } else if remaining <= 2 {
            (
                GatekeeperAccounts::Refused(
                    MintVerdict::Fail(MagicHatError::NetworkExpireFeatureMissing),
                ),
                2usize,
            )
        } else {
            (GatekeeperAccounts::VerifyAndExpire, 3usize)
        },
    }
}

/// Finds the gateway accounts among the `remaining` accounts of the mint;
/// gives back how they are used and how many of them.
pub fn gatekeeper_accounts(gatekeeper: &Option<GatekeeperConfig>, remaining: usize) -> (r: (
    GatekeeperAccounts,
    usize,
))
    ensures
        r == gatekeeper_layout(*gatekeeper, remaining),
{
    let mut remaining_accounts_counter: usize = 0;
    if let Some(g) = gatekeeper {
        if remaining <= remaining_accounts_counter {
            return (
                GatekeeperAccounts::Refused(MintVerdict::Punish(MagicHatError::GatewayTokenMissing)),
                remaining_accounts_counter,
            );
        }
        remaining_accounts_counter += 1;
        if g.expire_on_use {
            if remaining <= remaining_accounts_counter {
                return (
                    GatekeeperAccounts::Refused(MintVerdict::Fail(MagicHatError::GatewayAppMissing)),
                    remaining_accounts_counter,
                );
            }
            remaining_accounts_counter += 1;
            if remaining <= remaining_accounts_counter {
                return (
                    GatekeeperAccounts::Refused(
                        MintVerdict::Fail(MagicHatError::NetworkExpireFeatureMissing),
                    ),
                    remaining_accounts_counter,
                );
            }
            remaining_accounts_counter += 1;
            return (GatekeeperAccounts::VerifyAndExpire, remaining_accounts_counter);
        }
        return (GatekeeperAccounts::Verify, remaining_accounts_counter);
    }
    (GatekeeperAccounts::NotRequired, remaining_accounts_counter)
}

/// The gateway token is refused when, outside a presale, it expires less
/// than the token lifetime after the go-live date, that is, when it was
/// issued before the sale went live.
pub open spec fn gateway_token_too_old(data: MagicHatData, expire_time: Option<i64>) -> bool {
    match (data.go_live_date, data.whitelist_mint_settings, expire_time) {
        (Some(go_live_date), Some(ws), Some(expire_time)) => !ws.presale && expire_time < go_live_date
            + EXPIRE_OFFSET,
        _ => false,
    }
}

/// Check that the gateway program runs on the token before it accepts it.
pub fn gateway_token_check(data: &MagicHatData, expire_time: Option<i64>) -> (r: Result<
    (),
    MagicHatError,
>)
    requires
        data.go_live_date matches Some(g) ==> (data.whitelist_mint_settings matches Some(ws) ==> (
        !ws.presale && expire_time is Some ==> g + EXPIRE_OFFSET <= i64::MAX)),
    ensures
        r == if gateway_token_too_old(*data, expire_time) {
            Err::<(), MagicHatError>(MagicHatError::GatewayTokenExpireTimeInvalid)
        } else {
            Ok(())
        },
{
    match (&data.go_live_date, &data.whitelist_mint_settings, expire_time) {
        (Some(go_live_date), Some(ws), Some(expire_time)) => {
            if !ws.presale && expire_time < *go_live_date + EXPIRE_OFFSET {
                return Err(MagicHatError::GatewayTokenExpireTimeInvalid);
            }
            Ok(())
        },
        _ => Ok(()),
    }
}

/// The remaining accounts that burn a whitelist token: its mint and the
/// burn authority.
#[derive(Clone, Copy, Debug, PartialEq, Eq, Structural)]
pub struct BurnAccounts {
    pub mint: usize,
    pub authority: usize,
}

/// What the whitelist settings decide about a mint: the verdict, the price
/// to pay, the whitelist token to burn, and the next unused remaining
/// account.
#[derive(Clone, Copy, Debug, PartialEq, Eq, Structural)]
pub struct WhitelistPlan {
    pub verdict: MintVerdict,
    pub price: u64,
    pub burn: Option<BurnAccounts>,
    pub next_counter: usize,
}

/// The plan for a mint under the whitelist settings of `magic_hat`.
/// `token_amount` is the payer's balance of the whitelist token, when the
/// remaining account at `counter` is the payer's associated token account
/// for it; `price` is the price without whitelist discount.
pub open spec fn whitelist_plan(
    magic_hat: MagicHat,
    token_amount: Option<u64>,
    now: i64,
    payer: Address,
    remaining: Seq<Address>,
    counter: int,
    price: u64,
) -> WhitelistPlan {
    let live = go_live_reached(magic_hat, payer, now);
    match magic_hat.data.whitelist_mint_settings {
        None => WhitelistPlan {
            verdict: if live {
                MintVerdict::Continue
            } else {
                MintVerdict::Punish(MagicHatError::MagicHatNotLive)
            },
            price,
            burn: None,
            next_counter: counter as usize,
        },
        Some(ws) => {
            let burn_mode = ws.mode == WhitelistMintMode::BurnEveryTime;
            let after = counter + 1;
            let forced = ws.discount_price is None && !ws.presale;
            let refused = |verdict: MintVerdict, next: int|
                WhitelistPlan { verdict, price, burn: None, next_counter: next as usize };
            if token_amount matches Some(a) && a > 0 {
                let discounted = match ws.discount_price {
                    Some(dp) => dp,
                    None => price,
                };
                if !(live || ws.presale) {
                    refused(MintVerdict::Punish(MagicHatError::MagicHatNotLive), after)
                } else if burn_mode {
                    if remaining[after]@ != ws.mint@ {
                        refused(MintVerdict::Punish(MagicHatError::IncorrectOwner), after + 2)
                    } else {
                        WhitelistPlan {
                            verdict: MintVerdict::Continue,
                            price: discounted,
                            burn: Some(
                                BurnAccounts { mint: after as usize, authority: (after + 1) as usize },
                            ),
                            next_counter: (after + 2) as usize,
                        }
                    }
                } else {
                    WhitelistPlan {
                        verdict: MintVerdict::Continue,
                        price: discounted,
                        burn: None,
                        next_counter: after as usize,
                    }
                }
            } else if token_amount is Some {
                if forced {
                    refused(MintVerdict::Punish(MagicHatError::NoWhitelistToken), after)
                } else if !live {
                    refused(MintVerdict::Punish(MagicHatError::MagicHatNotLive), after)
                } else {
                    refused(MintVerdict::Continue, if burn_mode { after + 2 } else { after })
                }
            } else {
                if forced {
                    refused(MintVerdict::Punish(MagicHatError::NoWhitelistToken), after)
                } else if !live {
                    refused(
                        MintVerdict::Punish(MagicHatError::MagicHatNotLive),
                        if burn_mode { after + 2 } else { after },
                    )
                } else {
                    refused(MintVerdict::Continue, if burn_mode { after + 2 } else { after })
                }
            }
        },
    }
}

/// Applies the whitelist settings to a mint: checks the go-live date, or
/// lets the holders of the whitelist token in early or at a discount, and
/// says which whitelist token to burn.
pub fn plan_whitelist(
    magic_hat: &MagicHat,
    token_amount: Option<u64>,
    now: i64,
    payer: &Address,
    remaining: &Vec<Address>,
    counter: usize,
    price: u64,
) -> (plan: WhitelistPlan)
    requires
        magic_hat.data.whitelist_mint_settings is Some ==> counter < remaining@.len() && counter + 3
            <= usize::MAX,
        magic_hat.data.whitelist_mint_settings matches Some(ws) ==> (token_amount matches Some(a) ==> (
        a > 0 && ws.mode == WhitelistMintMode::BurnEveryTime && (go_live_reached(
            *magic_hat,
            *payer,
            now,
        ) || ws.presale) ==> counter + 2 < remaining@.len())),
    ensures
        plan == whitelist_plan(*magic_hat, token_amount, now, *payer, remaining@, counter as int, price),
{
    let mut price = price;
    let mut remaining_accounts_counter = counter;
    if let Some(ws) = &magic_hat.data.whitelist_mint_settings {
        remaining_accounts_counter += 1;
        match token_amount {
            Some(amount) => {
                if amount > 0 {
                    match magic_hat.data.go_live_date {
                        None => {
                            if !same_pubkey(payer, &magic_hat.authority) && !ws.presale {
                                return WhitelistPlan {
                                    verdict: MintVerdict::Punish(MagicHatError::MagicHatNotLive),
                                    price,
                                    burn: None,
                                    next_counter: remaining_accounts_counter,
                                };
                            }
                        },
                        Some(val) => {
                            if now < val && !same_pubkey(payer, &magic_hat.authority) && !ws.presale {
                                return WhitelistPlan {
                                    verdict: MintVerdict::Punish(MagicHatError::MagicHatNotLive),
                                    price,
                                    burn: None,
                                    next_counter: remaining_accounts_counter,
                                };
                            }
                        },
                    }
                    let mut burn = None;
                    if ws.mode == WhitelistMintMode::BurnEveryTime {
                        let whitelist_token_mint = remaining_accounts_counter;
                        remaining_accounts_counter += 1;
                        let whitelist_burn_authority = remaining_accounts_counter;
                        remaining_accounts_counter += 1;
                        if !same_pubkey(&remaining[whitelist_token_mint], &ws.mint) {
                            return WhitelistPlan {
                                verdict: MintVerdict::Punish(MagicHatError::IncorrectOwner),
                                price,
                                burn: None,
                                next_counter: remaining_accounts_counter,
                            };
                        }
                        burn = Some(
                            BurnAccounts {
                                mint: whitelist_token_mint,
                                authority: whitelist_burn_authority,
                            },
                        );
                    }
                    if let Some(dp) = ws.discount_price {
                        price = dp;
                    }
                    return WhitelistPlan {
                        verdict: MintVerdict::Continue,
                        price,
                        burn,
                        next_counter: remaining_accounts_counter,
                    };
                } else {
                    if ws.discount_price.is_none() && !ws.presale {
                        return WhitelistPlan {
                            verdict: MintVerdict::Punish(MagicHatError::NoWhitelistToken),
                            price,
                            burn: None,
                            next_counter: remaining_accounts_counter,
                        };
                    }
                    if assert_valid_go_live(payer, now, magic_hat).is_err() {
                        return WhitelistPlan {
                            verdict: MintVerdict::Punish(MagicHatError::MagicHatNotLive),
                            price,
                            burn: None,
                            next_counter: remaining_accounts_counter,
                        };
                    }
                    if ws.mode == WhitelistMintMode::BurnEveryTime {
                        remaining_accounts_counter += 2;
                    }
                }
            },
            None => {
                if ws.discount_price.is_none() && !ws.presale {
                    return WhitelistPlan {
                        verdict: MintVerdict::Punish(MagicHatError::NoWhitelistToken),
                        price,
                        burn: None,
                        next_counter: remaining_accounts_counter,
                    };
                }
                if ws.mode == WhitelistMintMode::BurnEveryTime {
                    remaining_accounts_counter += 2;
                }
                if assert_valid_go_live(payer, now, magic_hat).is_err() {
                    return WhitelistPlan {
                        verdict: MintVerdict::Punish(MagicHatError::MagicHatNotLive),
                        price,
                        burn: None,
                        next_counter: remaining_accounts_counter,
                    };
                }
            },
        }
    } else {
        if assert_valid_go_live(payer, now, magic_hat).is_err() {
            return WhitelistPlan {
                verdict: MintVerdict::Punish(MagicHatError::MagicHatNotLive),
                price,
                burn: None,
                next_counter: remaining_accounts_counter,
            };
        }
    }
    WhitelistPlan { verdict: MintVerdict::Continue, price, burn: None, next_counter: remaining_accounts_counter }
}

/// Some item of the magic hat is still available.
pub open spec fn check_items_passes(magic_hat: MagicHat) -> bool {
    magic_hat.items_redeemed < magic_hat.data.items_available
}

/// A sold-out magic hat punishes further mints.
pub fn check_items_remaining(magic_hat: &MagicHat) -> (v: MintVerdict)
    ensures
        v == if !check_items_passes(*magic_hat) {
            MintVerdict::Punish(MagicHatError::MagicHatEmpty)
        } else {
            MintVerdict::Continue
        },
{
    if magic_hat.items_redeemed >= magic_hat.data.items_available {
        return MintVerdict::Punish(MagicHatError::MagicHatEmpty);
    }
    MintVerdict::Continue
}

/// A mint that passed the sold-out check redeems at most the available
/// items: redeemed items never exceed the supply.
pub proof fn lemma_redemptions_within_supply(before: MagicHat, after: MagicHat)
    requires
        check_items_passes(before),
        after == (MagicHat { items_redeemed: (before.items_redeemed + 1) as u64, ..before }),
    ensures
        after.items_redeemed <= after.data.items_available,
        after.items_redeemed == before.items_redeemed + 1,
{
}

/// The remaining accounts that pay in tokens: the payer's token account and
/// the transfer authority, when the magic hat sells for a token.
pub fn token_payment_accounts(magic_hat: &MagicHat, counter: usize) -> (r: Option<(usize, usize)>)
    requires
        magic_hat.token_mint is Some ==> counter < usize::MAX,
    ensures
        r == if magic_hat.token_mint is Some {
            Some((counter, (counter + 1) as usize))
        } else {
            None::<(usize, usize)>
        },
{
    if magic_hat.token_mint.is_some() {
        Some((counter, counter + 1))
    } else {
        None
    }
}

/// The verdict on a payer whose balance is `balance` for a mint at `price`.
pub open spec fn balance_verdict(magic_hat: MagicHat, balance: u64, price: u64) -> MintVerdict {
    if balance < price {
        MintVerdict::Fail(
            if magic_hat.token_mint is Some {
                MagicHatError::NotEnoughTokens
            } else {
                MagicHatError::NotEnoughSOL
            },
        )
    } else {
        MintVerdict::Continue
    }
}

/// A payer whose `balance` (of the sale token, or of lamports) is below the
/// price cannot mint.
pub fn check_balance(magic_hat: &MagicHat, balance: u64, price: u64) -> (v: MintVerdict)
    ensures
        v == balance_verdict(*magic_hat, balance, price),
{
    if magic_hat.token_mint.is_some() {
        if balance < price {
            return MintVerdict::Fail(MagicHatError::NotEnoughTokens);
        }
    } else {
        if balance < price {
            return MintVerdict::Fail(MagicHatError::NotEnoughSOL);
        }
    }
    MintVerdict::Continue
}

/// The random starting point of the config-line search: the most recent
/// slot hash (bytes 12 to 20 of the slot hashes sysvar, little endian)
/// modulo the number of items.
pub fn random_start_index(slot_hashes: &[u8], items_available: u64) -> (r: Result<usize, MagicHatError>)
    requires
        slot_hashes@.len() >= 20,
    ensures
        items_available == 0 ==> r == Err::<usize, MagicHatError>(MagicHatError::NumericalOverflowError),
        items_available > 0 ==> r == Ok::<usize, MagicHatError>(
            (spec_u64_from_le_bytes(slot_hashes@.subrange(12, 20)) % items_available) as usize,
        ),
        r matches Ok(i) ==> i < items_available,
{
    let most_recent = vstd::slice::slice_subrange(slot_hashes, 12, 20);
    let index = u64_from_le_bytes(most_recent);
    match index.checked_rem(items_available) {
        Some(modded) => Ok(modded as usize),
        None => Err(MagicHatError::NumericalOverflowError),
    }
}

/// Counts one more redeemed item, refusing to overflow.
pub fn record_redemption(magic_hat: &mut MagicHat) -> (r: Result<(), MagicHatError>)
    ensures
        old(magic_hat).items_redeemed == u64::MAX ==> r == Err::<(), MagicHatError>(
            MagicHatError::NumericalOverflowError,
        ) && *final(magic_hat) == *old(magic_hat),
        old(magic_hat).items_redeemed < u64::MAX ==> r is Ok && *final(magic_hat) == (MagicHat {
            items_redeemed: (old(magic_hat).items_redeemed + 1) as u64,
            ..*old(magic_hat)
        }),
{
    match magic_hat.items_redeemed.checked_add(1) {
        Some(v) => {
            magic_hat.items_redeemed = v;
            Ok(())
        },
        None => Err(MagicHatError::NumericalOverflowError),
    }
}

/// The creators of a minted NFT: the magic hat's creator account, verified
/// and without share, followed by the configured creators, unverified.
pub fn mint_creators(magic_hat_creator: &Address, data: &MagicHatData) -> (creators: Vec<Creator>)
    ensures
        creators@.len() == data.creators@.len() + 1,
        creators@[0] == (Creator { address: *magic_hat_creator, verified: true, share: 0 }),
        forall|i: int|
            0 <= i < data.creators@.len() ==> #[trigger] creators@[i + 1] == (Creator {
                address: data.creators@[i].address,
                verified: false,
                share: data.creators@[i].share,
            }),
{
    let mut creators: Vec<Creator> = Vec::new();
    creators.push(Creator { address: *magic_hat_creator, verified: true, share: 0 });
    let mut i: usize = 0;
    while i < data.creators.len()
        invariant
            0 <= i <= data.creators@.len(),
            creators@.len() == i + 1,
            creators@[0] == (Creator { address: *magic_hat_creator, verified: true, share: 0 }),
            forall|k: int|
                0 <= k < i ==> #[trigger] creators@[k + 1] == (Creator {
                    address: data.creators@[k].address,
                    verified: false,
                    share: data.creators@[k].share,
                }),
        decreases data.creators@.len() - i,
    {
        let c = &data.creators[i];
        creators.push(Creator { address: c.address, verified: false, share: c.share });
        i += 1;
    }
    creators
}

/// The update authority of a minted NFT: the magic hat's authority when it
/// retains authority, else the given update authority.
pub fn new_update_authority(magic_hat: &MagicHat, update_authority: &Address) -> (a: Address)
    ensures
        a == if magic_hat.data.retain_authority {
            magic_hat.authority
        } else {
            *update_authority
        },
{
    let mut new_update_authority = magic_hat.authority;
    if !magic_hat.data.retain_authority {
        new_update_authority = *update_authority;
    }
    new_update_authority
}

/// The mutability flag to write on a minted NFT's metadata: locked when the
/// magic hat mints immutable NFTs, unchanged otherwise.
pub fn metadata_mutability(magic_hat: &MagicHat) -> (m: Option<bool>)
    ensures
        m == if !magic_hat.data.is_mutable {
            Some(false)
        } else {
            None::<bool>
        },
{
    if !magic_hat.data.is_mutable {
        Some(false)
    } else {
        None
    }
}

/// Uses up one whitelist spot of the minting wallet, refusing to go below
/// zero.
pub fn consume_whitelist_spot(wallet_whitelist: &mut WalletWhitelist) -> (r: Result<(), MagicHatError>)
    ensures
        old(wallet_whitelist).number_of_whitelist_spots == 0 ==> r == Err::<(), MagicHatError>(
            MagicHatError::NumericalOverflowError,
        ) && *final(wallet_whitelist) == *old(wallet_whitelist),
        old(wallet_whitelist).number_of_whitelist_spots > 0 ==> r is Ok && *final(wallet_whitelist) == (
        WalletWhitelist {
            number_of_whitelist_spots: (old(wallet_whitelist).number_of_whitelist_spots - 1) as u64,
            ..*old(wallet_whitelist)
        }),
        old(wallet_whitelist).spots_within_tier() ==> final(wallet_whitelist).spots_within_tier(),
{
    match wallet_whitelist.number_of_whitelist_spots.checked_sub(1) {
        Some(v) => {
            wallet_whitelist.number_of_whitelist_spots = v;
            Ok(())
        },
        None => Err(MagicHatError::NumericalOverflowError),
    }
}

/// The transaction check of a mint: with an empty metadata account and the
/// slot hashes or block hashes sysvar, a mint run by the magic hat, gumdrop
/// or cupcake program passes; run by any other program it is punished as
/// suspicious; a used metadata account or another slot hashes account fails.
pub proof fn lemma_trusted_callers_pass(
    ids: ProgramIds,
    metadata_is_empty: bool,
    slot_hashes_key: Address,
    current_program: Seq<u8>,
)
    ensures
        ({
            let v = transaction_accounts_verdict(ids, metadata_is_empty, slot_hashes_key, current_program);
            let sysvar_ok = slot_hashes_key@ == ids.slot_hashes@ || slot_hashes_key@ == ids.block_hashes@;
            let caller_ok = current_program == ids.magic_hat@ || current_program == ids.gumdrop@
                || current_program == ids.cupcake@;
            &&& metadata_is_empty && sysvar_ok && caller_ok ==> v == MintVerdict::Continue
            &&& metadata_is_empty && sysvar_ok && !caller_ok ==> v == MintVerdict::Punish(
                MagicHatError::SuspiciousTransaction,
            )
            &&& !metadata_is_empty ==> v == MintVerdict::Fail(MagicHatError::MetadataAccountMustBeEmpty)
            &&& metadata_is_empty && !sysvar_ok ==> v == MintVerdict::Fail(
                MagicHatError::IncorrectSlotHashesPubkey,
            )
        }),
{
}

/// The whitelist settings of a mint. A payer who holds the whitelist token
/// and is let through pays the discount price when one is set (the given
/// price otherwise), in either burn mode, and burns a token exactly in the
/// burn-every-time mode, taking the two remaining accounts after the token
/// account, the first of which must be the whitelist mint. A payer without
/// the token who is let through pays the given price, burns nothing and was
/// not barred by a forced whitelist; without whitelist settings the price
/// is the given one. A payer let through without a token, or without
/// whitelist settings, has reached the go-live date or is the authority; a
/// token holder has too, unless the whitelist is a presale. The next unused
/// remaining account follows the token account and, in burn mode, the two
/// burn accounts.
pub proof fn lemma_whitelist_plan_prices(
    magic_hat: MagicHat,
    token_amount: Option<u64>,
    now: i64,
    payer: Address,
    remaining: Seq<Address>,
    counter: int,
    price: u64,
)
    requires
        0 <= counter,
        counter + 3 <= usize::MAX,
    ensures
        ({
            let plan = whitelist_plan(magic_hat, token_amount, now, payer, remaining, counter, price);
            let live = payer@ == magic_hat.authority@ || (magic_hat.data.go_live_date matches Some(
                d,
            ) && now >= d);
            let holder = token_amount matches Some(a) && a > 0;
            plan.verdict == MintVerdict::Continue ==> match magic_hat.data.whitelist_mint_settings {
                None => plan.price == price && plan.burn is None && plan.next_counter == counter && live,
                Some(ws) => {
                    &&& holder ==> plan.price == match ws.discount_price {
                        Some(dp) => dp,
                        None => price,
                    }
                    &&& holder ==> (live || ws.presale)
                    &&& holder ==> (plan.burn is Some <==> ws.mode == WhitelistMintMode::BurnEveryTime)
                    &&& plan.burn matches Some(b) ==> b.mint == counter + 1 && b.authority == counter
                        + 2 && remaining[counter + 1]@ == ws.mint@
                    &&& !holder ==> plan.price == price && plan.burn is None && live && (
                    ws.discount_price is Some || ws.presale)
                    &&& plan.next_counter == counter + 1 + if ws.mode
                        == WhitelistMintMode::BurnEveryTime {
                        2int
                    } else {
                        0int
                    }
                },
            }
        }),
{
}

/// The end settings of a sale: past the end date a payer other than the
/// authority is punished, the authority goes on; once the end amount is
/// redeemed the payer is punished, or refused when it is the authority;
/// before the end, or without end settings, the mint goes on.
pub proof fn lemma_sale_ends(magic_hat: MagicHat, now: i64, payer: Address)
    ensures
        ({
            let v = end_settings_verdict(magic_hat, now, payer);
            let authority = payer@ == magic_hat.authority@;
            match magic_hat.data.end_settings {
                None => v == MintVerdict::Continue,
                Some(es) => match es.end_setting_type {
                    EndSettingType::Date => v == if now > es.number as i64 && !authority {
                        MintVerdict::Punish(MagicHatError::MagicHatNotLive)
                    } else {
                        MintVerdict::Continue
                    },
                    EndSettingType::Amount => {
                        &&& magic_hat.items_redeemed < es.number ==> v == MintVerdict::Continue
                        &&& magic_hat.items_redeemed >= es.number && !authority ==> v
                            == MintVerdict::Punish(MagicHatError::MagicHatEmpty)
                        &&& magic_hat.items_redeemed >= es.number && authority ==> v
                            == MintVerdict::Fail(MagicHatError::MagicHatEmpty)
                    },
                },
            }
        }),
{
}

/// The gateway accounts of a mint: none without a gatekeeper; otherwise the
/// gateway token comes first (its absence is punished), and a token that
/// expires on use also needs the gateway program and the network expire
/// feature (their absence fails). The count is how many were there.
pub proof fn lemma_gateway_accounts(gatekeeper: Option<GatekeeperConfig>, remaining: usize)
    ensures
        ({
            let (g, count) = gatekeeper_layout(gatekeeper, remaining);
            &&& count <= remaining
            &&& match gatekeeper {
                None => g == GatekeeperAccounts::NotRequired && count == 0,
                Some(gk) => {
                    &&& remaining == 0 ==> g == GatekeeperAccounts::Refused(
                        MintVerdict::Punish(MagicHatError::GatewayTokenMissing),
                    )
                    &&& remaining >= 1 && !gk.expire_on_use ==> g == GatekeeperAccounts::Verify
                        && count == 1
                    &&& remaining >= 3 && gk.expire_on_use ==> g == GatekeeperAccounts::VerifyAndExpire
                        && count == 3
                    &&& 1 <= remaining < 3 && gk.expire_on_use ==> g matches GatekeeperAccounts::Refused(
                        MintVerdict::Fail(_),
                    )
                },
            }
        }),
{
}

} // verus!
