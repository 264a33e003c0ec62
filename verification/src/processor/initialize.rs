use vstd::prelude::*;
use vstd::bytes::{spec_u32_to_le_bytes, u32_to_le_bytes};
use vstd::utf8::{encode_scalar, encode_utf8};
use crate::address::Address;
use crate::constants::{CONFIG_ARRAY_START, CONFIG_LINE_SIZE, MAX_CREATOR_LIMIT, MAX_SYMBOL_LENGTH};
use crate::errors::MagicHatError;
use crate::processor::whitelist_mint::{bitmask_in_bounds, mint_bitmask_start};
use crate::state::{MagicHat, MagicHatData};

verus! {

/// Bytes that a magic hat account needs: the fixed part, and, unless the
/// NFTs are hidden, the config lines, their count and the two bitmasks.
pub open spec fn magic_hat_space(data: MagicHatData) -> int {
    if data.hidden_settings is Some {
        CONFIG_ARRAY_START as int
    } else {
        CONFIG_ARRAY_START + 4 + (data.items_available as usize) * CONFIG_LINE_SIZE + 8 + 2 * ((
        data.items_available / 8 + 1) as usize)
    }
}

/// Tells whether the account size of `data` can be computed in a `usize`.
pub fn space_fits(data: &MagicHatData) -> (ok: bool)
    ensures
        ok == (magic_hat_space(*data) <= usize::MAX),
{
    if data.hidden_settings.is_some() {
        return true;
    }
    let items = data.items_available as usize;
    let lines = match items.checked_mul(CONFIG_LINE_SIZE) {
        Some(v) => v,
        None => return false,
    };
    let masks = match ((data.items_available / 8 + 1) as usize).checked_mul(2) {
        Some(v) => v,
        None => return false,
    };
    match (CONFIG_ARRAY_START + 4).checked_add(lines) {
        Some(a) => match a.checked_add(8) {
            Some(b) => b.checked_add(masks).is_some(),
            None => false,
        },
        None => false,
    }
}

/// The size of the account that a magic hat with settings `data` needs.
pub fn get_space_for_magic_hat(data: MagicHatData) -> (r: Result<usize, MagicHatError>)
    requires
        magic_hat_space(data) <= usize::MAX,
    ensures
        r == Ok::<usize, MagicHatError>(magic_hat_space(data) as usize),
{
    let num = if data.hidden_settings.is_some() {
        CONFIG_ARRAY_START
    } else {
        let items = data.items_available as usize;
        assert(items * CONFIG_LINE_SIZE <= magic_hat_space(data));
        CONFIG_ARRAY_START + 4 + items * CONFIG_LINE_SIZE + 8 + 2 * ((data.items_available / 8 + 1) as usize)
    };
    Ok(num)
}

/// The config lines, their count and the mint bitmask of a magic hat that
/// is not hidden all lie inside the account space it is created with.
pub proof fn lemma_layout_fits_space(data: MagicHatData)
    requires
        data.hidden_settings is None,
        data.items_available <= usize::MAX,
    ensures
        ({
            let items = (data.items_available as usize) as int;
            &&& CONFIG_ARRAY_START + 4 + items * CONFIG_LINE_SIZE + 4 <= magic_hat_space(data)
            &&& bitmask_in_bounds(magic_hat_space(data), items)
        }),
{
    let items = (data.items_available as usize) as int;
    let m = data.items_available / 8;
    assert(items / 8 <= m) by {
        vstd::arithmetic::div_mod::lemma_div_is_ordered(items, data.items_available as int, 8);
    }
    assert(mint_bitmask_start(items) + (items - 1) / 8 < magic_hat_space(data)) by {
        if items > 0 {
            vstd::arithmetic::div_mod::lemma_div_is_ordered(items - 1, items, 8);
        }
    }
}

/// `k` NUL characters.
pub open spec fn nul_chars(k: nat) -> Seq<char> {
    Seq::new(k, |i: int| '\0')
}

/// Number of bytes of the UTF-8 encoding of a string.
pub open spec fn byte_len(s: Seq<char>) -> int {
    encode_utf8(s).len() as int
}

/// The symbol padded with NUL characters to `MAX_SYMBOL_LENGTH` bytes.
pub open spec fn padded_symbol(symbol: Seq<char>) -> Seq<char> {
    symbol + nul_chars((MAX_SYMBOL_LENGTH - byte_len(symbol)) as nat)
}

/// The magic hat that `handle_initialize_magic_hat` builds when it accepts.
pub open spec fn initial_magic_hat(
    data: MagicHatData,
    authority: Address,
    wallet: Address,
    token_mint: Option<Address>,
    symbol: String,
) -> MagicHat {
    MagicHat { data: MagicHatData { symbol, ..data }, authority, wallet, token_mint, items_redeemed: 0 }
}

proof fn lemma_encode_concat(a: Seq<char>, b: Seq<char>)
    ensures
        encode_utf8(a + b) == encode_utf8(a) + encode_utf8(b),
    decreases a.len(),
{
    if a.len() == 0 {
        assert(a + b =~= b);
    } else {
        lemma_encode_concat(a.drop_first(), b);
        assert((a + b).drop_first() =~= a.drop_first() + b);
        assert(encode_utf8(a) + encode_utf8(b) =~= encode_scalar(a[0] as u32) + (encode_utf8(
            a.drop_first(),
        ) + encode_utf8(b)));
    }
}

proof fn lemma_nul_bytes(k: nat)
    ensures
        encode_utf8(nul_chars(k)).len() == k,
    decreases k,
{
    if k > 0 {
        lemma_nul_bytes((k - 1) as nat);
        assert(nul_chars(k).drop_first() =~= nul_chars((k - 1) as nat));
        assert(('\0' as u32) == 0);
    }
}

/// A padded symbol is exactly `MAX_SYMBOL_LENGTH` bytes long.
pub proof fn lemma_padded_symbol_length(symbol: Seq<char>)
    requires
        byte_len(symbol) <= MAX_SYMBOL_LENGTH,
    ensures
        byte_len(padded_symbol(symbol)) == MAX_SYMBOL_LENGTH,
{
    let k = (MAX_SYMBOL_LENGTH - byte_len(symbol)) as nat;
    lemma_encode_concat(symbol, nul_chars(k));
    lemma_nul_bytes(k);
}

/// Builds a new magic hat: its UUID must be 6 bytes, its sale token is the
/// given mint (the first remaining account, if any), its symbol is padded
/// with NULs to the full symbol length, and one creator slot is kept for the
/// magic hat itself. Of the wallet and the authority only the keys are
/// used.
pub fn handle_initialize_magic_hat(
    data: MagicHatData,
    authority: Address,
    wallet: Address,
    token_mint: Option<Address>,
) -> (r: Result<MagicHat, MagicHatError>)
    requires
        byte_len(data.uuid@) <= usize::MAX,
        byte_len(data.uuid@) == 6 ==> byte_len(data.symbol@) <= MAX_SYMBOL_LENGTH,
    ensures
        byte_len(data.uuid@) != 6 ==> r == Err::<MagicHat, MagicHatError>(
            MagicHatError::UuidMustBeExactly6Length,
        ),
        byte_len(data.uuid@) == 6 ==> {
            if data.creators@.len() > MAX_CREATOR_LIMIT - 1 {
                r == Err::<MagicHat, MagicHatError>(MagicHatError::TooManyCreators)
            } else {
                r matches Ok(m) && m.data.symbol@ == padded_symbol(data.symbol@) && byte_len(
                    m.data.symbol@,
                ) == MAX_SYMBOL_LENGTH && m == initial_magic_hat(
                    data,
                    authority,
                    wallet,
                    token_mint,
                    m.data.symbol,
                )
            }
        },
{
    if data.uuid.as_str().len() != 6 {
        return Err(MagicHatError::UuidMustBeExactly6Length);
    }
    let mut magic_hat = MagicHat { data, authority, wallet, token_mint, items_redeemed: 0 };
    let ghost symbol0 = magic_hat.data.symbol@;
    let symbol_len = magic_hat.data.symbol.as_str().len();
    let mut new_symbol = magic_hat.data.symbol.clone();
    let mut zeroes: usize = 0;
    proof {
        reveal_strlit("\0");
        assert(new_symbol@ =~= symbol0 + nul_chars(0));
    }
    while zeroes < MAX_SYMBOL_LENGTH - symbol_len
        invariant
            symbol_len <= MAX_SYMBOL_LENGTH,
            zeroes <= MAX_SYMBOL_LENGTH - symbol_len,
            new_symbol@ == symbol0 + nul_chars(zeroes as nat),
            "\0"@ == seq!['\0'],
        decreases MAX_SYMBOL_LENGTH - symbol_len - zeroes,
    {
        new_symbol.append("\0");
        zeroes += 1;
        assert(new_symbol@ =~= symbol0 + nul_chars(zeroes as nat));
    }
    magic_hat.data.symbol = new_symbol;
    proof {
        lemma_padded_symbol_length(symbol0);
    }
    if magic_hat.data.creators.len() > MAX_CREATOR_LIMIT - 1 {
        return Err(MagicHatError::TooManyCreators);
    }
    Ok(magic_hat)
}

/// Offset of the config-line count: right after the config lines.
pub open spec fn config_count_offset(items: int) -> int {
    CONFIG_ARRAY_START + 4 + items * CONFIG_LINE_SIZE
}

/// Writes, after the config lines of a new magic hat that is not hidden,
/// the number of items divided by eight, as four little-endian bytes.
pub fn write_config_line_count(account_data: &mut Vec<u8>, data: &MagicHatData) -> (r: Result<
    (),
    MagicHatError,
>)
    requires
        data.hidden_settings is None ==> config_count_offset((data.items_available as usize) as int)
            + 4 <= old(account_data)@.len(),
    ensures
        r is Ok,
        data.hidden_settings is Some ==> final(account_data)@ == old(account_data)@,
        data.hidden_settings is None ==> {
            let start = config_count_offset((data.items_available as usize) as int);
            let bytes = spec_u32_to_le_bytes((data.items_available / 8) as u32);
            &&& final(account_data)@.len() == old(account_data)@.len()
            &&& forall|i: int|
                0 <= i < final(account_data)@.len() ==> #[trigger] final(account_data)@[i] == if start
                    <= i < start + 4 {
                    bytes[i - start]
                } else {
                    old(account_data)@[i]
                }
        },
{
    if data.hidden_settings.is_none() {
        let items = data.items_available as usize;
        let len = account_data.len();
        assert(items * CONFIG_LINE_SIZE < len);
        let vec_start = CONFIG_ARRAY_START + 4 + items * CONFIG_LINE_SIZE;
        let as_bytes = u32_to_le_bytes((data.items_available / 8) as u32);
        proof {
            vstd::bytes::lemma_auto_spec_u32_to_from_le_bytes();
        }
        let ghost before = account_data@;
        let mut i: usize = 0;
        while i < 4
            invariant
                0 <= i <= 4,
                vec_start + 4 <= len,
                account_data@.len() == len,
                before.len() == len,
                as_bytes@.len() == 4,
                forall|j: int|
                    0 <= j < len ==> #[trigger] account_data@[j] == if vec_start <= j < vec_start + i {
                        as_bytes@[j - vec_start]
                    } else {
                        before[j]
                    },
            decreases 4 - i,
        {
            account_data.set(vec_start + i, as_bytes[i]);
            i += 1;
        }
    }
    Ok(())
}

} // verus!
