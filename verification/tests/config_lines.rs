use magic_hat::errors::MagicHatError;
use magic_hat::processor::initialize::get_space_for_magic_hat;
use magic_hat::processor::whitelist_mint::{get_config_line, get_good_index};
use magic_hat::state::{HiddenSettings, MagicHat, MagicHatData};

fn data(items: u64, hidden: Option<HiddenSettings>) -> MagicHatData {
    MagicHatData {
        uuid: "ABCDEF".to_string(),
        price: 1_000,
        symbol: "HAT".to_string(),
        seller_fee_basis_points: 500,
        max_supply: 0,
        is_mutable: true,
        retain_authority: true,
        go_live_date: None,
        end_settings: None,
        creators: vec![],
        hidden_settings: hidden,
        whitelist_mint_settings: None,
        items_available: items,
        gatekeeper: None,
    }
}

fn hat(items: u64, hidden: Option<HiddenSettings>) -> MagicHat {
    MagicHat {
        authority: [1; 32],
        wallet: [2; 32],
        token_mint: None,
        items_redeemed: 0,
        data: data(items, hidden),
    }
}

fn account(items: u64) -> Vec<u8> {
    vec![0u8; get_space_for_magic_hat(data(items, None)).unwrap()]
}

const LINES: usize = 709 + 4;

fn bitmask_start(items: usize) -> usize {
    LINES + items * 240 + 4 + items / 8 + 4
}

fn write_line(arr: &mut Vec<u8>, i: usize, name: &[u8], uri: &[u8]) {
    let start = LINES + i * 240;
    arr[start] = name.len() as u8;
    arr[start + 4..start + 4 + name.len()].copy_from_slice(name);
    arr[start + 40..start + 40 + uri.len()].copy_from_slice(uri);
}

#[test]
fn forward_search_takes_first_free_line() {
    let mut arr = account(16);
    let start = bitmask_start(16);
    assert_eq!(get_good_index(&mut arr, 16, 5, true), Ok((5, true)));
    assert_eq!(arr[start], 0b0000_0100);
    assert_eq!(get_good_index(&mut arr, 16, 5, true), Ok((6, true)));
    assert_eq!(arr[start], 0b0000_0110);
}

#[test]
fn forward_search_skips_full_bytes() {
    let mut arr = account(16);
    let start = bitmask_start(16);
    arr[start] = 255;
    assert_eq!(get_good_index(&mut arr, 16, 3, true), Ok((8, true)));
    assert_eq!(arr[start + 1], 0b1000_0000);
}

#[test]
fn forward_search_reports_where_it_stopped() {
    let mut arr = account(16);
    let start = bitmask_start(16);
    arr[start] = 255;
    arr[start + 1] = 255;
    let before = arr.clone();
    assert_eq!(get_good_index(&mut arr, 16, 3, true), Ok((16, false)));
    assert_eq!(arr, before);

    let mut arr = account(13);
    let start = bitmask_start(13);
    arr[start] = 255;
    arr[start + 1] = 255;
    assert_eq!(get_good_index(&mut arr, 13, 3, true), Ok((16, false)));
    arr[start + 1] = 0b1111_1000;
    assert_eq!(get_good_index(&mut arr, 13, 3, true), Ok((13, false)));
}

#[test]
fn backward_search_takes_last_free_line() {
    let mut arr = account(16);
    let start = bitmask_start(16);
    arr[start] = 0b1111_1110;
    arr[start + 1] = 0b1110_0000;
    assert_eq!(get_good_index(&mut arr, 16, 10, false), Ok((7, true)));
    assert_eq!(arr[start], 255);
}

#[test]
fn backward_search_reports_where_it_stopped() {
    let mut arr = account(16);
    let start = bitmask_start(16);
    arr[start] = 255;
    arr[start + 1] = 255;
    assert_eq!(get_good_index(&mut arr, 16, 10, false), Ok((7, false)));
    assert_eq!(get_good_index(&mut arr, 16, 3, false), Ok((3, false)));
    arr[start] = 0b1110_0000;
    assert_eq!(get_good_index(&mut arr, 16, 2, false), Ok((0, false)));
}

#[test]
fn search_from_past_the_end_finds_nothing() {
    let mut arr = account(16);
    assert_eq!(get_good_index(&mut arr, 16, 16, true), Ok((16, false)));
    assert_eq!(get_good_index(&mut arr, 16, 20, false), Ok((20, false)));
    let mut empty: Vec<u8> = vec![];
    assert_eq!(get_good_index(&mut empty, 0, 0, true), Ok((0, false)));
}

#[test]
fn config_lines_are_each_minted_once() {
    let m = hat(3, None);
    let mut arr = account(3);
    for i in 0..3 {
        let name = format!("Name{}", i);
        let uri = format!("https://x/{}", i);
        write_line(&mut arr, i, name.as_bytes(), uri.as_bytes());
    }
    let first = get_config_line(&m, &mut arr, 1, 0).unwrap();
    assert_eq!(first.name, "Name1");
    assert_eq!(first.uri, "https://x/1");
    let second = get_config_line(&m, &mut arr, 1, 1).unwrap();
    assert_eq!(second.name, "Name2");
    let third = get_config_line(&m, &mut arr, 1, 2).unwrap();
    assert_eq!(third.name, "Name0");
    assert_eq!(
        get_config_line(&m, &mut arr, 1, 3).unwrap_err(),
        MagicHatError::CannotFindUsableConfigLine
    );
}

#[test]
fn config_line_with_first_byte_one_is_refused() {
    let m = hat(3, None);
    let mut arr = account(3);
    write_line(&mut arr, 0, b"A", b"u");
    assert_eq!(
        get_config_line(&m, &mut arr, 0, 0).unwrap_err(),
        MagicHatError::CannotFindUsableConfigLine
    );
}

#[test]
fn config_line_that_is_not_utf8_is_refused() {
    let m = hat(3, None);
    let mut arr = account(3);
    write_line(&mut arr, 2, &[0xff, 0xfe], b"u");
    assert_eq!(get_config_line(&m, &mut arr, 2, 0).unwrap_err(), MagicHatError::InvalidString);
    write_line(&mut arr, 0, b"ok", &[0xc3]);
    assert_eq!(get_config_line(&m, &mut arr, 0, 0).unwrap_err(), MagicHatError::InvalidString);
}

#[test]
fn full_length_fields_have_no_terminator() {
    let m = hat(1, None);
    let mut arr = account(1);
    let name = [b'n'; 32];
    let uri = [b'u'; 200];
    write_line(&mut arr, 0, &name, &uri);
    arr[LINES] = 32;
    let line = get_config_line(&m, &mut arr, 0, 0).unwrap();
    assert_eq!(line.name, "n".repeat(32));
    assert_eq!(line.uri, "u".repeat(200));
}

#[test]
fn hidden_nfts_are_numbered() {
    let hidden = HiddenSettings { name: "Hat".to_string(), uri: "https://h".to_string(), hash: [0; 32] };
    let m = hat(10, Some(hidden));
    let mut arr = vec![7u8; 4];
    let line = get_config_line(&m, &mut arr, 3, 4).unwrap();
    assert_eq!(line.name, "Hat#5");
    assert_eq!(line.uri, "https://h");
    assert_eq!(arr, vec![7u8; 4]);
    let line = get_config_line(&m, &mut arr, 0, 1234566).unwrap();
    assert_eq!(line.name, "Hat#1234567");
}
