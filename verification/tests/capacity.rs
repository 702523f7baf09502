use anchor_lang::AnchorSerialize;
use moon::state::{make_id, FIXED_LEN, ITEM_FIXED_LEN};
use moon::{add_gif, add_gif_as, Account, Address, BaseAccount, GifApi, ItemStruct, MoonError};

fn user(byte: u8) -> Address {
    Address { bytes: [byte; 32] }
}

fn board_of(space: usize) -> GifApi {
    let data = BaseAccount { total_gifs: 0, gif_list: Vec::new(), bump: 1 };
    GifApi { base_account: Account { space, data }, user: user(1) }
}

/// The bytes that the board takes in the layout in which it is stored, after
/// the eight bytes that tag the account.
fn stored(data: &BaseAccount) -> Vec<u8> {
    let items: Vec<(String, String, [u8; 32], u64)> = data
        .gif_list
        .iter()
        .map(|i| (i.id.clone(), i.gif_link.clone(), i.user_address.bytes, i.votes))
        .collect();
    (data.total_gifs, items, data.bump).try_to_vec().unwrap()
}

#[test]
fn make_id_joins_prefix_submitter_and_link() {
    assert_eq!(make_id("U1", "ipfs://a"), "0xU1_ipfs://a");
    assert_eq!(make_id("", ""), "0x_");
    assert_eq!(make_id("a_b", "c_d"), "0xa_b_c_d");
}

#[test]
fn new_item_has_no_votes() {
    let item = ItemStruct::new("U1", user(4), "ipfs://a".to_string());
    assert_eq!(item.id, "0xU1_ipfs://a");
    assert_eq!(item.gif_link, "ipfs://a");
    assert_eq!(item.user_address, user(4));
    assert_eq!(item.votes, 0);
}

#[test]
fn fixed_lengths() {
    assert_eq!(FIXED_LEN, 8 + 8 + 4 + 1);
    assert_eq!(ITEM_FIXED_LEN, 4 + 4 + 32 + 8);
}

#[test]
fn item_space_left_counts_bytes_not_characters() {
    let item = ItemStruct::new("U", user(1), "ab".to_string());
    // 48 fixed, 6 of "0xU_ab", 2 of "ab"
    assert_eq!(item.space_left(56), Some(0));
    assert_eq!(item.space_left(55), None);
    assert_eq!(item.space_left(100), Some(44));
    assert_eq!(item.space_left(0), None);
    assert_eq!(item.space_left(usize::MAX), Some(usize::MAX - 56));

    let item = ItemStruct::new("U", user(1), "\u{e9}\u{20ac}".to_string());
    // the link takes 2 + 3 bytes, and the identifier 4 more than the link
    assert_eq!(item.space_left(48 + 9 + 5), Some(0));
    assert_eq!(item.space_left(48 + 9 + 4), None);
}

#[test]
fn board_space_left() {
    let mut api = board_of(9000);
    assert_eq!(api.base_account.data.space_left(9000), Some(8979));
    assert_eq!(api.base_account.data.space_left(21), Some(0));
    assert_eq!(api.base_account.data.space_left(20), None);
    assert_eq!(add_gif_as(&mut api, "U", "ab".to_string()), Ok(()));
    assert_eq!(add_gif_as(&mut api, "U", "abc".to_string()), Ok(()));
    assert_eq!(api.base_account.data.space_left(9000), Some(9000 - 21 - 56 - 58));
    assert_eq!(api.base_account.data.space_left(21 + 56 + 58), Some(0));
    assert_eq!(api.base_account.data.space_left(21 + 56 + 57), None);
    assert_eq!(api.base_account.data.space_left(21 + 56), None);
}

#[test]
fn space_left_agrees_with_the_stored_layout() {
    let mut api = board_of(9000);
    assert_eq!(8 + stored(&api.base_account.data).len(), 21);
    for link in ["", "a", "ipfs://abc", "\u{1f680} to the moon", "x"] {
        assert_eq!(add_gif(&mut api, link.to_string()), Ok(()));
        let bytes = 8 + stored(&api.base_account.data).len();
        assert_eq!(api.base_account.data.space_left(9000), Some(9000 - bytes));
        assert_eq!(api.base_account.data.space_left(bytes), Some(0));
        assert_eq!(api.base_account.data.space_left(bytes - 1), None);
    }
}

#[test]
fn a_record_that_fills_the_board_exactly_is_taken() {
    let mut api = board_of(21 + 56);
    assert_eq!(add_gif_as(&mut api, "U", "ab".to_string()), Ok(()));
    assert_eq!(api.base_account.data.total_gifs, 1);
    assert_eq!(api.base_account.data.space_left(api.base_account.space), Some(0));
}

#[test]
fn a_record_one_byte_too_long_is_refused() {
    let mut api = board_of(21 + 55);
    let before = api.clone();
    assert_eq!(add_gif_as(&mut api, "U", "ab".to_string()), Err(MoonError::CapacityExceeded));
    assert_eq!(api, before);
    assert_eq!(add_gif_as(&mut api, "U", "a".to_string()), Ok(()));
    assert_eq!(api.base_account.data.total_gifs, 1);
}

#[test]
fn a_board_too_small_for_itself_takes_nothing() {
    let mut api = board_of(20);
    let before = api.clone();
    assert_eq!(add_gif_as(&mut api, "", String::new()), Err(MoonError::CapacityExceeded));
    assert_eq!(api, before);
}

#[test]
fn a_full_board_refuses_and_stays_as_it_was() {
    let mut api = board_of(9000);
    let mut taken = 0u64;
    loop {
        let before = api.clone();
        match add_gif(&mut api, "ipfs://some-link".to_string()) {
            Ok(()) => {
                taken += 1;
                assert_eq!(api.base_account.data.total_gifs, taken);
                assert!(8 + stored(&api.base_account.data).len() <= 9000);
            }
            Err(e) => {
                assert_eq!(e, MoonError::CapacityExceeded);
                assert_eq!(api, before);
                break;
            }
        }
    }
    // each record: 48 + (2 + 43 + 1 + 16) + 16 = 126 bytes
    assert_eq!(taken, (9000 - 21) / 126);
    assert_eq!(api.base_account.data.gif_list.len() as u64, taken);
    // votes take no room
    let id = api.base_account.data.gif_list[0].id.clone();
    assert_eq!(moon::upvote_gif(&mut api, id), Ok(()));
    assert_eq!(api.base_account.data.gif_list[0].votes, 1);
}

#[test]
fn one_long_link_is_refused() {
    let mut api = board_of(9000);
    let link = "a".repeat(9000);
    assert_eq!(add_gif(&mut api, link), Err(MoonError::CapacityExceeded));
    assert_eq!(api, board_of(9000));
}
