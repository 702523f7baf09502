use anchor_lang::prelude::Pubkey;
use moon::address::{
    base_account_address, id, is_base_account_address, BASE_ACCOUNT_SEED, PROGRAM_ID,
};
use moon::Address;
use std::str::FromStr;

const PROGRAM: &str = "EGWf3mBuwhvjmR134QfzKGMo8EgtsC4ieMP3D6mxWFXq";

#[test]
fn seed_is_the_label() {
    assert_eq!(&BASE_ACCOUNT_SEED, b"base_account22");
}

#[test]
fn program_id_has_the_declared_text() {
    assert_eq!(Pubkey::new_from_array(PROGRAM_ID).to_string(), PROGRAM);
    assert_eq!(id().bytes, Pubkey::from_str(PROGRAM).unwrap().to_bytes());
    assert_eq!(id(), Address { bytes: PROGRAM_ID });
}

#[test]
fn address_for_the_found_seed_byte() {
    let program = Pubkey::from_str(PROGRAM).unwrap();
    let (address, bump) = Pubkey::find_program_address(&[b"base_account22"], &program);
    assert_eq!(base_account_address(&id(), bump), Some(Address { bytes: address.to_bytes() }));
    assert_ne!(base_account_address(&id(), bump), Some(id()));
}

#[test]
fn address_for_every_seed_byte() {
    let program = Pubkey::from_str(PROGRAM).unwrap();
    let mut derived = 0;
    for bump in 0..=255u8 {
        let expected = Pubkey::create_program_address(&[b"base_account22", &[bump]], &program)
            .ok()
            .map(|key| Address { bytes: key.to_bytes() });
        assert_eq!(base_account_address(&id(), bump), expected);
        if expected.is_some() {
            derived += 1;
        }
    }
    assert!(derived > 0);
    assert!(derived < 256);
}

#[test]
fn address_is_the_same_each_time() {
    for bump in [0u8, 1, 200, 255] {
        assert_eq!(base_account_address(&id(), bump), base_account_address(&id(), bump));
    }
}

#[test]
fn address_depends_on_the_program() {
    let other = Address { bytes: [9; 32] };
    let program = Pubkey::new_from_array([9; 32]);
    let (address, bump) = Pubkey::find_program_address(&[b"base_account22"], &program);
    assert_eq!(base_account_address(&other, bump), Some(Address { bytes: address.to_bytes() }));
    assert_ne!(base_account_address(&other, bump), base_account_address(&id(), bump));
}

#[test]
fn same_as_compares_all_bytes() {
    let a = Address { bytes: [5; 32] };
    assert!(a.same_as(&Address { bytes: [5; 32] }));
    for i in 0..32 {
        let mut bytes = [5u8; 32];
        bytes[i] = 6;
        assert!(!a.same_as(&Address { bytes }));
    }
}

#[test]
fn board_address_is_recognised() {
    let program = Pubkey::from_str(PROGRAM).unwrap();
    let (address, bump) = Pubkey::find_program_address(&[b"base_account22"], &program);
    let board = Address { bytes: address.to_bytes() };
    assert!(is_base_account_address(&id(), bump, &board));
    assert!(!is_base_account_address(&id(), bump, &id()));
    assert!(!is_base_account_address(&id(), bump.wrapping_sub(1), &board));
    assert!(!is_base_account_address(&Address { bytes: [9; 32] }, bump, &board));
    for b in 0..=255u8 {
        if base_account_address(&id(), b).is_none() {
            assert!(!is_base_account_address(&id(), b, &board));
        }
    }
}
