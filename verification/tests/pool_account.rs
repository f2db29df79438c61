//! Decoding pool accounts, and the byte strings that go with them.

use cube_amm::accounts::{Account, AccountMap};
use cube_amm::bytes::{push_u64, read_i64, read_pubkey, read_u16, read_u32, read_u64};
use cube_amm::constants::{MAX_TOKENS, POOL_V4_LEN, SLOT_SIZE, TOKEN_BASE};
use cube_amm::error::AmmError;
use cube_amm::pubkey::Pubkey;
use cube_amm::state::PoolState;

const TAG: [u8; 8] = [1, 2, 3, 4, 5, 6, 7, 8];

/// An account whose every byte differs from its neighbours, with `count`
/// tokens.
fn patterned(count: u8) -> Vec<u8> {
    let mut data: Vec<u8> = (0..POOL_V4_LEN).map(|i| (i * 7 % 251) as u8).collect();
    data[..8].copy_from_slice(&TAG);
    data[41] = count;
    data
}

fn le(data: &[u8], offset: usize, count: usize) -> u64 {
    let mut value = 0u64;
    for i in (0..count).rev() {
        value = value * 256 + data[offset + i] as u64;
    }
    value
}

#[test]
fn every_field_is_read_from_its_place() {
    let data = patterned(10);
    let state = PoolState::decode(&data, &TAG).unwrap();
    assert_eq!(&state.config.bytes[..], &data[8..40]);
    assert_eq!(state.bump, data[40]);
    assert_eq!(state.pool_id, le(&data, 42, 8));
    assert_eq!(state.swap_fee_rate as u64, le(&data, 50, 4));
    assert_eq!(state.protocol_fee_rate as u64, le(&data, 54, 2));
    assert!(state.pool_enabled && state.swaps_enabled);
    assert_eq!(state.tokens.len(), 10);
    assert_eq!(state.active_tokens().len(), 10);
    for (i, slot) in state.active_tokens().iter().enumerate() {
        let off = 179 + 144 * i;
        assert_eq!(&slot.mint.bytes[..], &data[off..off + 32]);
        assert_eq!(&slot.token_program.bytes[..], &data[off + 32..off + 64]);
        assert_eq!(slot.normalized_weight, le(&data, off + 64, 8));
        assert_eq!(slot.max_selloff, le(&data, off + 72, 8));
        assert_eq!(slot.max_selloff_period_length as u64, le(&data, off + 80, 4));
        assert_eq!(slot.virtual_balance, le(&data, off + 88, 8));
        assert_eq!(slot.actual_balance, le(&data, off + 96, 8));
        assert_eq!(slot.protocol_fees_owed, le(&data, off + 104, 8));
        assert_eq!(slot.previous_selloff, le(&data, off + 112, 8));
        assert_eq!(slot.current_selloff, le(&data, off + 120, 8));
        assert_eq!(slot.window_start_timestamp as u64, le(&data, off + 128, 8));
    }
}

#[test]
fn switches_are_off_only_at_zero() {
    let mut data = patterned(0);
    data[64] = 0;
    data[65] = 1;
    let state = PoolState::decode(&data, &TAG).unwrap();
    assert!(!state.pool_enabled && state.swaps_enabled);
    data[64] = 2;
    data[65] = 0;
    let state = PoolState::decode(&data, &TAG).unwrap();
    assert!(state.pool_enabled && !state.swaps_enabled);
}

#[test]
fn accounts_that_are_no_pool_are_refused() {
    let short = vec![0u8; POOL_V4_LEN - 1];
    assert_eq!(PoolState::decode(&short, &TAG).err(), Some(AmmError::UnsupportedLayout));
    let long = vec![0u8; POOL_V4_LEN + 1];
    assert_eq!(PoolState::decode(&long, &TAG).err(), Some(AmmError::UnsupportedLayout));
    for i in 0..8 {
        let mut data = patterned(2);
        data[i] ^= 1;
        assert_eq!(PoolState::decode(&data, &TAG).err(), Some(AmmError::WrongDiscriminator));
    }
    let crowded = patterned(MAX_TOKENS as u8 + 1);
    assert_eq!(PoolState::decode(&crowded, &TAG).err(), Some(AmmError::TooManyTokens));
    assert!(TOKEN_BASE + MAX_TOKENS * SLOT_SIZE <= POOL_V4_LEN);
}

#[test]
fn a_repeated_mint_is_found_at_its_first_place() {
    let mut data = patterned(4);
    for place in [1, 3] {
        let off = TOKEN_BASE + place * SLOT_SIZE;
        data[off..off + 32].copy_from_slice(&[9; 32]);
    }
    let state = PoolState::decode(&data, &TAG).unwrap();
    assert_eq!(state.index_of_mint(&Pubkey { bytes: [9; 32] }), Some(1));
    assert_eq!(state.index_of_mint(&state.tokens[2].mint), Some(2));
    assert_eq!(state.index_of_mint(&Pubkey { bytes: [10; 32] }), None);
}

#[test]
fn a_slot_that_is_not_active_is_not_found() {
    let data = patterned(4);
    let unused = Pubkey::new_from_array(
        data[TOKEN_BASE + 4 * SLOT_SIZE..][..32].try_into().unwrap(),
    );
    let state = PoolState::decode(&data, &TAG).unwrap();
    assert_eq!(state.index_of_mint(&unused), None);
}

#[test]
fn a_copied_pool_says_the_same() {
    let state = PoolState::decode(&patterned(3), &TAG).unwrap();
    let copy = state.clone();
    assert_eq!(copy.pool_id, state.pool_id);
    assert_eq!(copy.tokens.len(), 3);
    assert_eq!(copy.tokens[2].mint, state.tokens[2].mint);
    assert_eq!(copy.tokens[2].current_selloff, state.tokens[2].current_selloff);
}

#[test]
fn numbers_are_little_endian() {
    let data = [0xff, 1, 2, 3, 4, 5, 6, 7, 8, 0xff];
    assert_eq!(read_u64(&data, 1), 0x0807_0605_0403_0201);
    assert_eq!(read_u32(&data, 1), 0x0403_0201);
    assert_eq!(read_u16(&data, 1), 0x0201);
    for value in [0, 1, -1, 42, i64::MAX, i64::MIN] {
        assert_eq!(read_i64(&value.to_le_bytes(), 0), value);
    }
    for value in [0, 1, 255, 256, 1 << 40, u64::MAX] {
        let mut out = vec![7];
        push_u64(&mut out, value);
        assert_eq!(out.len(), 9);
        assert_eq!(&out[1..], &value.to_le_bytes());
        assert_eq!(read_u64(&out, 1), value);
    }
}

#[test]
fn addresses_are_thirty_two_bytes() {
    let data: Vec<u8> = (0..40).collect();
    let key = read_pubkey(&data, 5);
    assert_eq!(&key.to_bytes()[..], &data[5..37]);
    let mut other = key;
    assert_eq!(other, key);
    other.bytes[31] ^= 1;
    assert_ne!(other, key);
}

#[test]
fn an_account_map_keeps_the_latest_account() {
    let a = Pubkey { bytes: [1; 32] };
    let b = Pubkey { bytes: [2; 32] };
    let mut map = AccountMap::new();
    assert!(map.get(&a).is_none());
    map.insert(a, Account { data: vec![1], owner: b });
    map.insert(b, Account { data: vec![2], owner: b });
    map.insert(a, Account { data: vec![3], owner: a });
    assert_eq!(map.get(&a).unwrap().data, vec![3]);
    assert_eq!(map.get(&a).unwrap().owner, a);
    assert_eq!(map.get(&b).unwrap().data, vec![2]);
    assert!(map.get(&Pubkey { bytes: [3; 32] }).is_none());
}
