//! Fees, selloff caps, quotes and swap instructions on exact numbers.

use cube_amm::accounts::{Account, AccountMap, KeyedAccount};
use cube_amm::address::has_token_account;
use cube_amm::amm::SwapParams;
use cube_amm::constants::{ASSOCIATED_TOKEN_PROGRAM_ID, POOL_V4_LEN, SLOT_SIZE, TOKEN_BASE};
use cube_amm::error::AmmError;
use cube_amm::ix::{build_swap_account_metas, encode_swap_ix_data, SwapAccounts};
use cube_amm::math::fee::apply_swap_fee;
use cube_amm::math::selloff::{effective_selloff, within_selloff_cap};
use cube_amm::program::{Discriminators, PoolProgram};
use cube_amm::pubkey::Pubkey;
use cube_amm::quote::{Quote, QuoteParams, SwapMode, SwapTerms};
use cube_amm::state::TokenSlot;
use cube_amm::CubeAmm;

const TAGS: Discriminators = Discriminators { pool: [1; 8], swap: [2; 8] };
const OWNER: Pubkey = Pubkey { bytes: [77; 32] };
const A: Pubkey = Pubkey { bytes: [10; 32] };
const B: Pubkey = Pubkey { bytes: [20; 32] };
const POOL: Pubkey = Pubkey { bytes: [30; 32] };
const PROGRAM_A: Pubkey = Pubkey { bytes: [40; 32] };
const PROGRAM_B: Pubkey = Pubkey { bytes: [50; 32] };
const USER: Pubkey = Pubkey { bytes: [60; 32] };

fn token(mint: Pubkey, token_program: Pubkey, balance: u64) -> TokenSlot {
    TokenSlot {
        mint,
        token_program,
        normalized_weight: 5_000,
        max_selloff: 0,
        max_selloff_period_length: 0,
        virtual_balance: balance,
        actual_balance: balance,
        protocol_fees_owed: 0,
        previous_selloff: 0,
        current_selloff: 0,
        window_start_timestamp: 0,
    }
}

fn pool_data(rate: u32, switches: (bool, bool), tokens: &[TokenSlot]) -> Vec<u8> {
    let mut data = vec![0u8; POOL_V4_LEN];
    data[..8].copy_from_slice(&TAGS.pool);
    data[41] = tokens.len() as u8;
    data[50..54].copy_from_slice(&rate.to_le_bytes());
    data[64] = switches.0 as u8;
    data[65] = switches.1 as u8;
    for (i, t) in tokens.iter().enumerate() {
        let off = TOKEN_BASE + i * SLOT_SIZE;
        data[off..off + 32].copy_from_slice(&t.mint.bytes);
        data[off + 32..off + 64].copy_from_slice(&t.token_program.bytes);
        data[off + 64..off + 72].copy_from_slice(&t.normalized_weight.to_le_bytes());
        data[off + 72..off + 80].copy_from_slice(&t.max_selloff.to_le_bytes());
        data[off + 80..off + 84].copy_from_slice(&t.max_selloff_period_length.to_le_bytes());
        data[off + 88..off + 96].copy_from_slice(&t.virtual_balance.to_le_bytes());
        data[off + 96..off + 104].copy_from_slice(&t.actual_balance.to_le_bytes());
        data[off + 104..off + 112].copy_from_slice(&t.protocol_fees_owed.to_le_bytes());
        data[off + 112..off + 120].copy_from_slice(&t.previous_selloff.to_le_bytes());
        data[off + 120..off + 128].copy_from_slice(&t.current_selloff.to_le_bytes());
        data[off + 128..off + 136].copy_from_slice(&t.window_start_timestamp.to_le_bytes());
    }
    data
}

fn load(data: Vec<u8>) -> CubeAmm {
    let keyed = KeyedAccount { key: POOL, account: Account { data, owner: OWNER } };
    CubeAmm::from_keyed_account(&keyed, &TAGS).unwrap()
}

fn two_tokens() -> [TokenSlot; 2] {
    [token(A, PROGRAM_A, 1_000_000), token(B, PROGRAM_B, 2_000_000)]
}

fn ask(amount: u64) -> QuoteParams {
    QuoteParams { amount, input_mint: A, output_mint: B, swap_mode: SwapMode::ExactIn }
}

fn solana(key: Pubkey) -> solana_sdk::pubkey::Pubkey {
    solana_sdk::pubkey::Pubkey::new_from_array(key.bytes)
}

// Fees.

#[test]
fn the_fee_is_rounded_down() {
    assert_eq!(apply_swap_fee(10_000_000, 3_000), Ok((30_000, 9_970_000)));
    assert_eq!(apply_swap_fee(334, 3_000), Ok((1, 333)));
    assert_eq!(apply_swap_fee(666, 3_000), Ok((1, 665)));
    assert_eq!(apply_swap_fee(667, 3_000), Ok((2, 665)));
    assert_eq!(apply_swap_fee(100, 10_000), Ok((1, 99)));
    assert_eq!(apply_swap_fee(5, 1_000_000), Ok((5, 0)));
    assert_eq!(apply_swap_fee(u64::MAX, 999_999).map(|(fee, rest)| fee + rest), Ok(u64::MAX));
}

#[test]
fn fees_that_cannot_be_taken_are_refused() {
    assert_eq!(apply_swap_fee(333, 3_000), Err(AmmError::ZeroFee));
    assert_eq!(apply_swap_fee(0, 3_000), Err(AmmError::ZeroFee));
    assert_eq!(apply_swap_fee(1_000, 0), Err(AmmError::ZeroFee));
    assert_eq!(apply_swap_fee(5, 1_200_000), Err(AmmError::FeeExceedsAmount));
}

#[test]
fn higher_rates_leave_less_and_larger_amounts_more() {
    let rest = |amount: u64, rate: u32| apply_swap_fee(amount, rate).unwrap().1;
    assert!(rest(1_000_000, 3_000) > rest(1_000_000, 10_000));
    for amount in 1_000..2_000 {
        assert!(rest(amount, 3_000) <= rest(amount + 1, 3_000));
        assert!(rest(amount, 4_000) <= rest(amount, 3_000));
    }
}

// Selloff caps.

fn capped() -> TokenSlot {
    TokenSlot {
        max_selloff: 1_000,
        max_selloff_period_length: 60,
        previous_selloff: 300,
        current_selloff: 500,
        window_start_timestamp: 10_000,
        ..token(A, PROGRAM_A, 1_000_000)
    }
}

#[test]
fn recorded_sales_fade_over_two_windows() {
    let slot = capped();
    assert_eq!(effective_selloff(&slot, 9_000), 800);
    assert_eq!(effective_selloff(&slot, 10_000), 800);
    assert_eq!(effective_selloff(&slot, 10_020), 700);
    assert_eq!(effective_selloff(&slot, 10_021), 695);
    assert_eq!(effective_selloff(&slot, 10_059), 505);
    assert_eq!(effective_selloff(&slot, 10_060), 500);
    assert_eq!(effective_selloff(&slot, 10_090), 250);
    assert_eq!(effective_selloff(&slot, 10_119), 8);
    assert_eq!(effective_selloff(&slot, 10_120), 0);
    assert_eq!(effective_selloff(&slot, i64::MAX), 0);
    let mut last = u128::MAX;
    for now in 9_990..10_130 {
        let sold = effective_selloff(&slot, now);
        assert!(sold <= last);
        last = sold;
    }
}

#[test]
fn the_cap_can_be_reached_and_not_passed() {
    let slot = capped();
    assert!(within_selloff_cap(&slot, 10_000, 200));
    assert!(!within_selloff_cap(&slot, 10_000, 201));
    assert!(within_selloff_cap(&slot, 10_120, 1_000));
    assert!(!within_selloff_cap(&slot, 10_120, 1_001));
    let free = TokenSlot { max_selloff: 0, ..slot };
    assert!(within_selloff_cap(&free, 10_000, u64::MAX));
    let full = TokenSlot { current_selloff: u64::MAX, previous_selloff: u64::MAX, ..slot };
    assert_eq!(effective_selloff(&full, 10_000), 2 * u64::MAX as u128);
    assert!(!within_selloff_cap(&full, 10_000, 0));
    let instant = TokenSlot { max_selloff_period_length: 0, ..slot };
    assert_eq!(effective_selloff(&instant, 10_000), 0);
}

#[test]
fn clocks_at_the_ends_of_time_are_no_trouble() {
    let slot = TokenSlot { window_start_timestamp: i64::MIN, ..capped() };
    assert_eq!(effective_selloff(&slot, i64::MAX), 0);
    let slot = TokenSlot { window_start_timestamp: i64::MAX, ..capped() };
    assert_eq!(effective_selloff(&slot, i64::MIN), 800);
}

// Quotes.

#[test]
fn the_curve_is_asked_with_the_terms_of_the_swap() {
    let mut tokens = two_tokens();
    tokens[0].normalized_weight = 3_000;
    tokens[1].protocol_fees_owed = 500_000;
    let amm = load(pool_data(10_000, (true, true), &tokens));
    let curve = |terms: SwapTerms| {
        assert_eq!(terms.virtual_balance_in, 1_000_000);
        assert_eq!(terms.weight_in, 3_000);
        assert_eq!(terms.virtual_balance_out, 2_000_000);
        assert_eq!(terms.weight_out, 5_000);
        assert_eq!(terms.amount_in, 990);
        assert_eq!(terms.lp_actual_out, 1_500_000);
        Some(42)
    };
    let quote = amm.quote(&ask(1_000), 0, &curve);
    assert_eq!(quote, Ok(Quote { in_amount: 1_000, out_amount: 42 }));
}

#[test]
fn requests_are_refused_in_order() {
    let curve = |_: SwapTerms| Some(1);
    let stranger = Pubkey { bytes: [99; 32] };
    let on = load(pool_data(10_000, (true, true), &two_tokens()));
    let pool_off = load(pool_data(10_000, (false, true), &two_tokens()));
    let swaps_off = load(pool_data(10_000, (true, false), &two_tokens()));
    for amm in [&pool_off, &swaps_off] {
        assert!(!amm.is_active());
        assert_eq!(amm.quote(&ask(0), 0, &curve), Err(AmmError::PoolDisabled));
    }
    assert_eq!(on.quote(&ask(0), 0, &curve), Err(AmmError::ZeroAmount));
    let neither = QuoteParams { input_mint: stranger, output_mint: stranger, ..ask(1_000) };
    assert_eq!(on.quote(&neither, 0, &curve), Err(AmmError::InputMintNotInPool));
    let no_output = QuoteParams { output_mint: stranger, ..ask(1_000) };
    assert_eq!(on.quote(&no_output, 0, &curve), Err(AmmError::OutputMintNotInPool));
    let same = QuoteParams { output_mint: A, ..ask(1_000) };
    assert_eq!(on.quote(&same, 0, &curve), Err(AmmError::SameMint));
    let refusing = |_: SwapTerms| None;
    assert_eq!(on.quote(&ask(1_000), 0, &refusing), Err(AmmError::NoViableQuote));
    assert_eq!(on.quote(&ask(1), 0, &curve), Err(AmmError::NoViableQuote));
}

#[test]
fn single_amounts_are_refused_for_a_reason() {
    let mut tokens = two_tokens();
    tokens[0].max_selloff = 500;
    let amm = load(pool_data(10_000, (true, true), &tokens));
    let limit = |terms: SwapTerms| if terms.amount_in <= 99 { Some(7) } else { None };
    let price = |amount: u64| amm.try_quote(&tokens[0], &tokens[1], 10, amount, 1, &limit);
    assert_eq!(price(501), Err(AmmError::SelloffCapExceeded));
    assert_eq!(price(99), Err(AmmError::ZeroFee));
    assert_eq!(price(500), Err(AmmError::CurveRefused));
    assert_eq!(price(100), Ok(7));
    let greedy = load(pool_data(1_000_000, (true, true), &tokens));
    let out = greedy.try_quote(&tokens[0], &tokens[1], 10, 100, 1, &limit);
    assert_eq!(out, Err(AmmError::NothingAfterFee));
}

#[test]
fn an_amount_that_is_too_large_is_cut_to_the_largest_that_is_not() {
    let amm = load(pool_data(10_000, (true, true), &two_tokens()));
    for most in [1_000, 1_234, 50_000] {
        let limit = |terms: SwapTerms| {
            if terms.amount_in <= most { Some(terms.amount_in / 2) } else { None }
        };
        let largest = (1..u64::MAX)
            .find(|x| amount_after_fee(x + 1).map(|rest| rest > most).unwrap_or(false))
            .unwrap();
        for amount in [largest + 1, 2 * largest, 1_000_000_007, u64::MAX] {
            let quote = amm.quote(&ask(amount), 0, &limit).unwrap();
            assert_eq!(quote.in_amount, largest);
            assert_eq!(quote.out_amount, amount_after_fee(largest).unwrap() / 2);
        }
        let quote = amm.quote(&ask(largest), 0, &limit).unwrap();
        assert_eq!(quote.in_amount, largest);
    }
}

fn amount_after_fee(amount: u64) -> Option<u64> {
    apply_swap_fee(amount, 10_000).ok().map(|(_, rest)| rest)
}

#[test]
fn halving_can_step_over_a_narrow_range() {
    let amm = load(pool_data(500_000, (true, true), &two_tokens()));
    // With half of it taken, three and four leave two, five and six leave three.
    let narrow = |terms: SwapTerms| {
        if terms.amount_in == 2 || terms.amount_in == 3 { Some(terms.amount_in) } else { None }
    };
    assert_eq!(amm.quote(&ask(5), 0, &narrow), Ok(Quote { in_amount: 5, out_amount: 3 }));
    assert_eq!(amm.quote(&ask(9), 0, &narrow), Ok(Quote { in_amount: 6, out_amount: 3 }));
    let narrower = |terms: SwapTerms| if terms.amount_in == 3 { Some(1) } else { None };
    // Halving seven gives three, which leaves two.
    assert_eq!(amm.quote(&ask(7), 0, &narrower), Err(AmmError::NoViableQuote));
}

#[test]
fn a_sale_is_cut_to_the_selloff_headroom() {
    let mut tokens = two_tokens();
    tokens[0] = TokenSlot { max_selloff: 100_000, ..capped() };
    let amm = load(pool_data(10_000, (true, true), &tokens));
    let open = |terms: SwapTerms| Some(terms.amount_in);
    assert_eq!(amm.quote(&ask(1_000_000), 10_000, &open).unwrap().in_amount, 99_200);
    assert_eq!(amm.quote(&ask(1_000_000), 10_120, &open).unwrap().in_amount, 100_000);
    let back = QuoteParams { input_mint: B, output_mint: A, ..ask(1_000_000) };
    assert_eq!(amm.quote(&back, 10_000, &open).unwrap().in_amount, 1_000_000);
}

#[test]
fn payments_stay_within_the_vault() {
    let mut tokens = two_tokens();
    tokens[1].protocol_fees_owed = 1_999_000;
    let amm = load(pool_data(10_000, (true, true), &tokens));
    let careful = |terms: SwapTerms| {
        if terms.amount_in <= terms.lp_actual_out { Some(terms.amount_in) } else { None }
    };
    let quote = amm.quote(&ask(u64::MAX), 0, &careful).unwrap();
    assert_eq!(quote.out_amount, 1_000);
    // Collecting the fees leaves the quote as it was.
    tokens[1].actual_balance = 1_000;
    tokens[1].protocol_fees_owed = 0;
    let collected = load(pool_data(10_000, (true, true), &tokens));
    assert_eq!(collected.quote(&ask(u64::MAX), 0, &careful), Ok(quote));
}

#[test]
fn a_pool_without_anything_to_pay_is_inactive() {
    let mut tokens = two_tokens();
    tokens[0].protocol_fees_owed = 1_000_000;
    tokens[1].protocol_fees_owed = 3_000_000;
    let amm = load(pool_data(10_000, (true, true), &tokens));
    assert!(!amm.is_active());
    tokens[1].protocol_fees_owed = 1_999_999;
    assert!(load(pool_data(10_000, (true, true), &tokens)).is_active());
    assert!(!load(pool_data(10_000, (true, true), &[])).is_active());
}

// Updates.

#[test]
fn an_update_is_a_reload_that_keeps_the_program() {
    let curve = |terms: SwapTerms| Some(terms.amount_in + terms.virtual_balance_out);
    let mut amm = load(pool_data(10_000, (true, true), &two_tokens()));
    let before = amm.quote(&ask(1_000), 0, &curve);

    let mut map = AccountMap::new();
    assert_eq!(amm.update(&map), Err(AmmError::PoolAccountMissing));
    map.insert(POOL, Account { data: vec![1, 2, 3], owner: OWNER });
    assert_eq!(amm.update(&map), Err(AmmError::UnsupportedLayout));
    assert_eq!(amm.quote(&ask(1_000), 0, &curve), before);

    let fresh = [token(B, PROGRAM_B, 5), token(A, PROGRAM_A, 7), token(OWNER, PROGRAM_A, 9)];
    let data = pool_data(20_000, (true, true), &fresh);
    map.insert(POOL, Account { data: data.clone(), owner: USER });
    for _ in 0..2 {
        assert_eq!(amm.update(&map), Ok(()));
        assert_eq!(amm.get_reserve_mints(), vec![B, A, OWNER]);
        assert_eq!(amm.program_id(), OWNER);
        assert_eq!(amm.key(), POOL);
        assert_eq!(amm.get_accounts_to_update(), vec![POOL]);
        let reloaded = load(data.clone());
        assert_eq!(amm.quote(&ask(1_000), 0, &curve), reloaded.quote(&ask(1_000), 0, &curve));
    }
}

#[test]
fn a_copied_connector_quotes_the_same() {
    let curve = |terms: SwapTerms| Some(terms.amount_in);
    let amm = load(pool_data(10_000, (true, true), &two_tokens()));
    let copy = amm.clone();
    assert_eq!(copy.key(), amm.key());
    assert_eq!(copy.get_reserve_mints(), vec![A, B]);
    assert_eq!(copy.quote(&ask(1_000), 0, &curve), amm.quote(&ask(1_000), 0, &curve));
    assert!(copy.underlying_liquidities().is_none());
    assert_eq!(copy.program_dependencies(), vec![(OWNER, "cubic_pool".to_string())]);
}

// Addresses and instructions.

fn program() -> PoolProgram {
    PoolProgram {
        id: OWNER,
        pool_seed: b"pool".to_vec(),
        bpt_mint_seed: b"shares".to_vec(),
        discriminators: TAGS,
    }
}

#[test]
fn pool_and_share_mint_addresses_are_program_derived() {
    let config = Pubkey { bytes: [3; 32] };
    let id = 0x0102_0304_0506_0708u64;
    let (pool, _) = solana_sdk::pubkey::Pubkey::find_program_address(
        &[b"pool", &config.bytes, &[8, 7, 6, 5, 4, 3, 2, 1]],
        &solana(OWNER),
    );
    let derived = CubeAmm::derive_pool_pda(&program(), &config, id);
    assert_eq!(derived.bytes, pool.to_bytes());
    assert_eq!(CubeAmm::try_derive_pool_pda(&program(), &config, id), Some(derived));
    assert_ne!(CubeAmm::derive_pool_pda(&program(), &config, id + 1), derived);
    let (mint, _) = solana_sdk::pubkey::Pubkey::find_program_address(
        &[b"shares", &derived.bytes],
        &solana(OWNER),
    );
    assert_eq!(CubeAmm::derive_bpt_mint(&program(), &derived).bytes, mint.to_bytes());
    assert_eq!(
        CubeAmm::try_derive_bpt_mint(&program(), &derived).map(|key| key.bytes),
        Some(mint.to_bytes())
    );
}

#[test]
fn a_seed_that_is_too_long_has_no_address() {
    let mut long = program();
    long.pool_seed = vec![0; 33];
    long.bpt_mint_seed = vec![0; 33];
    assert_eq!(CubeAmm::try_derive_pool_pda(&long, &A, 1), None);
    assert_eq!(CubeAmm::try_derive_bpt_mint(&long, &A), None);
}

#[test]
fn vaults_are_associated_token_accounts() {
    assert_eq!(ASSOCIATED_TOKEN_PROGRAM_ID, spl_associated_token_account::id().to_bytes());
    let (expected, _) = solana_sdk::pubkey::Pubkey::find_program_address(
        &[&POOL.bytes, &PROGRAM_A.bytes, &A.bytes],
        &spl_associated_token_account::id(),
    );
    assert!(has_token_account(&POOL, &A, &PROGRAM_A));
    let vault = CubeAmm::derive_vault(&POOL, &A, &PROGRAM_A);
    assert_eq!(vault.bytes, expected.to_bytes());
    assert_eq!(CubeAmm::try_derive_vault(&POOL, &A, &PROGRAM_A), Some(vault));
    assert_ne!(CubeAmm::derive_vault(&POOL, &A, &PROGRAM_B), vault);
}

#[test]
fn swap_data_is_laid_out_in_order() {
    let data = encode_swap_ix_data(&[9, 8, 7, 6, 5, 4, 3, 2], 0x0102, u64::MAX, 3, 200);
    let mut expected = vec![9, 8, 7, 6, 5, 4, 3, 2];
    expected.extend_from_slice(&[2, 1, 0, 0, 0, 0, 0, 0]);
    expected.extend_from_slice(&[255; 8]);
    expected.extend_from_slice(&[3, 200]);
    assert_eq!(data, expected);
}

#[test]
fn only_the_user_signs() {
    let key = |n: u8| Pubkey { bytes: [n; 32] };
    let metas = build_swap_account_metas(&SwapAccounts {
        program_id: key(0),
        pool: key(1),
        token_mint_in: key(2),
        token_mint_out: key(3),
        user_token_in: key(4),
        user_token_out: key(5),
        vault_in: key(6),
        vault_out: key(7),
        user: key(8),
        token_program_in: key(9),
        token_program_out: key(10),
    });
    assert_eq!(metas.len(), 11);
    for (i, meta) in metas.iter().enumerate() {
        assert_eq!(meta.pubkey, key(i as u8));
        assert_eq!(meta.is_signer, i == 8);
        assert_eq!(meta.is_writable, [1, 4, 5, 6, 7, 8].contains(&i));
    }
}

#[test]
fn an_instruction_carries_the_routed_accounts() {
    let amm = load(pool_data(10_000, (true, true), &two_tokens()));
    let own = |mint: &Pubkey, token_program: &Pubkey| {
        let found = spl_associated_token_account::get_associated_token_address_with_program_id(
            &solana(USER),
            &solana(*mint),
            &solana(*token_program),
        );
        Pubkey::new_from_array(found.to_bytes())
    };
    let request = SwapParams {
        in_amount: 5,
        source_mint: B,
        destination_mint: A,
        source_token_account: own(&B, &PROGRAM_B),
        destination_token_account: own(&A, &PROGRAM_A),
        token_transfer_authority: USER,
    };
    let routed = amm.get_swap_and_account_metas(&request).unwrap();
    let ix = amm.build_swap_instruction(USER, 5, 4, 1, 0).unwrap();
    assert_eq!(ix.program_id, OWNER);
    assert_eq!(ix.accounts, routed.account_metas[1..].to_vec());
    assert_eq!(ix.data, encode_swap_ix_data(&TAGS.swap, 5, 4, 1, 0));
    assert_eq!(routed.account_metas.len(), amm.get_accounts_len());
    assert_eq!(routed.account_metas[9].pubkey, PROGRAM_B);
    assert_eq!(routed.account_metas[10].pubkey, PROGRAM_A);

    let again = amm.try_build_swap_instruction(USER, 5, 4, 1, 0).unwrap().unwrap();
    assert_eq!(again.accounts, ix.accounts);
    assert_eq!(again.data, ix.data);
    let again = amm.try_get_swap_and_account_metas(&request).unwrap().unwrap();
    assert_eq!(again.account_metas, routed.account_metas);
}

#[test]
fn swaps_of_unknown_tokens_are_refused() {
    let amm = load(pool_data(10_000, (true, true), &two_tokens()));
    let refused = |i: u8, o: u8| amm.build_swap_instruction(USER, 1, 1, i, o).err();
    assert_eq!(refused(2, 2), Some(AmmError::TokenInIndexOutOfBounds));
    assert_eq!(refused(0, 2), Some(AmmError::TokenOutIndexOutOfBounds));
    assert_eq!(refused(0, 1), None);
    let outcome = amm.try_build_swap_instruction(USER, 1, 1, 9, 0).unwrap();
    assert_eq!(outcome.err(), Some(AmmError::TokenInIndexOutOfBounds));
    let request = |source_mint: Pubkey, destination_mint: Pubkey| SwapParams {
        in_amount: 1,
        source_mint,
        destination_mint,
        source_token_account: USER,
        destination_token_account: USER,
        token_transfer_authority: USER,
    };
    let answer = amm.get_swap_and_account_metas(&request(USER, USER)).err();
    assert_eq!(answer, Some(AmmError::SourceMintNotInPool));
    let answer = amm.get_swap_and_account_metas(&request(A, USER)).err();
    assert_eq!(answer, Some(AmmError::DestinationMintNotInPool));
    assert!(amm.get_swap_and_account_metas(&request(A, A)).is_ok());
}

#[test]
fn refusals_say_what_went_wrong() {
    assert_eq!(AmmError::PoolDisabled.message(), "CubeAmm: pool disabled / swaps disabled");
    assert_eq!(AmmError::ZeroAmount.message(), "CubeAmm: zero amount");
    assert_eq!(AmmError::InputMintNotInPool.message(), "CubeAmm: input mint not in pool");
    assert_eq!(AmmError::OutputMintNotInPool.message(), "CubeAmm: output mint not in pool");
    assert_eq!(AmmError::SameMint.message(), "CubeAmm: input == output mint");
    assert_eq!(
        AmmError::NoViableQuote.message(),
        "CubeAmm: no viable quote at any sub-amount"
    );
    assert_eq!(AmmError::NothingAfterFee.message(), "CubeAmm: amount_in_after_fee = 0");
    assert_eq!(
        AmmError::PoolAccountMissing.message(),
        "CubeAmm: pool account missing from update map"
    );
    assert_eq!(AmmError::SourceMintNotInPool.message(), "CubeAmm: source mint not in pool");
    assert_eq!(
        AmmError::DestinationMintNotInPool.message(),
        "CubeAmm: destination mint not in pool"
    );
    assert_eq!(AmmError::TokenInIndexOutOfBounds.message(), "token_in_index OOB");
    assert_eq!(AmmError::TokenOutIndexOutOfBounds.message(), "token_out_index OOB");
}
