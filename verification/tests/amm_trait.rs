//! The connector against a hand-built v4 pool account with two active tokens.

use cube_amm::accounts::{Account, AccountMap, KeyedAccount};
use cube_amm::amm::{Swap, SwapParams};
use cube_amm::constants::{MAX_TOKENS, POOL_V4_LEN};
use cube_amm::program::{Discriminators, PoolProgram};
use cube_amm::pubkey::Pubkey;
use cube_amm::quote::{QuoteParams, SwapMode, SwapTerms};
use cube_amm::CubeAmm;

const TOKEN_BASE: usize = 179;
const SLOT_SIZE: usize = 144;

const POOL_DISCRIMINATOR: [u8; 8] = [11, 22, 33, 44, 55, 66, 77, 88];
const SWAP_IX_DISCRIMINATOR: [u8; 8] = [8, 7, 6, 5, 4, 3, 2, 1];
const CUBIC_POOL_PROGRAM_ID: Pubkey = Pubkey { bytes: [5; 32] };

const DISCRIMINATORS: Discriminators =
    Discriminators { pool: POOL_DISCRIMINATOR, swap: SWAP_IX_DISCRIMINATOR };

fn program() -> PoolProgram {
    PoolProgram {
        id: CUBIC_POOL_PROGRAM_ID,
        pool_seed: b"cubic_pool".to_vec(),
        bpt_mint_seed: b"bpt_mint".to_vec(),
        discriminators: DISCRIMINATORS,
    }
}

fn new_unique() -> Pubkey {
    Pubkey::new_from_array(solana_sdk::pubkey::Pubkey::new_unique().to_bytes())
}

fn spl_token_id() -> Pubkey {
    Pubkey::new_from_array(spl_token::id().to_bytes())
}

/// The weighted-product curve, in floating point.
fn curve(terms: SwapTerms) -> Option<u64> {
    let base = terms.virtual_balance_in as f64
        / (terms.virtual_balance_in as f64 + terms.amount_in as f64);
    let power = base.powf(terms.weight_in as f64 / terms.weight_out as f64);
    let out = (terms.virtual_balance_out as f64 * (1.0 - power)) as u64;
    if out == 0 || out > terms.lp_actual_out {
        None
    } else {
        Some(out)
    }
}

#[derive(Clone, Copy)]
struct TokenInit {
    mint: Pubkey,
    token_program: Pubkey,
    normalized_weight: u64,
    virtual_balance: u64,
    actual_balance: u64,
    protocol_fees_owed: u64,
}

fn build_pool_data(
    config: Pubkey,
    pool_id: u64,
    swap_fee_rate: u32,
    protocol_fee_rate: u16,
    pool_enabled: bool,
    swaps_enabled: bool,
    tokens: &[TokenInit],
) -> Vec<u8> {
    assert!(tokens.len() <= MAX_TOKENS);
    let mut data = vec![0u8; POOL_V4_LEN];
    data[0..8].copy_from_slice(&POOL_DISCRIMINATOR);
    data[8..40].copy_from_slice(&config.bytes);
    data[40] = 0; // bump
    data[41] = tokens.len() as u8;
    data[42..50].copy_from_slice(&pool_id.to_le_bytes());
    data[50..54].copy_from_slice(&swap_fee_rate.to_le_bytes());
    data[54..56].copy_from_slice(&protocol_fee_rate.to_le_bytes());
    data[64] = pool_enabled as u8;
    data[65] = swaps_enabled as u8;

    for (i, t) in tokens.iter().enumerate() {
        let off = TOKEN_BASE + i * SLOT_SIZE;
        data[off..off + 32].copy_from_slice(&t.mint.bytes);
        data[off + 32..off + 64].copy_from_slice(&t.token_program.bytes);
        data[off + 64..off + 72].copy_from_slice(&t.normalized_weight.to_le_bytes());
        data[off + 88..off + 96].copy_from_slice(&t.virtual_balance.to_le_bytes());
        data[off + 96..off + 104].copy_from_slice(&t.actual_balance.to_le_bytes());
        data[off + 104..off + 112].copy_from_slice(&t.protocol_fees_owed.to_le_bytes());
    }

    data
}

fn load(key: Pubkey, data: Vec<u8>) -> CubeAmm {
    let keyed = KeyedAccount { key, account: Account { data, owner: CUBIC_POOL_PROGRAM_ID } };
    CubeAmm::from_keyed_account(&keyed, &DISCRIMINATORS).unwrap()
}

fn fixture() -> (CubeAmm, [Pubkey; 2]) {
    let config = new_unique();
    let mint_a = new_unique();
    let mint_b = new_unique();
    let token_program = spl_token_id();
    let tokens = [
        TokenInit {
            mint: mint_a,
            token_program,
            normalized_weight: 5_000,
            virtual_balance: 1_000_000_000,
            actual_balance: 1_000_000_000,
            protocol_fees_owed: 0,
        },
        TokenInit {
            mint: mint_b,
            token_program,
            normalized_weight: 5_000,
            virtual_balance: 2_000_000_000,
            actual_balance: 2_000_000_000,
            protocol_fees_owed: 0,
        },
    ];
    let data = build_pool_data(config, 1, 3_000, 2_000, true, true, &tokens);
    let pool_key = CubeAmm::derive_pool_pda(&program(), &config, 1);
    (load(pool_key, data), [mint_a, mint_b])
}

#[test]
fn lifecycle_smoke() {
    let (amm, mints) = fixture();
    assert_eq!(amm.label(), "Cube");
    assert_eq!(amm.program_id(), CUBIC_POOL_PROGRAM_ID);
    assert_eq!(amm.get_reserve_mints(), mints.to_vec());
    assert_eq!(amm.get_accounts_to_update().len(), 1);
    assert_eq!(amm.get_accounts_len(), 11);
    assert!(amm.is_active());
    assert!(amm.program_dependencies().len() == 1);
}

#[test]
fn quote_matches_worked_example() {
    let (amm, [a, b]) = fixture();
    let q = amm
        .quote(
            &QuoteParams {
                amount: 10_000_000,
                input_mint: a,
                output_mint: b,
                swap_mode: SwapMode::ExactIn,
            },
            0,
            &curve,
        )
        .unwrap();
    assert_eq!(q.in_amount, 10_000_000);
    assert!(q.out_amount.abs_diff(19_743_160) < 10_000, "out_amount = {}", q.out_amount);
}

#[test]
fn quote_reverse_direction() {
    let (amm, [a, b]) = fixture();
    let q = amm
        .quote(
            &QuoteParams {
                amount: 20_000_000,
                input_mint: b,
                output_mint: a,
                swap_mode: SwapMode::ExactIn,
            },
            0,
            &curve,
        )
        .unwrap();
    assert_eq!(q.in_amount, 20_000_000);
    assert!(
        q.out_amount > 9_700_000 && q.out_amount < 10_000_000,
        "out_amount = {}",
        q.out_amount
    );
}

#[test]
fn quote_oversized_input_caps_via_halving() {
    let config = new_unique();
    let mint_a = new_unique();
    let mint_b = new_unique();
    let tp = spl_token_id();
    let tokens = [
        TokenInit {
            mint: mint_a,
            token_program: tp,
            normalized_weight: 5_000,
            virtual_balance: 1_000_000_000,
            actual_balance: 1_000_000_000,
            protocol_fees_owed: 0,
        },
        TokenInit {
            mint: mint_b,
            token_program: tp,
            normalized_weight: 5_000,
            virtual_balance: 1_000_000_000_000,
            actual_balance: 1_000_000_000,
            protocol_fees_owed: 999_000_000,
        },
    ];
    let data = build_pool_data(config, 9, 3_000, 0, true, true, &tokens);
    let amm = load(CubeAmm::derive_pool_pda(&program(), &config, 9), data);
    let q = amm
        .quote(
            &QuoteParams {
                amount: 1_000_000_000_000,
                input_mint: mint_a,
                output_mint: mint_b,
                swap_mode: SwapMode::ExactIn,
            },
            0,
            &curve,
        )
        .unwrap();
    assert!(q.in_amount > 0);
    assert!(q.in_amount <= 1_000_000_000_000);
    assert!(q.out_amount > 0);
    assert!(q.out_amount <= 1_000_000, "out_amount = {} exceeds lp_actual cap", q.out_amount);
    assert!(q.in_amount < 1_000_000_000_000, "in_amount = {} not capped", q.in_amount);
}

#[test]
fn quote_rejects_unknown_mint() {
    let (amm, [a, _]) = fixture();
    let bogus = new_unique();
    let r = amm.quote(
        &QuoteParams {
            amount: 1_000_000,
            input_mint: a,
            output_mint: bogus,
            swap_mode: SwapMode::ExactIn,
        },
        0,
        &curve,
    );
    assert!(r.is_err());
}

#[test]
fn quote_zero_amount_errors() {
    let (amm, [a, b]) = fixture();
    let r = amm.quote(
        &QuoteParams { amount: 0, input_mint: a, output_mint: b, swap_mode: SwapMode::ExactIn },
        0,
        &curve,
    );
    assert!(r.is_err());
}

#[test]
fn quote_dust_input_errors_zero_fee() {
    let (amm, [a, b]) = fixture();
    let r = amm.quote(
        &QuoteParams { amount: 1, input_mint: a, output_mint: b, swap_mode: SwapMode::ExactIn },
        0,
        &curve,
    );
    assert!(r.is_err());
}

#[test]
fn disabled_pool_is_inactive_and_unquotable() {
    let config = new_unique();
    let m_a = new_unique();
    let m_b = new_unique();
    let tp = spl_token_id();
    let toks = [
        TokenInit {
            mint: m_a,
            token_program: tp,
            normalized_weight: 5_000,
            virtual_balance: 1_000_000_000,
            actual_balance: 1_000_000_000,
            protocol_fees_owed: 0,
        },
        TokenInit {
            mint: m_b,
            token_program: tp,
            normalized_weight: 5_000,
            virtual_balance: 1_000_000_000,
            actual_balance: 1_000_000_000,
            protocol_fees_owed: 0,
        },
    ];
    let data = build_pool_data(config, 7, 3_000, 0, /*pool_enabled*/ false, true, &toks);
    let amm = load(CubeAmm::derive_pool_pda(&program(), &config, 7), data);
    assert!(!amm.is_active());
    let r = amm.quote(
        &QuoteParams {
            amount: 1_000_000,
            input_mint: m_a,
            output_mint: m_b,
            swap_mode: SwapMode::ExactIn,
        },
        0,
        &curve,
    );
    assert!(r.is_err());
}

#[test]
fn update_reads_fresh_balances() {
    let (mut amm, [a, b]) = fixture();
    let params = QuoteParams {
        amount: 10_000_000,
        input_mint: a,
        output_mint: b,
        swap_mode: SwapMode::ExactIn,
    };
    let q_before = amm.quote(&params, 0, &curve).unwrap();

    let new_tokens = [
        TokenInit {
            mint: a,
            token_program: spl_token_id(),
            normalized_weight: 5_000,
            virtual_balance: 1_000_000_000,
            actual_balance: 1_000_000_000,
            protocol_fees_owed: 0,
        },
        TokenInit {
            mint: b,
            token_program: spl_token_id(),
            normalized_weight: 5_000,
            virtual_balance: 8_000_000_000,
            actual_balance: 8_000_000_000,
            protocol_fees_owed: 0,
        },
    ];
    let new_data = build_pool_data(new_unique(), 1, 3_000, 2_000, true, true, &new_tokens);

    let mut map: AccountMap = AccountMap::default();
    map.insert(amm.key(), Account { data: new_data, owner: CUBIC_POOL_PROGRAM_ID });
    amm.update(&map).unwrap();

    let q_after = amm.quote(&params, 0, &curve).unwrap();
    assert!(
        q_after.out_amount > q_before.out_amount,
        "after vbO=8e9 should yield more output than before vbO=2e9"
    );
}

#[test]
fn swap_and_account_metas_layout() {
    let (amm, [a, b]) = fixture();
    let user = new_unique();
    let src_ata = new_unique();
    let dst_ata = new_unique();
    let sap = amm
        .get_swap_and_account_metas(&SwapParams {
            in_amount: 1_000_000,
            source_mint: a,
            destination_mint: b,
            source_token_account: src_ata,
            destination_token_account: dst_ata,
            token_transfer_authority: user,
        })
        .unwrap();
    assert!(matches!(sap.swap, Swap::Placeholder));
    assert_eq!(sap.account_metas.len(), 11);

    // Index 0: program id, read-only.
    assert_eq!(sap.account_metas[0].pubkey, CUBIC_POOL_PROGRAM_ID);
    assert!(!sap.account_metas[0].is_writable);
    assert!(!sap.account_metas[0].is_signer);

    // Index 1: pool, writable, not signer.
    assert_eq!(sap.account_metas[1].pubkey, amm.key());
    assert!(sap.account_metas[1].is_writable);

    // Index 2: token_mint_in (read).
    assert_eq!(sap.account_metas[2].pubkey, a);
    assert!(!sap.account_metas[2].is_writable);

    // Index 3: token_mint_out (read).
    assert_eq!(sap.account_metas[3].pubkey, b);

    // Index 4: user_token_in (writable).
    assert_eq!(sap.account_metas[4].pubkey, src_ata);
    assert!(sap.account_metas[4].is_writable);

    // Index 5: user_token_out (writable).
    assert_eq!(sap.account_metas[5].pubkey, dst_ata);

    // Index 6/7: vaults.
    let vault_in = CubeAmm::derive_vault(&amm.key(), &a, &spl_token_id());
    let vault_out = CubeAmm::derive_vault(&amm.key(), &b, &spl_token_id());
    assert_eq!(sap.account_metas[6].pubkey, vault_in);
    assert!(sap.account_metas[6].is_writable);
    assert_eq!(sap.account_metas[7].pubkey, vault_out);
    assert!(sap.account_metas[7].is_writable);

    // Index 8: user (signer, writable).
    assert_eq!(sap.account_metas[8].pubkey, user);
    assert!(sap.account_metas[8].is_signer);
    assert!(sap.account_metas[8].is_writable);

    // Index 9/10: token programs (read).
    assert_eq!(sap.account_metas[9].pubkey, spl_token_id());
    assert_eq!(sap.account_metas[10].pubkey, spl_token_id());
}

#[test]
fn build_swap_instruction_produces_correct_data() {
    let (amm, _) = fixture();
    let user = new_unique();
    let ix = amm.build_swap_instruction(user, 1_000_000, 0, 0, 1).unwrap();
    assert_eq!(ix.program_id, CUBIC_POOL_PROGRAM_ID);
    assert_eq!(ix.data.len(), 26);
    assert_eq!(&ix.data[..8], &SWAP_IX_DISCRIMINATOR);
    assert_eq!(ix.accounts.len(), 10);
}
