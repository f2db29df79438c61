//! The connector for one pool.
//!
//! A routing engine drives it as follows: it loads the pool account with
//! `from_keyed_account`, asks `get_accounts_to_update` what to fetch, hands the
//! fetched accounts to `update`, asks for any number of quotes with `quote`,
//! and for a routed swap gets the accounts with `get_swap_and_account_metas`.

use crate::accounts::{Account, AccountMap, KeyedAccount};
use crate::address::{
    associated_token_address, derive_key, derived_key, has_token_account, seed_bytes, token_account,
};
use crate::bytes::{
    law_spelling_is_unique, law_u64_round_trip, le_bytes, le_value, push_u64,
};
use crate::constants::{MAX_TOKENS, SWAP_ACCOUNTS_LEN};
use crate::error::AmmError;
use crate::ix::{
    build_swap_account_metas, encode_swap_ix_data, instruction_account_metas,
    law_swap_data_reads_back, swap_data, swap_metas, AccountMeta, Instruction, SwapAccounts,
};
use crate::math::fee::apply_swap_fee;
use crate::math::selloff::within_selloff_cap;
use crate::program::{Discriminators, PoolProgram};
use crate::pubkey::Pubkey;
use crate::quote::{
    agrees_with, answers, best_quote, bisect, is_quote_from, keeps_to_vault,
    law_quote_keeps_to_vault, may_refuse, price_list, priced, quoted, request_places, Quote,
    QuoteParams, SwapTerms,
};
use crate::state::{
    decoded, law_first_place_is_found, law_mint_index, lp_accessible, mint_index, PoolModel,
    PoolState, TokenSlot,
};
use vstd::arithmetic::power2::{lemma2_to64, lemma_pow2_unfold, pow2};
use vstd::prelude::*;

verus! {

/// How a router is to encode a swap.
#[derive(Clone, Copy, Debug, PartialEq, Eq, Structural)]
pub enum Swap {
    Placeholder,
}

/// A request for the accounts of a swap.
#[derive(Clone, Copy, Debug)]
pub struct SwapParams {
    pub in_amount: u64,
    pub source_mint: Pubkey,
    pub destination_mint: Pubkey,
    pub source_token_account: Pubkey,
    pub destination_token_account: Pubkey,
    pub token_transfer_authority: Pubkey,
}

/// The accounts of a swap, with how to encode it.
pub struct SwapAndAccountMetas {
    pub swap: Swap,
    pub account_metas: Vec<AccountMeta>,
}

/// The connector for one pool.
pub struct CubeAmm {
    /// Address of the pool account.
    key: Pubkey,
    /// Owner of the pool account when it was loaded.
    program_id: Pubkey,
    discriminators: Discriminators,
    /// Mints of the active tokens.
    reserve_mints: Vec<Pubkey>,
    /// The pool as last seen.
    state: PoolState,
}

/// What a `CubeAmm` knows.
pub struct AmmModel {
    pub key: Pubkey,
    pub program_id: Pubkey,
    pub discriminators: Discriminators,
    pub pool: PoolModel,
}

impl View for CubeAmm {
    type V = AmmModel;

    closed spec fn view(&self) -> AmmModel {
        AmmModel {
            key: self.key,
            program_id: self.program_id,
            discriminators: self.discriminators,
            pool: self.state@,
        }
    }
}

/// The mints of the slots, in order.
pub open spec fn mints_of(tokens: Seq<TokenSlot>) -> Seq<Pubkey> {
    tokens.map_values(|slot: TokenSlot| slot.mint)
}

/// The connector that an account gives, or why it gives none.
pub open spec fn loaded(
    key: Pubkey,
    account: Account,
    discriminators: Discriminators,
) -> Result<AmmModel, AmmError> {
    match decoded(account.data@, discriminators.pool@) {
        Ok(pool) => Ok(AmmModel { key, program_id: account.owner, discriminators, pool }),
        Err(error) => Err(error),
    }
}

/// The connector after an update from `accounts`, or why there is none.
pub open spec fn updated(amm: AmmModel, accounts: Map<Pubkey, Account>) -> Result<AmmModel, AmmError> {
    if !accounts.contains_key(amm.key) {
        Err(AmmError::PoolAccountMissing)
    } else {
        match decoded(accounts[amm.key].data@, amm.discriminators.pool@) {
            Ok(pool) => Ok(AmmModel { pool, ..amm }),
            Err(error) => Err(error),
        }
    }
}

/// The pool trades, and some token of it can be paid out.
pub open spec fn tradable(pool: PoolModel) -> bool {
    &&& pool.pool_enabled
    &&& pool.swaps_enabled
    &&& exists|i: int| 0 <= i < pool.tokens.len() && lp_accessible(#[trigger] pool.tokens[i]) > 0
}

/// The address of a pool, from its config and its id.
pub open spec fn pool_address(program: PoolProgram, config: Pubkey, pool_id: u64) -> Option<Pubkey> {
    derived_key(seq![program.pool_seed@, config@, le_bytes(pool_id as nat, 8)], program.id)
}

/// The address of the share mint of a pool.
pub open spec fn bpt_mint_address(program: PoolProgram, pool: Pubkey) -> Option<Pubkey> {
    derived_key(seq![program.bpt_mint_seed@, pool@], program.id)
}

/// Both vaults of a swap between two slots have addresses.
pub open spec fn has_vaults(pool: Pubkey, in_slot: TokenSlot, out_slot: TokenSlot) -> bool {
    &&& token_account(pool, in_slot.mint, in_slot.token_program) is Some
    &&& token_account(pool, out_slot.mint, out_slot.token_program) is Some
}

/// The accounts of a swap between two slots of a pool.
pub open spec fn accounts_of_swap(
    amm: AmmModel,
    in_slot: TokenSlot,
    out_slot: TokenSlot,
    user: Pubkey,
    user_token_in: Pubkey,
    user_token_out: Pubkey,
) -> SwapAccounts {
    SwapAccounts {
        program_id: amm.program_id,
        pool: amm.key,
        token_mint_in: in_slot.mint,
        token_mint_out: out_slot.mint,
        user_token_in,
        user_token_out,
        vault_in: token_account(amm.key, in_slot.mint, in_slot.token_program)->0,
        vault_out: token_account(amm.key, out_slot.mint, out_slot.token_program)->0,
        user,
        token_program_in: in_slot.token_program,
        token_program_out: out_slot.token_program,
    }
}

/// The accounts of the swap that a user makes from their own token accounts.
pub open spec fn accounts_of_user_swap(
    amm: AmmModel,
    in_slot: TokenSlot,
    out_slot: TokenSlot,
    user: Pubkey,
) -> SwapAccounts {
    accounts_of_swap(
        amm,
        in_slot,
        out_slot,
        user,
        token_account(user, in_slot.mint, in_slot.token_program)->0,
        token_account(user, out_slot.mint, out_slot.token_program)->0,
    )
}

/// Every address that an instruction for this swap needs exists.
pub open spec fn instruction_addresses_exist(
    amm: AmmModel,
    user: Pubkey,
    token_in_index: u8,
    token_out_index: u8,
) -> bool {
    let tokens = amm.pool.tokens;
    token_in_index < tokens.len() && token_out_index < tokens.len() ==> {
        let in_slot = tokens[token_in_index as int];
        let out_slot = tokens[token_out_index as int];
        &&& has_vaults(amm.key, in_slot, out_slot)
        &&& token_account(user, in_slot.mint, in_slot.token_program) is Some
        &&& token_account(user, out_slot.mint, out_slot.token_program) is Some
    }
}

/// What `build_swap_instruction` answers.
pub open spec fn is_swap_instruction(
    amm: AmmModel,
    user: Pubkey,
    amount_in: u64,
    minimum_amount_out: u64,
    token_in_index: u8,
    token_out_index: u8,
    result: Result<Instruction, AmmError>,
) -> bool {
    let tokens = amm.pool.tokens;
    if token_in_index >= tokens.len() {
        result == Err::<Instruction, AmmError>(AmmError::TokenInIndexOutOfBounds)
    } else if token_out_index >= tokens.len() {
        result == Err::<Instruction, AmmError>(AmmError::TokenOutIndexOutOfBounds)
    } else {
        &&& result matches Ok(instruction)
        &&& instruction.program_id == amm.program_id
        &&& instruction.accounts@ == swap_metas(
            accounts_of_user_swap(
                amm,
                tokens[token_in_index as int],
                tokens[token_out_index as int],
                user,
            ),
        ).skip(1)
        &&& instruction.data@ == swap_data(
            amm.discriminators.swap@,
            amount_in,
            minimum_amount_out,
            token_in_index,
            token_out_index,
        )
    }
}

/// The slots that a request for accounts speaks of, or why there are none.
pub open spec fn swap_slots(amm: AmmModel, request: SwapParams) -> Result<
    (TokenSlot, TokenSlot),
    AmmError,
> {
    let tokens = amm.pool.tokens;
    match (mint_index(tokens, request.source_mint), mint_index(tokens, request.destination_mint)) {
        (None, _) => Err(AmmError::SourceMintNotInPool),
        (Some(_), None) => Err(AmmError::DestinationMintNotInPool),
        (Some(i), Some(o)) => Ok((tokens[i], tokens[o])),
    }
}

/// Both vaults of the requested swap have addresses, where it is between two
/// tokens of the pool.
pub open spec fn vault_addresses_exist(amm: AmmModel, request: SwapParams) -> bool {
    swap_slots(amm, request) matches Ok((in_slot, out_slot)) ==> has_vaults(amm.key, in_slot, out_slot)
}

/// What `get_swap_and_account_metas` answers.
pub open spec fn is_swap_answer(
    amm: AmmModel,
    request: SwapParams,
    result: Result<SwapAndAccountMetas, AmmError>,
) -> bool {
    match swap_slots(amm, request) {
        Err(error) => result == Err::<SwapAndAccountMetas, AmmError>(error),
        Ok((in_slot, out_slot)) => {
            &&& result matches Ok(answer)
            &&& answer.swap == Swap::Placeholder
            &&& answer.account_metas@ == swap_metas(
                accounts_of_swap(
                    amm,
                    in_slot,
                    out_slot,
                    request.token_transfer_authority,
                    request.source_token_account,
                    request.destination_token_account,
                ),
            )
        },
    }
}

/// An update gives what loading the fetched account anew would give, but for
/// the program, which stays the one that the connector was loaded with.
pub proof fn law_update_is_reload(amm: AmmModel, accounts: Map<Pubkey, Account>)
    requires
        accounts.contains_key(amm.key),
    ensures
        updated(amm, accounts) is Ok <==> loaded(amm.key, accounts[amm.key], amm.discriminators) is Ok,
        updated(amm, accounts) matches Ok(after) ==> {
            let fresh = loaded(amm.key, accounts[amm.key], amm.discriminators)->Ok_0;
            after == AmmModel { program_id: amm.program_id, ..fresh }
        },
        accounts[amm.key].owner == amm.program_id ==> updated(amm, accounts) == loaded(
            amm.key,
            accounts[amm.key],
            amm.discriminators,
        ),
{
}

/// An update reads no account but that of the pool, the one that
/// `get_accounts_to_update` names.
pub proof fn law_update_reads_the_pool_alone(
    amm: AmmModel,
    accounts: Map<Pubkey, Account>,
    others: Map<Pubkey, Account>,
)
    requires
        accounts.contains_key(amm.key) == others.contains_key(amm.key),
        accounts.contains_key(amm.key) ==> accounts[amm.key] == others[amm.key],
    ensures
        updated(amm, accounts) == updated(amm, others),
{
}

/// A loaded connector lists as many mints as the account says it has tokens.
pub proof fn law_one_mint_per_token(key: Pubkey, account: Account, discriminators: Discriminators)
    ensures
        loaded(key, account, discriminators) matches Ok(amm) ==> mints_of(amm.pool.tokens).len()
            == account.data@[41] && mints_of(amm.pool.tokens).len() <= MAX_TOKENS,
{
}

/// An update keeps the address, the program and the tags, and a second one from
/// the same accounts changes nothing more.
pub proof fn law_update_twice_is_update(amm: AmmModel, accounts: Map<Pubkey, Account>)
    ensures
        updated(amm, accounts) matches Ok(after) ==> {
            &&& after.key == amm.key
            &&& after.program_id == amm.program_id
            &&& after.discriminators == amm.discriminators
            &&& updated(after, accounts) == Ok::<AmmModel, AmmError>(after)
        },
{
}

/// A pool that is not tradable quotes nothing, or, with a curve that keeps to
/// the vault, at most a payment of nothing.
pub proof fn law_inactive_pool_pays_nothing(
    pool: PoolModel,
    request: QuoteParams,
    now: int,
    model: spec_fn(SwapTerms) -> Option<u64>,
)
    requires
        !tradable(pool),
        keeps_to_vault(model),
    ensures
        quoted(pool, request, now, model) matches Ok(quote) ==> quote.out_amount == 0,
{
    law_quote_keeps_to_vault(pool, request, now, model);
    if let Ok((i, o)) = request_places(pool, request) {
        law_mint_index(pool.tokens, request.output_mint);
        assert(lp_accessible(pool.tokens[o]) == 0);
    }
}

/// The instruction for a swap carries the accounts that the swap would be
/// routed with from the user's own token accounts, without the program.
pub proof fn law_instruction_matches_route(
    amm: AmmModel,
    user: Pubkey,
    amount_in: u64,
    minimum_amount_out: u64,
    token_in_index: u8,
    token_out_index: u8,
    instruction: Instruction,
    request: SwapParams,
    answer: SwapAndAccountMetas,
)
    requires
        is_swap_instruction(
            amm,
            user,
            amount_in,
            minimum_amount_out,
            token_in_index,
            token_out_index,
            Ok::<Instruction, AmmError>(instruction),
        ),
        is_swap_answer(amm, request, Ok::<SwapAndAccountMetas, AmmError>(answer)),
        mint_index(amm.pool.tokens, request.source_mint) == Some(token_in_index as int),
        mint_index(amm.pool.tokens, request.destination_mint) == Some(token_out_index as int),
        request.token_transfer_authority == user,
        Some(request.source_token_account) == token_account(
            user,
            amm.pool.tokens[token_in_index as int].mint,
            amm.pool.tokens[token_in_index as int].token_program,
        ),
        Some(request.destination_token_account) == token_account(
            user,
            amm.pool.tokens[token_out_index as int].mint,
            amm.pool.tokens[token_out_index as int].token_program,
        ),
    ensures
        instruction.accounts@ == answer.account_metas@.skip(1),
        answer.account_metas@.len() == SWAP_ACCOUNTS_LEN,
        instruction.accounts@.len() == SWAP_ACCOUNTS_LEN - 1,
        answer.account_metas@[0].pubkey == instruction.program_id,
{
}

/// The mints are listed one per slot, each that of its slot.
pub proof fn law_mints_are_those_of_the_slots(tokens: Seq<TokenSlot>)
    ensures
        mints_of(tokens).len() == tokens.len(),
        forall|i: int| 0 <= i < tokens.len() ==> #[trigger] mints_of(tokens)[i] == tokens[i].mint,
{
}

/// An account gives a connector exactly where its data is decoded, with the pool
/// that it holds, at its own address and under its owner; otherwise it gives the
/// reason why it is not decoded.
pub proof fn law_loading_keeps_the_account(
    key: Pubkey,
    account: Account,
    discriminators: Discriminators,
)
    ensures
        ({
            let pool = decoded(account.data@, discriminators.pool@);
            let result = loaded(key, account, discriminators);
            &&& result is Ok <==> pool is Ok
            &&& pool matches Err(error) ==> result == Err::<AmmModel, AmmError>(error)
            &&& result matches Ok(amm) ==> {
                &&& amm.key == key
                &&& amm.program_id == account.owner
                &&& amm.discriminators == discriminators
                &&& pool == Ok::<PoolModel, AmmError>(amm.pool)
            }
        }),
{
}

/// An update without the pool account is refused, and any other one takes over
/// what that account holds, or gives the reason why it is not decoded.
pub proof fn law_update_takes_the_pool_over(amm: AmmModel, accounts: Map<Pubkey, Account>)
    ensures
        ({
            let result = updated(amm, accounts);
            let pool = decoded(accounts[amm.key].data@, amm.discriminators.pool@);
            &&& result == Err::<AmmModel, AmmError>(AmmError::PoolAccountMissing)
                <==> !accounts.dom().contains(amm.key)
            &&& accounts.dom().contains(amm.key) ==> {
                &&& result is Ok <==> pool is Ok
                &&& pool matches Err(error) ==> result == Err::<AmmModel, AmmError>(error)
            }
            &&& result matches Ok(after) ==> {
                &&& pool == Ok::<PoolModel, AmmError>(after.pool)
                &&& after.key == amm.key
                &&& after.program_id == amm.program_id
                &&& after.discriminators == amm.discriminators
            }
        }),
{
}

/// A pool trades exactly where both switches are on and some vault holds more
/// than the protocol is owed of it.
pub proof fn law_tradable_means_something_to_pay(pool: PoolModel)
    ensures
        tradable(pool) <==> {
            &&& pool.pool_enabled
            &&& pool.swaps_enabled
            &&& exists|i: int|
                0 <= i < pool.tokens.len() && (#[trigger] pool.tokens[i]).actual_balance
                    > pool.tokens[i].protocol_fees_owed
        },
{
    if exists|i: int|
        0 <= i < pool.tokens.len() && (#[trigger] pool.tokens[i]).actual_balance
            > pool.tokens[i].protocol_fees_owed {
        let i = choose|i: int|
            0 <= i < pool.tokens.len() && (#[trigger] pool.tokens[i]).actual_balance
                > pool.tokens[i].protocol_fees_owed;
        assert(lp_accessible(pool.tokens[i]) > 0);
    }
}

/// The address of a pool is derived under its program from three seeds: the
/// program's own, the config address, and eight bytes that spell the pool id.
pub proof fn law_pool_address_spells_the_id(
    program: PoolProgram,
    config: Pubkey,
    pool_id: u64,
    seeds: Seq<Seq<u8>>,
)
    requires
        seeds.len() == 3,
        seeds[0] == program.pool_seed@,
        seeds[1] == config.bytes@,
        seeds[2].len() == 8,
        le_value(seeds[2]) == pool_id,
    ensures
        pool_address(program, config, pool_id) == derived_key(seeds, program.id),
{
    law_u64_round_trip(pool_id);
    law_spelling_is_unique(seeds[2], le_bytes(pool_id as nat, 8));
    assert(seeds =~= seq![program.pool_seed@, config@, le_bytes(pool_id as nat, 8)]);
}

/// The address of a share mint is derived under the program from two seeds: the
/// program's own and the address of the pool.
pub proof fn law_bpt_mint_address_names_the_pool(
    program: PoolProgram,
    pool: Pubkey,
    seeds: Seq<Seq<u8>>,
)
    requires
        seeds.len() == 2,
        seeds[0] == program.bpt_mint_seed@,
        seeds[1] == pool.bytes@,
    ensures
        bpt_mint_address(program, pool) == derived_key(seeds, program.id),
{
    assert(seeds =~= seq![program.bpt_mint_seed@, pool@]);
}

/// An instruction needs the token accounts of the user and of the pool for both
/// tokens, where there are two such tokens, and no other address.
pub proof fn law_instruction_needs_four_token_accounts(
    amm: AmmModel,
    user: Pubkey,
    token_in_index: u8,
    token_out_index: u8,
)
    ensures
        ({
            let tokens = amm.pool.tokens;
            let sold = tokens[token_in_index as int];
            let bought = tokens[token_out_index as int];
            instruction_addresses_exist(amm, user, token_in_index, token_out_index) <==> {
                ||| token_in_index >= tokens.len()
                ||| token_out_index >= tokens.len()
                ||| {
                    &&& token_account(amm.key, sold.mint, sold.token_program) is Some
                    &&& token_account(amm.key, bought.mint, bought.token_program) is Some
                    &&& token_account(user, sold.mint, sold.token_program) is Some
                    &&& token_account(user, bought.mint, bought.token_program) is Some
                }
            }
        }),
{
}

/// An instruction is refused exactly for a place that the pool has no token at,
/// the one sold first.
pub proof fn law_instruction_refuses_unknown_places(
    amm: AmmModel,
    user: Pubkey,
    amount_in: u64,
    minimum_amount_out: u64,
    token_in_index: u8,
    token_out_index: u8,
    result: Result<Instruction, AmmError>,
)
    requires
        is_swap_instruction(
            amm,
            user,
            amount_in,
            minimum_amount_out,
            token_in_index,
            token_out_index,
            result,
        ),
    ensures
        ({
            let count = amm.pool.tokens.len();
            &&& result == Err::<Instruction, AmmError>(AmmError::TokenInIndexOutOfBounds)
                <==> token_in_index >= count
            &&& result == Err::<Instruction, AmmError>(AmmError::TokenOutIndexOutOfBounds)
                <==> token_in_index < count && token_out_index >= count
            &&& result is Ok <==> token_in_index < count && token_out_index < count
        }),
{
}

/// The data of an instruction holds the tag, then eight bytes that spell the
/// amount paid in, eight that spell the least acceptable amount out, and the two
/// places, and nothing else.
pub proof fn law_instruction_data_holds_the_request(
    amm: AmmModel,
    user: Pubkey,
    amount_in: u64,
    minimum_amount_out: u64,
    token_in_index: u8,
    token_out_index: u8,
    instruction: Instruction,
)
    requires
        is_swap_instruction(
            amm,
            user,
            amount_in,
            minimum_amount_out,
            token_in_index,
            token_out_index,
            Ok::<Instruction, AmmError>(instruction),
        ),
    ensures
        instruction.data@.len() == 26,
        instruction.data@.subrange(0, 8) == amm.discriminators.swap@,
        le_value(instruction.data@.subrange(8, 16)) == amount_in,
        le_value(instruction.data@.subrange(16, 24)) == minimum_amount_out,
        instruction.data@[24] == token_in_index,
        instruction.data@[25] == token_out_index,
{
    law_swap_data_reads_back(
        amm.discriminators.swap@,
        amount_in,
        minimum_amount_out,
        token_in_index,
        token_out_index,
    );
}

/// An instruction is for the pool's program and lists ten accounts: the pool, the
/// two mints, the user's two token accounts, the pool's two, the user, and the
/// two token programs. It changes the pool, the token accounts and the user, who
/// alone signs.
pub proof fn law_instruction_lists_its_accounts(
    amm: AmmModel,
    user: Pubkey,
    amount_in: u64,
    minimum_amount_out: u64,
    token_in_index: u8,
    token_out_index: u8,
    instruction: Instruction,
)
    requires
        instruction_addresses_exist(amm, user, token_in_index, token_out_index),
        is_swap_instruction(
            amm,
            user,
            amount_in,
            minimum_amount_out,
            token_in_index,
            token_out_index,
            Ok::<Instruction, AmmError>(instruction),
        ),
    ensures
        ({
            let sold = amm.pool.tokens[token_in_index as int];
            let bought = amm.pool.tokens[token_out_index as int];
            let metas = instruction.accounts@;
            &&& instruction.program_id == amm.program_id
            &&& metas.len() == 10
            &&& metas[0].pubkey == amm.key
            &&& metas[1].pubkey == sold.mint
            &&& metas[2].pubkey == bought.mint
            &&& token_account(user, sold.mint, sold.token_program) == Some(metas[3].pubkey)
            &&& token_account(user, bought.mint, bought.token_program) == Some(metas[4].pubkey)
            &&& token_account(amm.key, sold.mint, sold.token_program) == Some(metas[5].pubkey)
            &&& token_account(amm.key, bought.mint, bought.token_program) == Some(metas[6].pubkey)
            &&& metas[7].pubkey == user
            &&& metas[8].pubkey == sold.token_program
            &&& metas[9].pubkey == bought.token_program
            &&& forall|i: int|
                0 <= i < 10 ==> (#[trigger] metas[i].is_writable <==> i == 0 || 3 <= i <= 7)
            &&& forall|i: int| 0 <= i < 10 ==> (#[trigger] metas[i].is_signer <==> i == 7)
        }),
{
}

/// A request for accounts is refused exactly for a mint that no slot has, the one
/// sold first, and a refusal needs no address.
pub proof fn law_route_is_between_slots_of_the_pool(
    amm: AmmModel,
    request: SwapParams,
    result: Result<SwapAndAccountMetas, AmmError>,
)
    requires
        is_swap_answer(amm, request, result),
    ensures
        ({
            let tokens = amm.pool.tokens;
            let has_source = exists|i: int|
                0 <= i < tokens.len() && #[trigger] tokens[i].mint == request.source_mint;
            let has_destination = exists|i: int|
                0 <= i < tokens.len() && #[trigger] tokens[i].mint == request.destination_mint;
            &&& result == Err::<SwapAndAccountMetas, AmmError>(AmmError::SourceMintNotInPool)
                <==> !has_source
            &&& result == Err::<SwapAndAccountMetas, AmmError>(AmmError::DestinationMintNotInPool)
                <==> has_source && !has_destination
            &&& result is Ok <==> has_source && has_destination
            &&& !has_source || !has_destination ==> vault_addresses_exist(amm, request)
        }),
{
    law_mint_index(amm.pool.tokens, request.source_mint);
    law_mint_index(amm.pool.tokens, request.destination_mint);
}

/// A routed swap is between the first slots of its two mints and lists eleven
/// accounts: the program, the pool, the two mints, the token accounts of the
/// request, the pool's two, the authority, and the two token programs. It changes
/// the pool, the token accounts and the authority, who alone signs.
pub proof fn law_route_lists_its_accounts(
    amm: AmmModel,
    request: SwapParams,
    i: int,
    o: int,
    answer: SwapAndAccountMetas,
)
    requires
        0 <= i < amm.pool.tokens.len(),
        amm.pool.tokens[i].mint == request.source_mint,
        forall|j: int| 0 <= j < i ==> amm.pool.tokens[j].mint != request.source_mint,
        0 <= o < amm.pool.tokens.len(),
        amm.pool.tokens[o].mint == request.destination_mint,
        forall|j: int| 0 <= j < o ==> amm.pool.tokens[j].mint != request.destination_mint,
    ensures
        ({
            let sold = amm.pool.tokens[i];
            let bought = amm.pool.tokens[o];
            let metas = answer.account_metas@;
            let vault_in = token_account(amm.key, sold.mint, sold.token_program);
            let vault_out = token_account(amm.key, bought.mint, bought.token_program);
            &&& vault_addresses_exist(amm, request) <==> vault_in is Some && vault_out is Some
            &&& (vault_addresses_exist(amm, request) && is_swap_answer(
                amm,
                request,
                Ok::<SwapAndAccountMetas, AmmError>(answer),
            )) ==> {
                &&& answer.swap is Placeholder
                &&& metas.len() == 11
                &&& metas[0].pubkey == amm.program_id
                &&& metas[1].pubkey == amm.key
                &&& metas[2].pubkey == request.source_mint
                &&& metas[3].pubkey == request.destination_mint
                &&& metas[4].pubkey == request.source_token_account
                &&& metas[5].pubkey == request.destination_token_account
                &&& vault_in == Some(metas[6].pubkey)
                &&& vault_out == Some(metas[7].pubkey)
                &&& metas[8].pubkey == request.token_transfer_authority
                &&& metas[9].pubkey == sold.token_program
                &&& metas[10].pubkey == bought.token_program
                &&& forall|k: int|
                    0 <= k < 11 ==> (#[trigger] metas[k].is_writable <==> k == 1 || 4 <= k <= 8)
                &&& forall|k: int| 0 <= k < 11 ==> (#[trigger] metas[k].is_signer <==> k == 8)
            }
        }),
{
    law_first_place_is_found(amm.pool.tokens, request.source_mint, i);
    law_first_place_is_found(amm.pool.tokens, request.destination_mint, o);
}

/// Copies the mints out of the slots.
fn collect_mints(tokens: &[TokenSlot]) -> (mints: Vec<Pubkey>)
    ensures
        mints@ == mints_of(tokens@),
{
    let mut mints: Vec<Pubkey> = Vec::new();
    let mut i: usize = 0;
    while i < tokens.len()
        invariant
            i <= tokens@.len(),
            mints@ == mints_of(tokens@.take(i as int)),
        decreases tokens@.len() - i,
    {
        mints.push(tokens[i].mint);
        i = i + 1;
        proof {
            assert(mints@ =~= mints_of(tokens@.take(i as int)));
        }
    }
    proof {
        assert(tokens@.take(i as int) =~= tokens@);
    }
    mints
}

impl Clone for CubeAmm {
    fn clone(&self) -> (copy: Self)
        ensures
            copy@ == self@,
    {
        CubeAmm {
            key: self.key,
            program_id: self.program_id,
            discriminators: self.discriminators,
            reserve_mints: self.get_reserve_mints(),
            state: self.state.clone(),
        }
    }
}

impl CubeAmm {
    #[verifier::type_invariant]
    spec fn reserve_mints_match(self) -> bool {
        self.reserve_mints@ == mints_of(self.state@.tokens)
    }

    /// Derives the address of the pool with this id under `config`.
    ///
    /// Whether there is one is what `try_derive_pool_pda` finds out.
    pub fn derive_pool_pda(program: &PoolProgram, config: &Pubkey, pool_id: u64) -> (key: Pubkey)
        requires
            pool_address(*program, *config, pool_id) is Some,
        ensures
            Some(key) == pool_address(*program, *config, pool_id),
    {
        CubeAmm::try_derive_pool_pda(program, config, pool_id).unwrap()
    }

    /// Derives the address of the pool with this id under `config`, where there
    /// is one; there is none where the program's seed is longer than thirty-two
    /// bytes.
    pub fn try_derive_pool_pda(program: &PoolProgram, config: &Pubkey, pool_id: u64) -> (key: Option<
        Pubkey,
    >)
        ensures
            key == pool_address(*program, *config, pool_id),
            program.pool_seed@.len() > 32 ==> key is None,
    {
        let mut id_bytes: Vec<u8> = Vec::new();
        push_u64(&mut id_bytes, pool_id);
        let seeds: Vec<&[u8]> = vec![
            program.pool_seed.as_slice(),
            config.bytes.as_slice(),
            id_bytes.as_slice(),
        ];
        proof {
            assert(id_bytes@ =~= le_bytes(pool_id as nat, 8));
            assert(seed_bytes(seeds@) =~= seq![
                program.pool_seed@,
                config@,
                le_bytes(pool_id as nat, 8),
            ]);
            assert(seed_bytes(seeds@)[0] == program.pool_seed@);
        }
        derive_key(&seeds, &program.id)
    }

    /// Derives the address of the share mint of `pool`.
    ///
    /// Whether there is one is what `try_derive_bpt_mint` finds out.
    pub fn derive_bpt_mint(program: &PoolProgram, pool: &Pubkey) -> (key: Pubkey)
        requires
            bpt_mint_address(*program, *pool) is Some,
        ensures
            Some(key) == bpt_mint_address(*program, *pool),
    {
        CubeAmm::try_derive_bpt_mint(program, pool).unwrap()
    }

    /// Derives the address of the share mint of `pool`, where there is one;
    /// there is none where the program's seed is longer than thirty-two bytes.
    pub fn try_derive_bpt_mint(program: &PoolProgram, pool: &Pubkey) -> (key: Option<Pubkey>)
        ensures
            key == bpt_mint_address(*program, *pool),
            program.bpt_mint_seed@.len() > 32 ==> key is None,
    {
        let seeds: Vec<&[u8]> = vec![program.bpt_mint_seed.as_slice(), pool.bytes.as_slice()];
        proof {
            assert(seed_bytes(seeds@) =~= seq![program.bpt_mint_seed@, pool@]);
            assert(seed_bytes(seeds@)[0] == program.bpt_mint_seed@);
        }
        derive_key(&seeds, &program.id)
    }

    /// Derives the address of the vault in which `pool` holds `mint`: its
    /// associated token account.
    ///
    /// Whether there is one is what `try_derive_vault` finds out.
    pub fn derive_vault(pool: &Pubkey, mint: &Pubkey, token_program: &Pubkey) -> (key: Pubkey)
        requires
            token_account(*pool, *mint, *token_program) is Some,
        ensures
            Some(key) == token_account(*pool, *mint, *token_program),
    {
        associated_token_address(pool, mint, token_program)
    }

    /// Derives the address of the vault in which `pool` holds `mint`, where
    /// there is one.
    pub fn try_derive_vault(pool: &Pubkey, mint: &Pubkey, token_program: &Pubkey) -> (key: Option<
        Pubkey,
    >)
        ensures
            key == token_account(*pool, *mint, *token_program),
    {
        if has_token_account(pool, mint, token_program) {
            Some(CubeAmm::derive_vault(pool, mint, token_program))
        } else {
            None
        }
    }

    /// Builds the instruction with which `user` swaps from and to their own
    /// associated token accounts.
    ///
    /// Whether its addresses exist is what `try_build_swap_instruction` finds
    /// out.
    pub fn build_swap_instruction(
        &self,
        user: Pubkey,
        amount_in: u64,
        minimum_amount_out: u64,
        token_in_index: u8,
        token_out_index: u8,
    ) -> (result: Result<Instruction, AmmError>)
        requires
            instruction_addresses_exist(self@, user, token_in_index, token_out_index),
        ensures
            is_swap_instruction(
                self@,
                user,
                amount_in,
                minimum_amount_out,
                token_in_index,
                token_out_index,
                result,
            ),
    {
        let tokens: &[TokenSlot] = self.state.active_tokens();
        if token_in_index as usize >= tokens.len() {
            return Err(AmmError::TokenInIndexOutOfBounds);
        }
        if token_out_index as usize >= tokens.len() {
            return Err(AmmError::TokenOutIndexOutOfBounds);
        }
        let in_slot = &tokens[token_in_index as usize];
        let out_slot = &tokens[token_out_index as usize];
        let accounts = SwapAccounts {
            program_id: self.program_id,
            pool: self.key,
            token_mint_in: in_slot.mint,
            token_mint_out: out_slot.mint,
            user_token_in: associated_token_address(&user, &in_slot.mint, &in_slot.token_program),
            user_token_out: associated_token_address(&user, &out_slot.mint, &out_slot.token_program),
            vault_in: CubeAmm::derive_vault(&self.key, &in_slot.mint, &in_slot.token_program),
            vault_out: CubeAmm::derive_vault(&self.key, &out_slot.mint, &out_slot.token_program),
            user,
            token_program_in: in_slot.token_program,
            token_program_out: out_slot.token_program,
        };
        Ok(
            Instruction {
                program_id: self.program_id,
                accounts: instruction_account_metas(&accounts),
                data: encode_swap_ix_data(
                    &self.discriminators.swap,
                    amount_in,
                    minimum_amount_out,
                    token_in_index,
                    token_out_index,
                ),
            },
        )
    }

    /// Builds the instruction of `build_swap_instruction` where all of its
    /// addresses exist; `None` where one does not.
    pub fn try_build_swap_instruction(
        &self,
        user: Pubkey,
        amount_in: u64,
        minimum_amount_out: u64,
        token_in_index: u8,
        token_out_index: u8,
    ) -> (outcome: Option<Result<Instruction, AmmError>>)
        ensures
            match outcome {
                Some(result) => {
                    &&& instruction_addresses_exist(self@, user, token_in_index, token_out_index)
                    &&& is_swap_instruction(
                        self@,
                        user,
                        amount_in,
                        minimum_amount_out,
                        token_in_index,
                        token_out_index,
                        result,
                    )
                },
                None => !instruction_addresses_exist(self@, user, token_in_index, token_out_index),
            },
    {
        let tokens: &[TokenSlot] = self.state.active_tokens();
        if (token_in_index as usize) < tokens.len() && (token_out_index as usize) < tokens.len() {
            let in_slot = &tokens[token_in_index as usize];
            let out_slot = &tokens[token_out_index as usize];
            if !has_token_account(&self.key, &in_slot.mint, &in_slot.token_program)
                || !has_token_account(&self.key, &out_slot.mint, &out_slot.token_program)
                || !has_token_account(&user, &in_slot.mint, &in_slot.token_program)
                || !has_token_account(&user, &out_slot.mint, &out_slot.token_program) {
                return None;
            }
        }
        Some(
            self.build_swap_instruction(
                user,
                amount_in,
                minimum_amount_out,
                token_in_index,
                token_out_index,
            ),
        )
    }

    /// Loads the connector from a pool account.
    pub fn from_keyed_account(
        keyed_account: &KeyedAccount,
        discriminators: &Discriminators,
    ) -> (result: Result<CubeAmm, AmmError>)
        ensures
            match result {
                Ok(amm) => loaded(keyed_account.key, keyed_account.account, *discriminators) == Ok::<
                    AmmModel,
                    AmmError,
                >(amm@),
                Err(error) => loaded(keyed_account.key, keyed_account.account, *discriminators)
                    == Err::<AmmModel, AmmError>(error),
            },
    {
        match PoolState::decode(keyed_account.account.data.as_slice(), &discriminators.pool) {
            Ok(state) => {
                let reserve_mints: Vec<Pubkey> = collect_mints(state.active_tokens());
                Ok(
                    CubeAmm {
                        key: keyed_account.key,
                        program_id: keyed_account.account.owner,
                        discriminators: *discriminators,
                        reserve_mints,
                        state,
                    },
                )
            },
            Err(error) => Err(error),
        }
    }

    /// The name of the venue.
    pub fn label(&self) -> (name: String)
        ensures
            name@ == "Cube"@,
    {
        "Cube".to_string()
    }

    /// The program that owns the pool.
    pub fn program_id(&self) -> (id: Pubkey)
        ensures
            id == self@.program_id,
    {
        self.program_id
    }

    /// The address of the pool.
    pub fn key(&self) -> (key: Pubkey)
        ensures
            key == self@.key,
    {
        self.key
    }

    /// The mints of the active tokens, in account order.
    pub fn get_reserve_mints(&self) -> (mints: Vec<Pubkey>)
        ensures
            mints@ == mints_of(self@.pool.tokens),
    {
        proof {
            use_type_invariant(self);
        }
        let mints: Vec<Pubkey> = self.reserve_mints.clone();
        proof {
            assert(mints@ =~= self.reserve_mints@);
        }
        mints
    }

    /// The accounts that `update` wants: the pool account alone, which carries
    /// the balances, the fees and the switches.
    pub fn get_accounts_to_update(&self) -> (keys: Vec<Pubkey>)
        ensures
            keys@ == seq![self@.key],
    {
        let keys: Vec<Pubkey> = vec![self.key];
        proof {
            assert(keys@ =~= seq![self@.key]);
        }
        keys
    }

    /// Takes the pool over from freshly fetched accounts. On an error nothing
    /// changes.
    pub fn update(&mut self, account_map: &AccountMap) -> (result: Result<(), AmmError>)
        ensures
            match updated(old(self)@, account_map@) {
                Ok(amm) => result == Ok::<(), AmmError>(()) && final(self)@ == amm,
                Err(error) => result == Err::<(), AmmError>(error) && final(self)@ == old(self)@,
            },
    {
        let account: &Account = match account_map.get(&self.key) {
            Some(account) => account,
            None => {
                return Err(AmmError::PoolAccountMissing);
            },
        };
        match PoolState::decode(account.data.as_slice(), &self.discriminators.pool) {
            Ok(state) => {
                let reserve_mints: Vec<Pubkey> = collect_mints(state.active_tokens());
                *self = CubeAmm {
                    key: self.key,
                    program_id: self.program_id,
                    discriminators: self.discriminators,
                    reserve_mints,
                    state,
                };
                Ok(())
            },
            Err(error) => Err(error),
        }
    }

    /// Prices `amount` of the token of `in_slot` in that of `out_slot` at the Unix
    /// time `now`: the sale must stay within the selloff cap, the swap fee is
    /// taken off, and the curve prices what is left.
    pub fn try_quote<F: Fn(SwapTerms) -> Option<u64>>(
        &self,
        in_slot: &TokenSlot,
        out_slot: &TokenSlot,
        lp_actual_out: u64,
        amount: u64,
        now: i64,
        curve: &F,
    ) -> (result: Result<u64, AmmError>)
        requires
            forall|terms: SwapTerms| curve.requires((terms,)),
        ensures
            answers(
                *curve,
                *in_slot,
                *out_slot,
                lp_actual_out,
                self@.pool.swap_fee_rate,
                now as int,
                amount,
                result,
            ),
            forall|model: spec_fn(SwapTerms) -> Option<u64>| #[trigger]
                agrees_with(*curve, model) ==> result == priced(
                    *in_slot,
                    *out_slot,
                    lp_actual_out,
                    self@.pool.swap_fee_rate,
                    now as int,
                    model,
                    amount,
                ),
    {
        if !within_selloff_cap(in_slot, now, amount) {
            return Err(AmmError::SelloffCapExceeded);
        }
        let rest: u64 = match apply_swap_fee(amount, self.state.swap_fee_rate) {
            Ok((_fee, rest)) => rest,
            Err(error) => {
                return Err(error);
            },
        };
        if rest == 0 {
            return Err(AmmError::NothingAfterFee);
        }
        let terms = SwapTerms {
            virtual_balance_in: in_slot.virtual_balance,
            weight_in: in_slot.normalized_weight,
            virtual_balance_out: out_slot.virtual_balance,
            weight_out: out_slot.normalized_weight,
            amount_in: rest,
            lp_actual_out,
        };
        match curve(terms) {
            Some(out) => Ok(out),
            None => Err(AmmError::CurveRefused),
        }
    }

    /// Quotes a swap at the Unix time `now`.
    ///
    /// Where the full amount has no price, a smaller one that has is looked for
    /// by bisection; `in_amount` then says how much can be sold.
    pub fn quote<F: Fn(SwapTerms) -> Option<u64>>(
        &self,
        request: &QuoteParams,
        now: i64,
        curve: &F,
    ) -> (result: Result<Quote, AmmError>)
        requires
            forall|terms: SwapTerms| curve.requires((terms,)),
        ensures
            request_places(self@.pool, *request) matches Err(error) ==> result == Err::<
                Quote,
                AmmError,
            >(error),
            request_places(self@.pool, *request) matches Ok((i, o)) ==> is_quote_from(
                *curve,
                self@.pool.tokens[i],
                self@.pool.tokens[o],
                self@.pool.swap_fee_rate,
                now as int,
                request.amount,
                result,
            ),
            forall|model: spec_fn(SwapTerms) -> Option<u64>| #[trigger]
                agrees_with(*curve, model) ==> result == quoted(
                    self@.pool,
                    *request,
                    now as int,
                    model,
                ),
    {
        if !self.state.pool_enabled || !self.state.swaps_enabled {
            return Err(AmmError::PoolDisabled);
        }
        if request.amount == 0 {
            return Err(AmmError::ZeroAmount);
        }
        let in_index: usize = match self.state.index_of_mint(&request.input_mint) {
            Some(index) => index,
            None => {
                return Err(AmmError::InputMintNotInPool);
            },
        };
        let out_index: usize = match self.state.index_of_mint(&request.output_mint) {
            Some(index) => index,
            None => {
                return Err(AmmError::OutputMintNotInPool);
            },
        };
        if in_index == out_index {
            return Err(AmmError::SameMint);
        }
        proof {
            law_mint_index(self@.pool.tokens, request.input_mint);
            law_mint_index(self@.pool.tokens, request.output_mint);
        }
        let in_slot: &TokenSlot = &self.state.tokens[in_index];
        let out_slot: &TokenSlot = &self.state.tokens[out_index];
        match self.quote_between(in_slot, out_slot, request.amount, now, curve) {
            Some(quote) => Ok(quote),
            None => Err(AmmError::NoViableQuote),
        }
    }

    /// The quote for `amount`, or for the amount below it that bisection finds.
    fn quote_between<F: Fn(SwapTerms) -> Option<u64>>(
        &self,
        in_slot: &TokenSlot,
        out_slot: &TokenSlot,
        amount: u64,
        now: i64,
        curve: &F,
    ) -> (found: Option<Quote>)
        requires
            amount > 0,
            forall|terms: SwapTerms| curve.requires((terms,)),
        ensures
            is_quote_from(
                *curve,
                *in_slot,
                *out_slot,
                self@.pool.swap_fee_rate,
                now as int,
                amount,
                match found {
                    Some(quote) => Ok(quote),
                    None => Err(AmmError::NoViableQuote),
                },
            ),
            forall|model: spec_fn(SwapTerms) -> Option<u64>| #[trigger]
                agrees_with(*curve, model) ==> found == best_quote(
                    price_list(*in_slot, *out_slot, self@.pool.swap_fee_rate, now as int, model),
                    amount,
                ),
    {
        let ghost rate = self@.pool.swap_fee_rate;
        let lp_actual_out: u64 = out_slot.lp_accessible_balance();
        let full = self.try_quote(in_slot, out_slot, lp_actual_out, amount, now, curve);
        if let Ok(out_amount) = full {
            return Some(Quote { in_amount: amount, out_amount });
        }
        let mut lo: u64 = 0;
        let mut hi: u64 = amount;
        let mut best: Option<Quote> = None;
        let mut round: u32 = 0;
        proof {
            lemma2_to64();
        }
        // Every round halves the gap, so sixty-four rounds close any gap.
        while round < 64 && hi > lo + 1
            invariant
                round <= 64,
                lo < hi <= amount,
                hi - lo <= pow2((64 - round) as nat),
                rate == self@.pool.swap_fee_rate,
                lp_actual_out == lp_accessible(*out_slot),
                forall|terms: SwapTerms| curve.requires((terms,)),
                may_refuse(*curve, *in_slot, *out_slot, rate, now as int, amount),
                may_refuse(*curve, *in_slot, *out_slot, rate, now as int, hi),
                match best {
                    Some(quote) => quote.in_amount == lo && answers(
                        *curve,
                        *in_slot,
                        *out_slot,
                        lp_actual_out,
                        rate,
                        now as int,
                        lo,
                        Ok::<u64, AmmError>(quote.out_amount),
                    ),
                    None => lo == 0,
                },
                forall|model: spec_fn(SwapTerms) -> Option<u64>| #[trigger]
                    agrees_with(*curve, model) ==> {
                        let price = price_list(*in_slot, *out_slot, rate, now as int, model);
                        best_quote(price, amount) == bisect(price, lo, hi, best)
                    },
            decreases 64 - round,
        {
            let mid: u64 = lo + (hi - lo) / 2;
            proof {
                lemma_pow2_unfold((64 - round) as nat);
            }
            match self.try_quote(in_slot, out_slot, lp_actual_out, mid, now, curve) {
                Ok(out_amount) => {
                    best = Some(Quote { in_amount: mid, out_amount });
                    lo = mid;
                },
                Err(_) => {
                    hi = mid;
                },
            }
            round = round + 1;
        }
        best
    }

    /// The accounts with which a routed swap is made.
    ///
    /// Whether the vaults have addresses is what
    /// `try_get_swap_and_account_metas` finds out.
    pub fn get_swap_and_account_metas(&self, request: &SwapParams) -> (result: Result<
        SwapAndAccountMetas,
        AmmError,
    >)
        requires
            vault_addresses_exist(self@, *request),
        ensures
            is_swap_answer(self@, *request, result),
    {
        let in_index: usize = match self.state.index_of_mint(&request.source_mint) {
            Some(index) => index,
            None => {
                return Err(AmmError::SourceMintNotInPool);
            },
        };
        let out_index: usize = match self.state.index_of_mint(&request.destination_mint) {
            Some(index) => index,
            None => {
                return Err(AmmError::DestinationMintNotInPool);
            },
        };
        proof {
            law_mint_index(self@.pool.tokens, request.source_mint);
            law_mint_index(self@.pool.tokens, request.destination_mint);
        }
        let in_slot: &TokenSlot = &self.state.tokens[in_index];
        let out_slot: &TokenSlot = &self.state.tokens[out_index];
        let accounts = SwapAccounts {
            program_id: self.program_id,
            pool: self.key,
            token_mint_in: in_slot.mint,
            token_mint_out: out_slot.mint,
            user_token_in: request.source_token_account,
            user_token_out: request.destination_token_account,
            vault_in: CubeAmm::derive_vault(&self.key, &in_slot.mint, &in_slot.token_program),
            vault_out: CubeAmm::derive_vault(&self.key, &out_slot.mint, &out_slot.token_program),
            user: request.token_transfer_authority,
            token_program_in: in_slot.token_program,
            token_program_out: out_slot.token_program,
        };
        Ok(
            SwapAndAccountMetas {
                swap: Swap::Placeholder,
                account_metas: build_swap_account_metas(&accounts),
            },
        )
    }

    /// The accounts of `get_swap_and_account_metas` where the vaults have
    /// addresses; `None` where one has not.
    pub fn try_get_swap_and_account_metas(&self, request: &SwapParams) -> (outcome: Option<
        Result<SwapAndAccountMetas, AmmError>,
    >)
        ensures
            match outcome {
                Some(result) => vault_addresses_exist(self@, *request) && is_swap_answer(
                    self@,
                    *request,
                    result,
                ),
                None => !vault_addresses_exist(self@, *request),
            },
    {
        let in_index: Option<usize> = self.state.index_of_mint(&request.source_mint);
        let out_index: Option<usize> = self.state.index_of_mint(&request.destination_mint);
        proof {
            law_mint_index(self@.pool.tokens, request.source_mint);
            law_mint_index(self@.pool.tokens, request.destination_mint);
        }
        if let (Some(i), Some(o)) = (in_index, out_index) {
            let in_slot: &TokenSlot = &self.state.tokens[i];
            let out_slot: &TokenSlot = &self.state.tokens[o];
            if !has_token_account(&self.key, &in_slot.mint, &in_slot.token_program)
                || !has_token_account(&self.key, &out_slot.mint, &out_slot.token_program) {
                return None;
            }
        }
        Some(self.get_swap_and_account_metas(request))
    }

    /// How many accounts a routed swap takes.
    pub fn get_accounts_len(&self) -> (count: usize)
        ensures
            count == SWAP_ACCOUNTS_LEN,
            count == 11,
    {
        SWAP_ACCOUNTS_LEN
    }

    /// Whether the pool trades at all: it is enabled, its swaps are, and some
    /// token of it can be paid out.
    pub fn is_active(&self) -> (active: bool)
        ensures
            active == tradable(self@.pool),
    {
        if !self.state.pool_enabled || !self.state.swaps_enabled {
            return false;
        }
        let tokens: &[TokenSlot] = self.state.active_tokens();
        let mut i: usize = 0;
        while i < tokens.len()
            invariant
                i <= tokens@.len(),
                tokens@ == self@.pool.tokens,
                self@.pool.pool_enabled && self@.pool.swaps_enabled,
                forall|j: int| 0 <= j < i ==> lp_accessible(#[trigger] tokens@[j]) == 0,
            decreases tokens@.len() - i,
        {
            if tokens[i].lp_accessible_balance() > 0 {
                proof {
                    assert(lp_accessible(self@.pool.tokens[i as int]) > 0);
                }
                return true;
            }
            i = i + 1;
        }
        false
    }

    /// Liquidity that the pool shares with others: it shares none.
    pub fn underlying_liquidities(&self) -> (liquidities: Option<Vec<Pubkey>>)
        ensures
            liquidities is None,
    {
        None
    }

    /// The programs that a swap runs, with their names.
    pub fn program_dependencies(&self) -> (programs: Vec<(Pubkey, String)>)
        ensures
            programs@.len() == 1,
            programs@[0].0 == self@.program_id,
            programs@[0].1@ == "cubic_pool"@,
    {
        vec![(self.program_id, "cubic_pool".to_string())]
    }
}

} // verus!
