//! Pool accounts and how they are laid out in bytes.
//!
//! A v4 pool account holds, after an eight-byte tag:
//!
//! | offset | bytes | content                |
//! |-------:|------:|------------------------|
//! |      8 |    32 | config address         |
//! |     40 |     1 | bump seed              |
//! |     41 |     1 | number of active slots |
//! |     42 |     8 | pool id                |
//! |     50 |     4 | swap fee rate          |
//! |     54 |     2 | protocol fee rate      |
//! |     64 |     1 | pool enabled           |
//! |     65 |     1 | swaps enabled          |
//! |    179 |   144 | first token slot       |
//!
//! and a token slot holds
//!
//! | offset | bytes | content                       |
//! |-------:|------:|-------------------------------|
//! |      0 |    32 | mint                          |
//! |     32 |    32 | token program                 |
//! |     64 |     8 | normalized weight             |
//! |     72 |     8 | selloff cap                   |
//! |     80 |     4 | length of the selloff window  |
//! |     88 |     8 | virtual balance               |
//! |     96 |     8 | actual balance                |
//! |    104 |     8 | protocol fees owed            |
//! |    112 |     8 | sold in the previous window   |
//! |    120 |     8 | sold in the current window    |
//! |    128 |     8 | start of the current window   |
//!
//! Numbers are little-endian.

use crate::bytes::{
    field, law_digits_add_up, le_value, read_i64, read_pubkey, read_u16, read_u32, read_u64,
    signed_value,
};
use crate::constants::{MAX_TOKENS, POOL_V4_LEN, SLOT_SIZE, TOKEN_BASE};
use crate::error::AmmError;
use crate::pubkey::{law_thirty_two_bytes_are_an_address, pubkey_of, Pubkey};
use vstd::prelude::*;

verus! {

/// One token of a pool.
#[derive(Clone, Copy, Debug)]
pub struct TokenSlot {
    pub mint: Pubkey,
    /// The token program that owns the mint.
    pub token_program: Pubkey,
    pub normalized_weight: u64,
    /// How much of this token may be sold into the pool per window; zero
    /// means any amount.
    pub max_selloff: u64,
    /// Length of a selloff window, in seconds.
    pub max_selloff_period_length: u32,
    /// The balance that the curve works with.
    pub virtual_balance: u64,
    /// The balance that the vault holds.
    pub actual_balance: u64,
    /// The part of the actual balance that belongs to the protocol.
    pub protocol_fees_owed: u64,
    pub previous_selloff: u64,
    pub current_selloff: u64,
    pub window_start_timestamp: i64,
}

/// A decoded pool account.
pub struct PoolState {
    pub config: Pubkey,
    pub bump: u8,
    pub pool_id: u64,
    pub swap_fee_rate: u32,
    /// The treasury's share of the swap fee.
    pub protocol_fee_rate: u16,
    pub pool_enabled: bool,
    pub swaps_enabled: bool,
    /// The active slots, in account order.
    pub tokens: Vec<TokenSlot>,
}

/// What a `PoolState` says.
pub struct PoolModel {
    pub config: Pubkey,
    pub bump: u8,
    pub pool_id: u64,
    pub swap_fee_rate: u32,
    pub protocol_fee_rate: u16,
    pub pool_enabled: bool,
    pub swaps_enabled: bool,
    pub tokens: Seq<TokenSlot>,
}

impl View for PoolState {
    type V = PoolModel;

    open spec fn view(&self) -> PoolModel {
        PoolModel {
            config: self.config,
            bump: self.bump,
            pool_id: self.pool_id,
            swap_fee_rate: self.swap_fee_rate,
            protocol_fee_rate: self.protocol_fee_rate,
            pool_enabled: self.pool_enabled,
            swaps_enabled: self.swaps_enabled,
            tokens: self.tokens@,
        }
    }
}

/// The `u64` that `data` holds at `offset`.
pub open spec fn u64_at(data: Seq<u8>, offset: int) -> u64 {
    le_value(field(data, offset, 8)) as u64
}

/// The address that `data` holds at `offset`.
pub open spec fn pubkey_at(data: Seq<u8>, offset: int) -> Pubkey {
    pubkey_of(field(data, offset, 32))
}

/// The token slot that `data` holds at `offset`.
pub open spec fn slot_at(data: Seq<u8>, offset: int) -> TokenSlot {
    TokenSlot {
        mint: pubkey_at(data, offset),
        token_program: pubkey_at(data, offset + 32),
        normalized_weight: u64_at(data, offset + 64),
        max_selloff: u64_at(data, offset + 72),
        max_selloff_period_length: le_value(field(data, offset + 80, 4)) as u32,
        virtual_balance: u64_at(data, offset + 88),
        actual_balance: u64_at(data, offset + 96),
        protocol_fees_owed: u64_at(data, offset + 104),
        previous_selloff: u64_at(data, offset + 112),
        current_selloff: u64_at(data, offset + 120),
        window_start_timestamp: signed_value(le_value(field(data, offset + 128, 8))) as i64,
    }
}

/// The pool that an account with these bytes holds.
pub open spec fn pool_at(data: Seq<u8>) -> PoolModel {
    PoolModel {
        config: pubkey_at(data, 8),
        bump: data[40],
        pool_id: u64_at(data, 42),
        swap_fee_rate: le_value(field(data, 50, 4)) as u32,
        protocol_fee_rate: le_value(field(data, 54, 2)) as u16,
        pool_enabled: data[64] != 0,
        swaps_enabled: data[65] != 0,
        tokens: Seq::new(data[41] as nat, |i: int| slot_at(data, TOKEN_BASE + i * SLOT_SIZE)),
    }
}

/// Why `data` is no v4 pool account with the tag `discriminator`; `None` where
/// it is one.
pub open spec fn decode_refusal(data: Seq<u8>, discriminator: Seq<u8>) -> Option<AmmError> {
    if data.len() != POOL_V4_LEN {
        Some(AmmError::UnsupportedLayout)
    } else if field(data, 0, 8) != discriminator {
        Some(AmmError::WrongDiscriminator)
    } else if data[41] > MAX_TOKENS {
        Some(AmmError::TooManyTokens)
    } else {
        None
    }
}

/// The decoded account, or why there is none.
pub open spec fn decoded(data: Seq<u8>, discriminator: Seq<u8>) -> Result<PoolModel, AmmError> {
    match decode_refusal(data, discriminator) {
        Some(error) => Err(error),
        None => Ok(pool_at(data)),
    }
}

/// The part of the vault that traders can be paid from: what it holds less
/// what the protocol is owed, and nothing where more is owed than held.
pub open spec fn lp_accessible(slot: TokenSlot) -> u64 {
    if slot.actual_balance >= slot.protocol_fees_owed {
        (slot.actual_balance - slot.protocol_fees_owed) as u64
    } else {
        0
    }
}

/// The slot at `i` is the first with this mint.
pub open spec fn is_first_with_mint(tokens: Seq<TokenSlot>, mint: Pubkey, i: int) -> bool {
    &&& 0 <= i < tokens.len()
    &&& tokens[i].mint == mint
    &&& forall|j: int| 0 <= j < i ==> tokens[j].mint != mint
}

/// Where a mint stands among the slots: the first place, where there are
/// several.
pub open spec fn mint_index(tokens: Seq<TokenSlot>, mint: Pubkey) -> Option<int> {
    if exists|i: int| is_first_with_mint(tokens, mint, i) {
        Some(choose|i: int| is_first_with_mint(tokens, mint, i))
    } else {
        None
    }
}

proof fn lemma_mint_index_is(tokens: Seq<TokenSlot>, mint: Pubkey, i: int)
    requires
        is_first_with_mint(tokens, mint, i),
    ensures
        mint_index(tokens, mint) == Some(i),
{
    let chosen = choose|k: int| is_first_with_mint(tokens, mint, k);
    assert(is_first_with_mint(tokens, mint, chosen));
}

proof fn lemma_first_exists(tokens: Seq<TokenSlot>, mint: Pubkey, i: int)
    requires
        0 <= i < tokens.len(),
        tokens[i].mint == mint,
    ensures
        exists|k: int| is_first_with_mint(tokens, mint, k),
    decreases i,
{
    if forall|j: int| 0 <= j < i ==> tokens[j].mint != mint {
        assert(is_first_with_mint(tokens, mint, i));
    } else {
        let j = choose|j: int| 0 <= j < i && tokens[j].mint == mint;
        lemma_first_exists(tokens, mint, j);
    }
}

/// A mint is found exactly when some slot has it, and what is found is the first
/// place that has it.
pub proof fn law_mint_index(tokens: Seq<TokenSlot>, mint: Pubkey)
    ensures
        mint_index(tokens, mint) matches Some(i) ==> {
            &&& 0 <= i < tokens.len()
            &&& tokens[i].mint == mint
            &&& forall|j: int| 0 <= j < i ==> tokens[j].mint != mint
        },
        mint_index(tokens, mint) is None ==> forall|j: int|
            0 <= j < tokens.len() ==> tokens[j].mint != mint,
        mint_index(tokens, mint) is Some <==> exists|i: int|
            0 <= i < tokens.len() && #[trigger] tokens[i].mint == mint,
        mint_index(tokens, mint) matches Some(i) ==> is_first_with_mint(tokens, mint, i),
{
    if exists|i: int| 0 <= i < tokens.len() && #[trigger] tokens[i].mint == mint {
        let i = choose|i: int| 0 <= i < tokens.len() && #[trigger] tokens[i].mint == mint;
        lemma_first_exists(tokens, mint, i);
    }
    if exists|i: int| is_first_with_mint(tokens, mint, i) {
        let chosen = choose|k: int| is_first_with_mint(tokens, mint, k);
        assert(tokens[chosen].mint == mint);
    }
}

/// The place that has a mint while no earlier one has is where it is found.
pub proof fn law_first_place_is_found(tokens: Seq<TokenSlot>, mint: Pubkey, place: int)
    requires
        0 <= place < tokens.len(),
        tokens[place].mint == mint,
        forall|j: int| 0 <= j < place ==> tokens[j].mint != mint,
    ensures
        mint_index(tokens, mint) == Some(place),
{
    assert(is_first_with_mint(tokens, mint, place));
    lemma_mint_index_is(tokens, mint, place);
}

/// What traders can be paid and what the protocol is owed make up what the vault
/// holds; where more is owed than held, traders can be paid nothing.
pub proof fn law_accessible_and_owed_make_up_the_vault(slot: TokenSlot)
    ensures
        slot.protocol_fees_owed <= slot.actual_balance ==> lp_accessible(slot)
            + slot.protocol_fees_owed == slot.actual_balance,
        slot.protocol_fees_owed > slot.actual_balance ==> lp_accessible(slot) == 0,
{
}

/// A decoded pool says what its fields say.
pub proof fn law_pool_says_its_fields(state: PoolState)
    ensures
        state@.config == state.config,
        state@.bump == state.bump,
        state@.pool_id == state.pool_id,
        state@.swap_fee_rate == state.swap_fee_rate,
        state@.protocol_fee_rate == state.protocol_fee_rate,
        state@.pool_enabled == state.pool_enabled,
        state@.swaps_enabled == state.swaps_enabled,
        state@.tokens == state.tokens@,
{
}

/// An account is refused exactly for its length, then for its tag, then for the
/// number of its tokens; any other one is decoded.
pub proof fn law_decoding_refuses(data: Seq<u8>, discriminator: Seq<u8>)
    ensures
        decoded(data, discriminator) == Err::<PoolModel, AmmError>(AmmError::UnsupportedLayout)
            <==> data.len() != 1683,
        decoded(data, discriminator) == Err::<PoolModel, AmmError>(AmmError::WrongDiscriminator)
            <==> data.len() == 1683 && data.subrange(0, 8) != discriminator,
        decoded(data, discriminator) == Err::<PoolModel, AmmError>(AmmError::TooManyTokens) <==> {
            &&& data.len() == 1683
            &&& data.subrange(0, 8) == discriminator
            &&& data[41] > 10
        },
        decoded(data, discriminator) is Ok <==> {
            &&& data.len() == 1683
            &&& data.subrange(0, 8) == discriminator
            &&& data[41] <= 10
        },
{
}

/// The fields of a decoded pool are spelled by the bytes at their places.
pub proof fn law_decoding_reads_the_pool(data: Seq<u8>, discriminator: Seq<u8>, pool: PoolModel)
    requires
        decoded(data, discriminator) == Ok::<PoolModel, AmmError>(pool),
    ensures
        pool.config@ == data.subrange(8, 40),
        pool.bump == data[40],
        pool.tokens.len() == data[41],
        pool.pool_id == le_value(data.subrange(42, 50)),
        pool.swap_fee_rate == le_value(data.subrange(50, 54)),
        pool.protocol_fee_rate == le_value(data.subrange(54, 56)),
        pool.pool_enabled <==> data[64] != 0,
        pool.swaps_enabled <==> data[65] != 0,
{
    law_thirty_two_bytes_are_an_address(data.subrange(8, 40));
    lemma_u64_at(data, 42);
    law_digits_add_up(data.subrange(50, 54));
    law_digits_add_up(data.subrange(54, 56));
}

/// The fields of the slot at `place` of a decoded pool are spelled by the bytes
/// at their places.
pub proof fn law_decoding_reads_the_slots(
    data: Seq<u8>,
    discriminator: Seq<u8>,
    pool: PoolModel,
    place: int,
)
    requires
        decoded(data, discriminator) == Ok::<PoolModel, AmmError>(pool),
        0 <= place < pool.tokens.len(),
    ensures
        ({
            let slot = pool.tokens[place];
            let at = 179 + 144 * place;
            let started = le_value(data.subrange(at + 128, at + 136));
            &&& slot.mint@ == data.subrange(at, at + 32)
            &&& slot.token_program@ == data.subrange(at + 32, at + 64)
            &&& slot.normalized_weight == le_value(data.subrange(at + 64, at + 72))
            &&& slot.max_selloff == le_value(data.subrange(at + 72, at + 80))
            &&& slot.max_selloff_period_length == le_value(data.subrange(at + 80, at + 84))
            &&& slot.virtual_balance == le_value(data.subrange(at + 88, at + 96))
            &&& slot.actual_balance == le_value(data.subrange(at + 96, at + 104))
            &&& slot.protocol_fees_owed == le_value(data.subrange(at + 104, at + 112))
            &&& slot.previous_selloff == le_value(data.subrange(at + 112, at + 120))
            &&& slot.current_selloff == le_value(data.subrange(at + 120, at + 128))
            &&& started < 0x8000_0000_0000_0000 ==> slot.window_start_timestamp == started
            &&& started >= 0x8000_0000_0000_0000 ==> slot.window_start_timestamp == started
                - 0x1_0000_0000_0000_0000
        }),
{
    let at = 179 + 144 * place;
    assert(pool.tokens[place] == slot_at(data, TOKEN_BASE + place * SLOT_SIZE));
    assert(TOKEN_BASE + place * SLOT_SIZE == at);
    law_thirty_two_bytes_are_an_address(data.subrange(at, at + 32));
    law_thirty_two_bytes_are_an_address(data.subrange(at + 32, at + 64));
    law_digits_add_up(data.subrange(at + 80, at + 84));
    lemma_u64_at(data, at + 64);
    lemma_u64_at(data, at + 72);
    lemma_u64_at(data, at + 88);
    lemma_u64_at(data, at + 96);
    lemma_u64_at(data, at + 104);
    lemma_u64_at(data, at + 112);
    lemma_u64_at(data, at + 120);
    lemma_u64_at(data, at + 128);
}

proof fn lemma_u64_at(data: Seq<u8>, offset: int)
    requires
        0 <= offset,
        offset + 8 <= data.len(),
    ensures
        u64_at(data, offset) == le_value(data.subrange(offset, offset + 8)),
        le_value(data.subrange(offset, offset + 8)) <= u64::MAX,
{
    law_digits_add_up(data.subrange(offset, offset + 8));
}

impl TokenSlot {
    /// Reads the slot at `offset`.
    fn read(data: &[u8], offset: usize) -> (slot: TokenSlot)
        requires
            offset + SLOT_SIZE <= data.len(),
        ensures
            slot == slot_at(data@, offset as int),
    {
        TokenSlot {
            mint: read_pubkey(data, offset),
            token_program: read_pubkey(data, offset + 32),
            normalized_weight: read_u64(data, offset + 64),
            max_selloff: read_u64(data, offset + 72),
            max_selloff_period_length: read_u32(data, offset + 80),
            virtual_balance: read_u64(data, offset + 88),
            actual_balance: read_u64(data, offset + 96),
            protocol_fees_owed: read_u64(data, offset + 104),
            previous_selloff: read_u64(data, offset + 112),
            current_selloff: read_u64(data, offset + 120),
            window_start_timestamp: read_i64(data, offset + 128),
        }
    }

    /// What traders can be paid of this token.
    pub fn lp_accessible_balance(&self) -> (balance: u64)
        ensures
            balance == lp_accessible(*self),
    {
        self.actual_balance.saturating_sub(self.protocol_fees_owed)
    }
}

impl Clone for PoolState {
    fn clone(&self) -> (copy: Self)
        ensures
            copy@ == self@,
    {
        let tokens: Vec<TokenSlot> = self.tokens.clone();
        proof {
            assert(tokens@ =~= self.tokens@);
        }
        PoolState {
            config: self.config,
            bump: self.bump,
            pool_id: self.pool_id,
            swap_fee_rate: self.swap_fee_rate,
            protocol_fee_rate: self.protocol_fee_rate,
            pool_enabled: self.pool_enabled,
            swaps_enabled: self.swaps_enabled,
            tokens,
        }
    }
}

impl PoolState {
    /// Decodes a v4 pool account whose first eight bytes are `discriminator`.
    ///
    /// An account of any other length is refused, one in the shorter v3 layout
    /// among them; then one with another tag; then one that claims more tokens
    /// than there is room for.
    pub fn decode(data: &[u8], discriminator: &[u8; 8]) -> (result: Result<PoolState, AmmError>)
        ensures
            match result {
                Ok(state) => decoded(data@, discriminator@) == Ok::<PoolModel, AmmError>(state@),
                Err(error) => decoded(data@, discriminator@) == Err::<PoolModel, AmmError>(error),
            },
    {
        if data.len() != POOL_V4_LEN {
            return Err(AmmError::UnsupportedLayout);
        }
        let mut i: usize = 0;
        while i < 8
            invariant
                i <= 8,
                data.len() == POOL_V4_LEN,
                forall|j: int| 0 <= j < i ==> data@[j] == discriminator@[j],
            decreases 8 - i,
        {
            if data[i] != discriminator[i] {
                proof {
                    assert(field(data@, 0, 8)[i as int] == data@[i as int]);
                }
                return Err(AmmError::WrongDiscriminator);
            }
            i = i + 1;
        }
        proof {
            assert(field(data@, 0, 8) =~= discriminator@);
        }
        let count: usize = data[41] as usize;
        if count > MAX_TOKENS {
            return Err(AmmError::TooManyTokens);
        }
        let mut tokens: Vec<TokenSlot> = Vec::new();
        let mut next: usize = 0;
        while next < count
            invariant
                next <= count <= MAX_TOKENS,
                data.len() == POOL_V4_LEN,
                tokens@ == Seq::new(
                    next as nat,
                    |k: int| slot_at(data@, TOKEN_BASE + k * SLOT_SIZE),
                ),
            decreases count - next,
        {
            tokens.push(TokenSlot::read(data, TOKEN_BASE + next * SLOT_SIZE));
            next = next + 1;
            proof {
                assert(tokens@ =~= Seq::new(
                    next as nat,
                    |k: int| slot_at(data@, TOKEN_BASE + k * SLOT_SIZE),
                ));
            }
        }
        Ok(
            PoolState {
                config: read_pubkey(data, 8),
                bump: data[40],
                pool_id: read_u64(data, 42),
                swap_fee_rate: read_u32(data, 50),
                protocol_fee_rate: read_u16(data, 54),
                pool_enabled: data[64] != 0,
                swaps_enabled: data[65] != 0,
                tokens,
            },
        )
    }

    /// The slots in use.
    pub fn active_tokens(&self) -> (tokens: &[TokenSlot])
        ensures
            tokens@ == self@.tokens,
    {
        self.tokens.as_slice()
    }

    /// Where a mint stands among the slots in use.
    pub fn index_of_mint(&self, mint: &Pubkey) -> (index: Option<usize>)
        ensures
            match index {
                Some(i) => mint_index(self@.tokens, *mint) == Some(i as int),
                None => mint_index(self@.tokens, *mint) is None,
            },
    {
        let mut i: usize = 0;
        while i < self.tokens.len()
            invariant
                i <= self.tokens@.len(),
                forall|j: int| 0 <= j < i ==> self.tokens@[j].mint != *mint,
            decreases self.tokens@.len() - i,
        {
            if self.tokens[i].mint == *mint {
                proof {
                    lemma_mint_index_is(self.tokens@, *mint, i as int);
                }
                return Some(i);
            }
            i = i + 1;
        }
        None
    }
}

} // verus!
