//! The swap instruction: its accounts and its data.

use crate::bytes::{law_u64_round_trip, le_bytes, le_value, push_u64};
use crate::constants::SWAP_ACCOUNTS_LEN;
use crate::pubkey::Pubkey;
use vstd::prelude::*;

verus! {

/// An account as an instruction lists it.
#[derive(Clone, Copy, Debug, PartialEq, Eq)]
pub struct AccountMeta {
    pub pubkey: Pubkey,
    pub is_signer: bool,
    pub is_writable: bool,
}

/// An instruction for a program.
pub struct Instruction {
    pub program_id: Pubkey,
    pub accounts: Vec<AccountMeta>,
    pub data: Vec<u8>,
}

/// The accounts of a swap.
#[derive(Clone, Copy, Debug)]
pub struct SwapAccounts {
    pub program_id: Pubkey,
    pub pool: Pubkey,
    pub token_mint_in: Pubkey,
    pub token_mint_out: Pubkey,
    pub user_token_in: Pubkey,
    pub user_token_out: Pubkey,
    pub vault_in: Pubkey,
    pub vault_out: Pubkey,
    pub user: Pubkey,
    pub token_program_in: Pubkey,
    pub token_program_out: Pubkey,
}

pub open spec fn read_only(pubkey: Pubkey) -> AccountMeta {
    AccountMeta { pubkey, is_signer: false, is_writable: false }
}

pub open spec fn writable(pubkey: Pubkey) -> AccountMeta {
    AccountMeta { pubkey, is_signer: false, is_writable: true }
}

/// The accounts that a swap is routed with, the program itself first.
pub open spec fn swap_metas(accounts: SwapAccounts) -> Seq<AccountMeta> {
    seq![
        read_only(accounts.program_id),
        writable(accounts.pool),
        read_only(accounts.token_mint_in),
        read_only(accounts.token_mint_out),
        writable(accounts.user_token_in),
        writable(accounts.user_token_out),
        writable(accounts.vault_in),
        writable(accounts.vault_out),
        AccountMeta { pubkey: accounts.user, is_signer: true, is_writable: true },
        read_only(accounts.token_program_in),
        read_only(accounts.token_program_out),
    ]
}

/// The data of a swap instruction: the tag, the amount paid in, the least
/// acceptable amount out, and the places of the two tokens.
pub open spec fn swap_data(
    discriminator: Seq<u8>,
    amount_in: u64,
    minimum_amount_out: u64,
    token_in_index: u8,
    token_out_index: u8,
) -> Seq<u8> {
    discriminator + le_bytes(amount_in as nat, 8) + le_bytes(minimum_amount_out as nat, 8)
        + seq![token_in_index, token_out_index]
}

impl AccountMeta {
    /// An account that the instruction only reads.
    fn readable(pubkey: Pubkey) -> (meta: AccountMeta)
        ensures
            meta == read_only(pubkey),
    {
        AccountMeta { pubkey, is_signer: false, is_writable: false }
    }

    /// An account that the instruction changes.
    fn changeable(pubkey: Pubkey) -> (meta: AccountMeta)
        ensures
            meta == writable(pubkey),
    {
        AccountMeta { pubkey, is_signer: false, is_writable: true }
    }
}

/// Lists the accounts of a swap, the program itself first.
pub fn build_swap_account_metas(accounts: &SwapAccounts) -> (metas: Vec<AccountMeta>)
    ensures
        metas@ == swap_metas(*accounts),
{
    let metas: Vec<AccountMeta> = vec![
        AccountMeta::readable(accounts.program_id),
        AccountMeta::changeable(accounts.pool),
        AccountMeta::readable(accounts.token_mint_in),
        AccountMeta::readable(accounts.token_mint_out),
        AccountMeta::changeable(accounts.user_token_in),
        AccountMeta::changeable(accounts.user_token_out),
        AccountMeta::changeable(accounts.vault_in),
        AccountMeta::changeable(accounts.vault_out),
        AccountMeta { pubkey: accounts.user, is_signer: true, is_writable: true },
        AccountMeta::readable(accounts.token_program_in),
        AccountMeta::readable(accounts.token_program_out),
    ];
    proof {
        assert(metas@ =~= swap_metas(*accounts));
    }
    metas
}

/// Lists the accounts that a swap instruction carries: those of
/// `build_swap_account_metas` without the program, which an instruction names
/// apart.
pub fn instruction_account_metas(accounts: &SwapAccounts) -> (metas: Vec<AccountMeta>)
    ensures
        metas@ == swap_metas(*accounts).skip(1),
{
    let mut metas: Vec<AccountMeta> = build_swap_account_metas(accounts);
    let _program: AccountMeta = metas.remove(0);
    proof {
        assert(metas@ =~= swap_metas(*accounts).skip(1));
    }
    metas
}

/// Writes the data of a swap instruction.
pub fn encode_swap_ix_data(
    discriminator: &[u8; 8],
    amount_in: u64,
    minimum_amount_out: u64,
    token_in_index: u8,
    token_out_index: u8,
) -> (data: Vec<u8>)
    ensures
        data@ == swap_data(
            discriminator@,
            amount_in,
            minimum_amount_out,
            token_in_index,
            token_out_index,
        ),
{
    let mut data: Vec<u8> = Vec::new();
    let mut i: usize = 0;
    while i < 8
        invariant
            i <= 8,
            data@ == discriminator@.take(i as int),
        decreases 8 - i,
    {
        data.push(discriminator[i]);
        i = i + 1;
        proof {
            assert(data@ =~= discriminator@.take(i as int));
        }
    }
    proof {
        assert(data@ =~= discriminator@);
    }
    push_u64(&mut data, amount_in);
    push_u64(&mut data, minimum_amount_out);
    data.push(token_in_index);
    data.push(token_out_index);
    proof {
        assert(data@ =~= swap_data(
            discriminator@,
            amount_in,
            minimum_amount_out,
            token_in_index,
            token_out_index,
        ));
    }
    data
}

/// A swap is routed with eleven accounts, of which the user alone signs.
pub proof fn law_only_the_user_signs(accounts: SwapAccounts)
    ensures
        swap_metas(accounts).len() == SWAP_ACCOUNTS_LEN,
        forall|i: int|
            0 <= i < SWAP_ACCOUNTS_LEN ==> (#[trigger] swap_metas(accounts)[i].is_signer <==> i == 8),
        swap_metas(accounts)[8].pubkey == accounts.user,
{
}

/// The accounts of a swap are listed in this order, and the swap changes the
/// pool, the four token accounts and the user, and no other of them.
pub proof fn law_route_lists_the_accounts(accounts: SwapAccounts)
    ensures
        ({
            let metas = swap_metas(accounts);
            &&& metas.len() == 11
            &&& metas[0].pubkey == accounts.program_id
            &&& metas[1].pubkey == accounts.pool
            &&& metas[2].pubkey == accounts.token_mint_in
            &&& metas[3].pubkey == accounts.token_mint_out
            &&& metas[4].pubkey == accounts.user_token_in
            &&& metas[5].pubkey == accounts.user_token_out
            &&& metas[6].pubkey == accounts.vault_in
            &&& metas[7].pubkey == accounts.vault_out
            &&& metas[8].pubkey == accounts.user
            &&& metas[9].pubkey == accounts.token_program_in
            &&& metas[10].pubkey == accounts.token_program_out
            &&& forall|i: int|
                0 <= i < 11 ==> (#[trigger] metas[i].is_writable <==> i == 1 || 4 <= i <= 8)
            &&& forall|i: int| 0 <= i < 11 ==> (#[trigger] metas[i].is_signer <==> i == 8)
        }),
{
}

/// The data of a swap instruction is twenty-six bytes long, and everything that
/// went into it can be read back.
pub proof fn law_swap_data_reads_back(
    discriminator: Seq<u8>,
    amount_in: u64,
    minimum_amount_out: u64,
    token_in_index: u8,
    token_out_index: u8,
)
    requires
        discriminator.len() == 8,
    ensures
        ({
            let data = swap_data(
                discriminator,
                amount_in,
                minimum_amount_out,
                token_in_index,
                token_out_index,
            );
            &&& data.len() == 26
            &&& data.subrange(0, 8) == discriminator
            &&& le_value(data.subrange(8, 16)) == amount_in
            &&& le_value(data.subrange(16, 24)) == minimum_amount_out
            &&& data[24] == token_in_index
            &&& data[25] == token_out_index
        }),
{
    let data = swap_data(
        discriminator,
        amount_in,
        minimum_amount_out,
        token_in_index,
        token_out_index,
    );
    law_u64_round_trip(amount_in);
    law_u64_round_trip(minimum_amount_out);
    assert(data.subrange(0, 8) =~= discriminator);
    assert(data.subrange(8, 16) =~= le_bytes(amount_in as nat, 8));
    assert(data.subrange(16, 24) =~= le_bytes(minimum_amount_out as nat, 8));
}

} // verus!
