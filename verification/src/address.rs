//! Addresses that programs own.

use crate::constants::ASSOCIATED_TOKEN_PROGRAM_ID;
use crate::pubkey::{lemma_pubkey_ext, lemma_pubkey_of, pubkey_of, Pubkey};
use vstd::prelude::*;

verus! {

/// The program-derived address for `seeds` under the program `program_id`, with
/// its bump seed; `None` where there is none.
pub uninterp spec fn program_address(seeds: Seq<Seq<u8>>, program_id: Seq<u8>) -> Option<(Seq<u8>, u8)>;

/// The bytes of each seed.
pub open spec fn seed_bytes(seeds: Seq<&[u8]>) -> Seq<Seq<u8>> {
    seeds.map_values(|seed: &[u8]| seed@)
}

/// There are no more seeds, and none is longer, than an address can be derived
/// from.
pub open spec fn seeds_fit(seeds: Seq<Seq<u8>>) -> bool {
    &&& seeds.len() < 16
    &&& forall|i: int| 0 <= i < seeds.len() ==> (#[trigger] seeds[i]).len() <= 32
}

/// The program-derived address without its bump seed.
pub open spec fn derived_key(seeds: Seq<Seq<u8>>, program_id: Pubkey) -> Option<Pubkey> {
    match program_address(seeds, program_id@) {
        Some((bytes, _)) => Some(pubkey_of(bytes)),
        None => None,
    }
}

/// The address of the token account in which `wallet` holds `mint` under
/// `token_program`: the one that the associated token program derives from the
/// three.
pub open spec fn token_account(wallet: Pubkey, mint: Pubkey, token_program: Pubkey) -> Option<Pubkey> {
    derived_key(
        seq![wallet@, token_program@, mint@],
        Pubkey { bytes: ASSOCIATED_TOKEN_PROGRAM_ID },
    )
}

/// There are as many byte strings as seeds, and each is its seed's bytes.
pub proof fn law_seed_bytes_are_the_seeds(seeds: Seq<&[u8]>)
    ensures
        seed_bytes(seeds).len() == seeds.len(),
        forall|i: int| 0 <= i < seeds.len() ==> #[trigger] seed_bytes(seeds)[i] == seeds[i]@,
{
}

/// The derived address is the program-derived one, whatever its bump seed, and
/// there is none exactly where that has none.
pub proof fn law_derived_key_is_the_program_address(
    seeds: Seq<Seq<u8>>,
    program_id: Pubkey,
    key: Pubkey,
    bump: u8,
)
    ensures
        program_address(seeds, program_id.bytes@) == Some((key.bytes@, bump)) ==> derived_key(
            seeds,
            program_id,
        ) == Some(key),
        derived_key(seeds, program_id) is None <==> program_address(seeds, program_id.bytes@) is None,
{
    lemma_pubkey_of(key);
}

/// The token account of a wallet is the address that the associated token program
/// derives from the wallet, the token program and the mint, in this order.
pub proof fn law_token_account_is_derived(
    wallet: Pubkey,
    mint: Pubkey,
    token_program: Pubkey,
    seeds: Seq<Seq<u8>>,
    program: Pubkey,
)
    requires
        seeds.len() == 3,
        seeds[0] == wallet.bytes@,
        seeds[1] == token_program.bytes@,
        seeds[2] == mint.bytes@,
        program.bytes@ == seq![
            140u8, 151, 37, 143, 78, 36, 137, 241, 187, 61, 16, 41, 20, 142, 13, 131, 11, 90, 19,
            153, 218, 255, 16, 132, 4, 142, 123, 216, 219, 233, 248, 89,
        ],
    ensures
        token_account(wallet, mint, token_program) == derived_key(seeds, program),
{
    assert(seeds =~= seq![wallet@, token_program@, mint@]);
    let associated = Pubkey { bytes: ASSOCIATED_TOKEN_PROGRAM_ID };
    assert(associated@ =~= program@);
    lemma_pubkey_ext(associated, program);
}

/// Calls `Pubkey::try_find_program_address` of `solana_sdk`.
///
/// The seeds and the program determine the address that it finds, its bump seed,
/// and whether there is one at all. There is none for a seed longer than
/// thirty-two bytes, nor for sixteen seeds or more, since the bump seed makes
/// one more. What the address is, is left unsaid.
#[verifier::external_body]
pub(crate) fn try_find_program_address(seeds: &Vec<&[u8]>, program_id: &Pubkey) -> (found: Option<
    (Pubkey, u8),
>)
    ensures
        match found {
            Some((key, bump)) => program_address(seed_bytes(seeds@), program_id@) == Some((key@, bump)),
            None => program_address(seed_bytes(seeds@), program_id@) is None,
        },
        !seeds_fit(seed_bytes(seeds@)) ==> found is None,
{
    let program = solana_sdk::pubkey::Pubkey::new_from_array(program_id.bytes);
    let found = solana_sdk::pubkey::Pubkey::try_find_program_address(seeds.as_slice(), &program);
    found.map(|pair| (Pubkey { bytes: pair.0.to_bytes() }, pair.1))
}

/// Calls `get_associated_token_address_with_program_id` of
/// `spl_associated_token_account`.
///
/// It derives the address from the bytes of the wallet, the token program and
/// the mint, in this order, under the associated token program, and panics
/// where that program has no address for them.
#[verifier::external_body]
pub(crate) fn associated_token_address(
    wallet: &Pubkey,
    mint: &Pubkey,
    token_program: &Pubkey,
) -> (key: Pubkey)
    requires
        token_account(*wallet, *mint, *token_program) is Some,
    ensures
        Some(key) == token_account(*wallet, *mint, *token_program),
{
    let found = spl_associated_token_account::get_associated_token_address_with_program_id(
        &solana_sdk::pubkey::Pubkey::new_from_array(wallet.bytes),
        &solana_sdk::pubkey::Pubkey::new_from_array(mint.bytes),
        &solana_sdk::pubkey::Pubkey::new_from_array(token_program.bytes),
    );
    Pubkey { bytes: found.to_bytes() }
}

/// Derives the address for `seeds` under `program_id`, where there is one.
pub(crate) fn derive_key(seeds: &Vec<&[u8]>, program_id: &Pubkey) -> (found: Option<Pubkey>)
    ensures
        found == derived_key(seed_bytes(seeds@), *program_id),
        !seeds_fit(seed_bytes(seeds@)) ==> found is None,
{
    match try_find_program_address(seeds, program_id) {
        Some((key, _bump)) => {
            proof {
                lemma_pubkey_of(key);
            }
            Some(key)
        },
        None => None,
    }
}

/// Whether `wallet` has a token account address for `mint`.
pub fn has_token_account(wallet: &Pubkey, mint: &Pubkey, token_program: &Pubkey) -> (found: bool)
    ensures
        found == token_account(*wallet, *mint, *token_program) is Some,
{
    let seeds: Vec<&[u8]> = vec![
        wallet.bytes.as_slice(),
        token_program.bytes.as_slice(),
        mint.bytes.as_slice(),
    ];
    proof {
        assert(seed_bytes(seeds@) =~= seq![wallet@, token_program@, mint@]);
    }
    let program = Pubkey { bytes: ASSOCIATED_TOKEN_PROGRAM_ID };
    derive_key(&seeds, &program).is_some()
}

} // verus!
