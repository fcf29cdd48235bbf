//! What the router takes from the chain's own libraries: address text,
//! derived addresses, the token program's identity and the layout of a token
//! account. Nothing in this module is proved; each function states what the
//! library it calls is taken to do.

use crate::address::Address;
use anchor_lang::prelude::Pubkey;
use anchor_lang::AccountDeserialize;
use anchor_spl::token::TokenAccount;
use std::str::FromStr;
use vstd::prelude::*;

verus! {

/// The text of the token program's address.
pub const TOKEN_PROGRAM_ID: &'static str = "TokenkegQfeZyiNwAJbNbGKPFXCWuBvf9Ss623VQ5DA";

/// The text of the associated-token program's address.
pub const ASSOCIATED_TOKEN_PROGRAM_ID: &'static str = "ATokenGPvbdGVxr1b2hvZbsiqW5xWH25efTNsLJA8knL";

/// The number of bytes of a token account.
pub const TOKEN_ACCOUNT_LEN: usize = 165;

/// The 32 bytes that a base58 text stands for; `None` where the text is no
/// base58 or does not stand for exactly 32 bytes.
pub uninterp spec fn base58_address(text: Seq<char>) -> Option<[u8; 32]>;

/// The address derived from `seeds` under `program_id`: the one found with the
/// highest bump seed that yields an address off the curve; `None` where no bump
/// seed does, or where the seeds are too many or too long.
pub uninterp spec fn program_address(seeds: Seq<Seq<u8>>, program_id: [u8; 32]) -> Option<[u8; 32]>;

/// The address that a base58 text stands for.
pub open spec fn address_named(text: Seq<char>) -> Option<Address> {
    match base58_address(text) {
        Some(bytes) => Some(Address { bytes }),
        None => None,
    }
}

/// The address derived from `seeds` under `program_id`.
pub open spec fn derived_address(seeds: Seq<Seq<u8>>, program_id: Address) -> Option<Address> {
    match program_address(seeds, program_id.bytes) {
        Some(bytes) => Some(Address { bytes }),
        None => None,
    }
}

/// The bytes of each seed, in order.
pub open spec fn seed_bytes(seeds: Vec<Vec<u8>>) -> Seq<Seq<u8>> {
    Seq::new(seeds@.len(), |i: int| seeds@[i]@)
}

/// The token program's address.
pub open spec fn token_program() -> Address {
    address_named(TOKEN_PROGRAM_ID@).unwrap()
}

/// The associated-token program's address.
pub open spec fn associated_token_program() -> Address {
    address_named(ASSOCIATED_TOKEN_PROGRAM_ID@).unwrap()
}

/// A four-byte option tag at `at`: 0 or 1 as a little-endian `u32`.
pub open spec fn option_tag(data: Seq<u8>, at: int) -> bool {
    &&& data[at] == 0 || data[at] == 1
    &&& data[at + 1] == 0
    &&& data[at + 2] == 0
    &&& data[at + 3] == 0
}

/// Whether `data` is an initialized token account: 165 bytes holding the mint
/// (32), the owner (32), the amount (8), the optional delegate (4 + 32), the
/// state (1; 1 is initialized, 2 frozen), the optional native reserve (4 + 8),
/// the delegated amount (8) and the optional close authority (4 + 32).
pub open spec fn token_account_layout(data: Seq<u8>) -> bool {
    &&& data.len() == TOKEN_ACCOUNT_LEN
    &&& option_tag(data, 72)
    &&& data[108] == 1 || data[108] == 2
    &&& option_tag(data, 109)
    &&& option_tag(data, 129)
}

/// What the router reads of a token account.
#[derive(Clone, Copy, Debug, PartialEq, Eq)]
pub struct TokenHolding {
    pub mint: Address,
    pub owner: Address,
}

/// `Pubkey::from_str`: decodes base58 text into an address. Taken to return
/// the address that the text stands for, and `None` where the call fails.
#[verifier::external_body]
pub(crate) fn parse_address(text: &str) -> (r: Option<Address>)
    ensures
        r matches Some(address) ==> base58_address(text@) == Some(address.bytes),
        r is None ==> base58_address(text@) is None,
{
    match Pubkey::from_str(text) {
        Ok(key) => Some(Address { bytes: key.to_bytes() }),
        Err(_) => None,
    }
}

/// `Pubkey::try_find_program_address`: searches the bump seeds from 255 down
/// for the first address off the curve. Taken to return that address, without
/// its bump seed, as a function of the seeds and the program alone.
#[verifier::external_body]
pub(crate) fn try_find_program_address(seeds: &Vec<Vec<u8>>, program_id: &Address) -> (r: Option<Address>)
    ensures
        r matches Some(address) ==> program_address(seed_bytes(*seeds), program_id.bytes) == Some(
            address.bytes,
        ),
        r is None ==> program_address(seed_bytes(*seeds), program_id.bytes) is None,
{
    let parts: Vec<&[u8]> = seeds.iter().map(|seed| seed.as_slice()).collect();
    let program = Pubkey::new_from_array(program_id.bytes);
    match Pubkey::try_find_program_address(&parts, &program) {
        Some((key, _)) => Some(Address { bytes: key.to_bytes() }),
        None => None,
    }
}

/// `anchor_spl::token::ID`: the token program's address, which that crate
/// declares by the text `TOKEN_PROGRAM_ID`.
#[verifier::external_body]
pub(crate) fn token_program_id() -> (r: Address)
    ensures
        base58_address(TOKEN_PROGRAM_ID@) == Some(r.bytes),
{
    Address { bytes: anchor_spl::token::ID.to_bytes() }
}

/// `anchor_spl::associated_token::ID`: the associated-token program's address,
/// which that crate declares by the text `ASSOCIATED_TOKEN_PROGRAM_ID`.
#[verifier::external_body]
pub(crate) fn associated_token_program_id() -> (r: Address)
    ensures
        base58_address(ASSOCIATED_TOKEN_PROGRAM_ID@) == Some(r.bytes),
{
    Address { bytes: anchor_spl::associated_token::ID.to_bytes() }
}

/// `TokenAccount::try_deserialize`, which unpacks the bytes with the token
/// program's `Account::unpack`. Taken to succeed exactly on an initialized
/// token account of the layout above, and to read the mint from the first 32
/// bytes and the owner from the next 32.
#[verifier::external_body]
pub(crate) fn unpack_token_account(data: &Vec<u8>) -> (r: Option<TokenHolding>)
    ensures
        r is Some <==> token_account_layout(data@),
        r matches Some(holding) ==> holding.mint@ == data@.subrange(0, 32) && holding.owner@
            == data@.subrange(32, 64),
{
    let mut bytes: &[u8] = data.as_slice();
    match TokenAccount::try_deserialize(&mut bytes) {
        Ok(account) => Some(
            TokenHolding {
                mint: Address { bytes: account.mint.to_bytes() },
                owner: Address { bytes: account.owner.to_bytes() },
            },
        ),
        Err(_) => None,
    }
}

} // verus!
