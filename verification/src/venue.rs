//! The addresses that the curve venue expects of a leg. Each is fixed by the
//! venue's program and the traded asset, whatever the pool holds.

use crate::address::Address;
use crate::chain::{
    address_named, associated_token_program, associated_token_program_id, derived_address,
    parse_address, seed_bytes, token_program, token_program_id, try_find_program_address,
};
use crate::error::MyErrorCode;
use vstd::prelude::*;
use vstd::slice::slice_to_vec;
use vstd::string::StringSliceAdditionalSpecFns;

verus! {

/// The text of the curve venue's program address.
pub const PUMP_PROGRAM_ID: &'static str = "6EF8rrecthR5Dkzon8Nwu78hRvfCKubJ14M5uBEwF6P";

/// The text of the address that collects the curve venue's fees.
pub const PUMP_FEE_RECIPIENT: &'static str = "CebN5WGQ4jvEPvsVU4EoHEpgzq1VV7AbicfhtW4xC9iM";

/// The seed of the venue's global configuration.
pub const GLOBAL_SEED: &'static str = "global";

/// The first seed of an asset's liquidity pool; the asset's address follows.
pub const BONDING_CURVE_SEED: &'static str = "bonding-curve";

/// The seed of the venue's event log.
pub const EVENT_AUTHORITY_SEED: &'static str = "__event_authority";

/// The addresses the curve venue expects for one asset. A derived address is
/// `None` where none can be derived; no account can then stand for it.
#[derive(Clone, Copy, Debug, PartialEq, Eq)]
pub struct VenueAddresses {
    pub program: Address,
    pub fee_recipient: Address,
    pub global: Option<Address>,
    pub bonding_curve: Option<Address>,
    pub event_authority: Option<Address>,
    /// The token account that the liquidity pool holds of the asset.
    pub associated_bonding_curve: Option<Address>,
}

/// The token account associated with `wallet` for the asset `mint`: derived
/// under the associated-token program from the wallet, the token program and
/// the asset, in that order.
pub open spec fn associated_token_address_spec(wallet: Address, mint: Address) -> Option<Address> {
    derived_address(seq![wallet@, token_program()@, mint@], associated_token_program())
}

/// The addresses of the curve venue for the asset `mint`, given the venue's
/// program and fee recipient.
pub open spec fn venue_addresses_for(program: Address, fee_recipient: Address, mint: Address) -> VenueAddresses {
    let bonding_curve = derived_address(seq![BONDING_CURVE_SEED.spec_bytes(), mint@], program);
    VenueAddresses {
        program,
        fee_recipient,
        global: derived_address(seq![GLOBAL_SEED.spec_bytes()], program),
        bonding_curve,
        event_authority: derived_address(seq![EVENT_AUTHORITY_SEED.spec_bytes()], program),
        associated_bonding_curve: match bonding_curve {
            Some(curve) => associated_token_address_spec(curve, mint),
            None => None,
        },
    }
}

/// The addresses of the curve venue for the asset `mint`; no addresses where
/// the text of the program or of the fee recipient stands for no address.
pub open spec fn venue_addresses(mint: Address) -> Result<VenueAddresses, MyErrorCode> {
    match (address_named(PUMP_PROGRAM_ID@), address_named(PUMP_FEE_RECIPIENT@)) {
        (Some(program), Some(fee_recipient)) => Ok(
            venue_addresses_for(program, fee_recipient, mint),
        ),
        _ => Err(MyErrorCode::InvalidProgramId),
    }
}

/// The token account associated with `wallet` for the asset `mint`, and
/// `None` where no address can be derived for it.
pub fn associated_token_address(wallet: &Address, mint: &Address) -> (r: Option<Address>)
    ensures
        r == associated_token_address_spec(*wallet, *mint),
{
    let token = token_program_id();
    let program = associated_token_program_id();
    let mut seeds: Vec<Vec<u8>> = Vec::new();
    seeds.push(wallet.to_vec());
    seeds.push(token.to_vec());
    seeds.push(mint.to_vec());
    assert(seed_bytes(seeds) =~= seq![wallet@, token_program()@, mint@]);
    try_find_program_address(&seeds, &program)
}

/// The address derived under `program` from the bytes of `seed`, followed by
/// the bytes of `subject` where there is one.
fn derive_from_text(seed: &str, subject: Option<&Address>, program: &Address) -> (r: Option<Address>)
    ensures
        r == derived_address(
            match subject {
                Some(address) => seq![seed.spec_bytes(), address@],
                None => seq![seed.spec_bytes()],
            },
            *program,
        ),
{
    let mut seeds: Vec<Vec<u8>> = Vec::new();
    seeds.push(slice_to_vec(seed.as_bytes()));
    match subject {
        Some(address) => {
            seeds.push(address.to_vec());
            assert(seed_bytes(seeds) =~= seq![seed.spec_bytes(), address@]);
        },
        None => {
            assert(seed_bytes(seeds) =~= seq![seed.spec_bytes()]);
        },
    }
    try_find_program_address(&seeds, program)
}

/// Derives the addresses of the curve venue for the asset `mint`, once for the
/// whole leg.
pub fn derive_venue_addresses(mint: &Address) -> (r: Result<VenueAddresses, MyErrorCode>)
    ensures
        r == venue_addresses(*mint),
{
    let program = match parse_address(PUMP_PROGRAM_ID) {
        Some(address) => address,
        None => { return Err(MyErrorCode::InvalidProgramId); },
    };
    let fee_recipient = match parse_address(PUMP_FEE_RECIPIENT) {
        Some(address) => address,
        None => { return Err(MyErrorCode::InvalidProgramId); },
    };
    let global = derive_from_text(GLOBAL_SEED, None, &program);
    let bonding_curve = derive_from_text(BONDING_CURVE_SEED, Some(mint), &program);
    let event_authority = derive_from_text(EVENT_AUTHORITY_SEED, None, &program);
    let associated_bonding_curve = match &bonding_curve {
        Some(curve) => associated_token_address(curve, mint),
        None => None,
    };
    Ok(
        VenueAddresses {
            program,
            fee_recipient,
            global,
            bonding_curve,
            event_authority,
            associated_bonding_curve,
        },
    )
}

} // verus!
