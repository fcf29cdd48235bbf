//! Finding, among the pool entries of one leg, the accounts that the venue
//! requires. The entries come in no order: each required account is looked
//! for by what it is, never by where it stands.

use crate::address::{lemma_address_by_bytes, Address};
use crate::chain::{
    token_account_layout, token_program, token_program_id, unpack_token_account,
    TOKEN_ACCOUNT_LEN,
};
use crate::error::MyErrorCode;
use crate::types::{DexType, PoolAccount};
use crate::venue::{derive_venue_addresses, venue_addresses, VenueAddresses};
use vstd::prelude::*;

verus! {

/// The accounts of one leg at the curve venue, each under its role.
#[derive(Clone, Copy, Debug, PartialEq, Eq)]
pub struct ResolvedVenueAccounts {
    pub program: Address,
    pub global: Address,
    pub fee_recipient: Address,
    pub mint: Address,
    pub bonding_curve: Address,
    pub associated_bonding_curve: Address,
    pub user_token_account: Address,
    pub event_authority: Address,
}

/// The roles that a leg's entries must fill, in the order in which a missing
/// one is reported.
#[derive(Clone, Copy, Debug, PartialEq, Eq)]
pub enum VenueSlot {
    Program,
    Global,
    FeeRecipient,
    Mint,
    BondingCurve,
    UserTokenAccount,
    EventAuthority,
    AssociatedBondingCurve,
}

/// Whether some entry has the address `key`.
pub open spec fn has_key(accounts: Seq<PoolAccount>, key: Address) -> bool {
    exists|i: int| 0 <= i < accounts.len() && (#[trigger] accounts[i]).key == key
}

/// Whether some entry has the derived address `key`; none has where no
/// address could be derived.
pub open spec fn has_derived(accounts: Seq<PoolAccount>, key: Option<Address>) -> bool {
    key matches Some(address) && has_key(accounts, address)
}

/// Whether an entry has the shape of a token account: owned by the token
/// program, and of a token account's size.
pub open spec fn token_shaped(account: PoolAccount) -> bool {
    account.owner == token_program() && account.data@.len() == TOKEN_ACCOUNT_LEN
}

/// Whether an entry is a token account in which `user` holds the asset `mint`.
pub open spec fn holds_asset_for(account: PoolAccount, user: Address, mint: Address) -> bool {
    &&& token_shaped(account)
    &&& token_account_layout(account.data@)
    &&& account.data@.subrange(0, 32) == mint@
    &&& account.data@.subrange(32, 64) == user@
}

/// The address of the last entry in which `user` holds the asset `mint`.
pub open spec fn user_token_account(accounts: Seq<PoolAccount>, user: Address, mint: Address) -> Option<
    Address,
>
    decreases accounts.len(),
{
    if accounts.len() == 0 {
        None
    } else if holds_asset_for(accounts.last(), user, mint) {
        Some(accounts.last().key)
    } else {
        user_token_account(accounts.drop_last(), user, mint)
    }
}

/// Whether the entries fill the role `slot`.
pub open spec fn slot_filled(
    slot: VenueSlot,
    accounts: Seq<PoolAccount>,
    venue: VenueAddresses,
    mint: Address,
    user: Address,
) -> bool {
    match slot {
        VenueSlot::Program => has_key(accounts, venue.program),
        VenueSlot::Global => has_derived(accounts, venue.global),
        VenueSlot::FeeRecipient => has_key(accounts, venue.fee_recipient),
        VenueSlot::Mint => has_key(accounts, mint),
        VenueSlot::BondingCurve => has_derived(accounts, venue.bonding_curve),
        VenueSlot::UserTokenAccount => user_token_account(accounts, user, mint) is Some,
        VenueSlot::EventAuthority => has_derived(accounts, venue.event_authority),
        VenueSlot::AssociatedBondingCurve => has_derived(accounts, venue.associated_bonding_curve),
    }
}

/// The failure that names a missing role. Roles of one kind share a failure:
/// the program and the fee recipient, which are fixed addresses; the global
/// configuration, the liquidity pool and the event log, which are derived;
/// the asset; the user's token account, found by its shape; and the liquidity
/// pool's associated token account.
pub open spec fn slot_error(slot: VenueSlot) -> MyErrorCode {
    match slot {
        VenueSlot::Program => MyErrorCode::AccountNotFound,
        VenueSlot::Global => MyErrorCode::PDAAccountNotFound,
        VenueSlot::FeeRecipient => MyErrorCode::AccountNotFound,
        VenueSlot::Mint => MyErrorCode::MintAccountNotFound,
        VenueSlot::BondingCurve => MyErrorCode::PDAAccountNotFound,
        VenueSlot::UserTokenAccount => MyErrorCode::TokenAccountNotFound,
        VenueSlot::EventAuthority => MyErrorCode::PDAAccountNotFound,
        VenueSlot::AssociatedBondingCurve => MyErrorCode::AssociatedAccountNotFound,
    }
}

/// The kinds of role, by how an account is recognized for it.
#[derive(Clone, Copy, Debug, PartialEq, Eq)]
pub enum SlotCategory {
    /// A fixed address: the venue's program or its fee recipient.
    ProgramAccount,
    /// An address derived from seeds under the venue's program.
    DerivedAddress,
    /// The asset itself.
    MintAccount,
    /// A token account recognized by its shape and what it holds.
    TokenAccount,
    /// The token account associated with the liquidity pool.
    AssociatedAccount,
}

/// The kind of a role.
pub open spec fn slot_category(slot: VenueSlot) -> SlotCategory {
    match slot {
        VenueSlot::Program => SlotCategory::ProgramAccount,
        VenueSlot::Global => SlotCategory::DerivedAddress,
        VenueSlot::FeeRecipient => SlotCategory::ProgramAccount,
        VenueSlot::Mint => SlotCategory::MintAccount,
        VenueSlot::BondingCurve => SlotCategory::DerivedAddress,
        VenueSlot::UserTokenAccount => SlotCategory::TokenAccount,
        VenueSlot::EventAuthority => SlotCategory::DerivedAddress,
        VenueSlot::AssociatedBondingCurve => SlotCategory::AssociatedAccount,
    }
}

/// The first role, in reporting order, that no entry fills.
pub open spec fn first_missing(
    accounts: Seq<PoolAccount>,
    venue: VenueAddresses,
    mint: Address,
    user: Address,
) -> Option<VenueSlot> {
    if !slot_filled(VenueSlot::Program, accounts, venue, mint, user) {
        Some(VenueSlot::Program)
    } else if !slot_filled(VenueSlot::Global, accounts, venue, mint, user) {
        Some(VenueSlot::Global)
    } else if !slot_filled(VenueSlot::FeeRecipient, accounts, venue, mint, user) {
        Some(VenueSlot::FeeRecipient)
    } else if !slot_filled(VenueSlot::Mint, accounts, venue, mint, user) {
        Some(VenueSlot::Mint)
    } else if !slot_filled(VenueSlot::BondingCurve, accounts, venue, mint, user) {
        Some(VenueSlot::BondingCurve)
    } else if !slot_filled(VenueSlot::UserTokenAccount, accounts, venue, mint, user) {
        Some(VenueSlot::UserTokenAccount)
    } else if !slot_filled(VenueSlot::EventAuthority, accounts, venue, mint, user) {
        Some(VenueSlot::EventAuthority)
    } else if !slot_filled(VenueSlot::AssociatedBondingCurve, accounts, venue, mint, user) {
        Some(VenueSlot::AssociatedBondingCurve)
    } else {
        None
    }
}

/// The accounts of a leg at the curve venue with the addresses `venue`: all of
/// them, or the failure that names the first missing role.
pub open spec fn resolve_at(
    accounts: Seq<PoolAccount>,
    venue: VenueAddresses,
    mint: Address,
    user: Address,
) -> Result<ResolvedVenueAccounts, MyErrorCode> {
    match first_missing(accounts, venue, mint, user) {
        Some(slot) => Err(slot_error(slot)),
        None => Ok(
            ResolvedVenueAccounts {
                program: venue.program,
                global: venue.global.unwrap(),
                fee_recipient: venue.fee_recipient,
                mint,
                bonding_curve: venue.bonding_curve.unwrap(),
                associated_bonding_curve: venue.associated_bonding_curve.unwrap(),
                user_token_account: user_token_account(accounts, user, mint).unwrap(),
                event_authority: venue.event_authority.unwrap(),
            },
        ),
    }
}

/// The accounts of a leg that trades `mint` for `user` at `venue`. A venue
/// without a resolver is refused before any entry is looked at.
pub open spec fn resolve_spec(
    accounts: Seq<PoolAccount>,
    venue: DexType,
    mint: Address,
    user: Address,
) -> Result<ResolvedVenueAccounts, MyErrorCode> {
    match venue {
        DexType::Meteora => Err(MyErrorCode::InvalidDexType),
        DexType::PumpFun => match venue_addresses(mint) {
            Ok(addresses) => resolve_at(accounts, addresses, mint, user),
            Err(error) => Err(error),
        },
    }
}

/// Whether some entry has the address `key`.
pub fn contains_key(accounts: &[PoolAccount], key: &Address) -> (r: bool)
    ensures
        r == has_key(accounts@, *key),
{
    let mut i: usize = 0;
    while i < accounts.len()
        invariant
            i <= accounts@.len(),
            forall|j: int| 0 <= j < i ==> (#[trigger] accounts@[j]).key != *key,
        decreases accounts@.len() - i,
    {
        if accounts[i].key == *key {
            return true;
        }
        i += 1;
    }
    false
}

/// The derived address `key`, where some entry has it.
fn find_derived(accounts: &[PoolAccount], key: &Option<Address>) -> (r: Option<Address>)
    ensures
        r == if has_derived(accounts@, *key) {
            *key
        } else {
            None
        },
{
    match key {
        Some(address) => if contains_key(accounts, address) {
            Some(*address)
        } else {
            None
        },
        None => None,
    }
}

/// Whether an entry is a token account in which `user` holds the asset `mint`.
pub fn is_user_token_account(account: &PoolAccount, user: &Address, mint: &Address) -> (r: bool)
    ensures
        r == holds_asset_for(*account, *user, *mint),
{
    let token = token_program_id();
    if !(account.owner == token && account.data.len() == TOKEN_ACCOUNT_LEN) {
        return false;
    }
    match unpack_token_account(&account.data) {
        Some(holding) => {
            proof {
                if account.data@.subrange(0, 32) == mint@ {
                    lemma_address_by_bytes(holding.mint, *mint);
                }
                if account.data@.subrange(32, 64) == user@ {
                    lemma_address_by_bytes(holding.owner, *user);
                }
            }
            holding.owner == *user && holding.mint == *mint
        },
        None => false,
    }
}

/// The address of the last entry in which `user` holds the asset `mint`.
pub fn find_user_token_account(accounts: &[PoolAccount], user: &Address, mint: &Address) -> (r:
    Option<Address>)
    ensures
        r == user_token_account(accounts@, *user, *mint),
{
    let mut found: Option<Address> = None;
    let mut i: usize = 0;
    assert(accounts@.take(0).len() == 0);
    while i < accounts.len()
        invariant
            i <= accounts@.len(),
            found == user_token_account(accounts@.take(i as int), *user, *mint),
        decreases accounts@.len() - i,
    {
        assert(accounts@.take(i + 1).drop_last() =~= accounts@.take(i as int));
        assert(accounts@.take(i + 1).last() == accounts@[i as int]);
        if is_user_token_account(&accounts[i], user, mint) {
            found = Some(accounts[i].key);
        }
        i += 1;
    }
    assert(accounts@.take(i as int) =~= accounts@);
    found
}

/// Looks among `accounts` for what the curve venue with the addresses `venue`
/// requires of a leg.
pub fn resolve_at_venue(
    accounts: &[PoolAccount],
    venue: &VenueAddresses,
    mint: &Address,
    user: &Address,
) -> (r: Result<ResolvedVenueAccounts, MyErrorCode>)
    ensures
        r == resolve_at(accounts@, *venue, *mint, *user),
{
    if !contains_key(accounts, &venue.program) {
        return Err(MyErrorCode::AccountNotFound);
    }
    let global = match find_derived(accounts, &venue.global) {
        Some(address) => address,
        None => { return Err(MyErrorCode::PDAAccountNotFound); },
    };
    if !contains_key(accounts, &venue.fee_recipient) {
        return Err(MyErrorCode::AccountNotFound);
    }
    if !contains_key(accounts, mint) {
        return Err(MyErrorCode::MintAccountNotFound);
    }
    let bonding_curve = match find_derived(accounts, &venue.bonding_curve) {
        Some(address) => address,
        None => { return Err(MyErrorCode::PDAAccountNotFound); },
    };
    let user_token_account = match find_user_token_account(accounts, user, mint) {
        Some(address) => address,
        None => { return Err(MyErrorCode::TokenAccountNotFound); },
    };
    let event_authority = match find_derived(accounts, &venue.event_authority) {
        Some(address) => address,
        None => { return Err(MyErrorCode::PDAAccountNotFound); },
    };
    let associated_bonding_curve = match find_derived(accounts, &venue.associated_bonding_curve) {
        Some(address) => address,
        None => { return Err(MyErrorCode::AssociatedAccountNotFound); },
    };
    Ok(
        ResolvedVenueAccounts {
            program: venue.program,
            global,
            fee_recipient: venue.fee_recipient,
            mint: *mint,
            bonding_curve,
            associated_bonding_curve,
            user_token_account,
            event_authority,
        },
    )
}

/// Resolves the accounts of a leg that trades `token_mint` for `user` at
/// `venue`: every required account, or the failure that names the first role
/// that no entry fills.
pub fn resolve_venue_accounts(
    accounts: &[PoolAccount],
    venue: DexType,
    token_mint: &Address,
    user: &Address,
) -> (r: Result<ResolvedVenueAccounts, MyErrorCode>)
    ensures
        r == resolve_spec(accounts@, venue, *token_mint, *user),
{
    match venue {
        DexType::Meteora => Err(MyErrorCode::InvalidDexType),
        DexType::PumpFun => match derive_venue_addresses(token_mint) {
            Ok(addresses) => resolve_at_venue(accounts, &addresses, token_mint, user),
            Err(error) => Err(error),
        },
    }
}

/// Whether all the entries in which `user` holds the asset `mint` have one
/// address.
pub open spec fn one_token_account(accounts: Seq<PoolAccount>, user: Address, mint: Address) -> bool {
    forall|i: int, j: int|
        0 <= i < accounts.len() && 0 <= j < accounts.len() && holds_asset_for(
            #[trigger] accounts[i],
            user,
            mint,
        ) && holds_asset_for(#[trigger] accounts[j], user, mint) ==> accounts[i].key
            == accounts[j].key
}

/// The token account that is found belongs to an entry in which `user` holds
/// the asset; none is found only where there is no such entry.
pub proof fn lemma_user_token_account_is_an_entry(
    accounts: Seq<PoolAccount>,
    user: Address,
    mint: Address,
)
    ensures
        match user_token_account(accounts, user, mint) {
            Some(key) => exists|i: int|
                0 <= i < accounts.len() && holds_asset_for(#[trigger] accounts[i], user, mint)
                    && accounts[i].key == key,
            None => forall|i: int|
                0 <= i < accounts.len() ==> !holds_asset_for(#[trigger] accounts[i], user, mint),
        },
    decreases accounts.len(),
{
    if accounts.len() > 0 {
        let last = accounts.len() - 1;
        if holds_asset_for(accounts.last(), user, mint) {
            assert(holds_asset_for(accounts[last], user, mint));
        } else {
            let before = accounts.drop_last();
            lemma_user_token_account_is_an_entry(before, user, mint);
            match user_token_account(before, user, mint) {
                Some(key) => {
                    let i = choose|i: int|
                        0 <= i < before.len() && holds_asset_for(#[trigger] before[i], user, mint)
                            && before[i].key == key;
                    assert(accounts[i] == before[i]);
                },
                None => {
                    assert forall|i: int| 0 <= i < accounts.len() implies !holds_asset_for(
                        #[trigger] accounts[i],
                        user,
                        mint,
                    ) by {
                        if i < last {
                            assert(accounts[i] == before[i]);
                        }
                    }
                },
            }
        }
    }
}

/// Two pools with the same entries, in whatever order, have the same members.
proof fn lemma_member_ignores_order(
    accounts: Seq<PoolAccount>,
    reordered: Seq<PoolAccount>,
    account: PoolAccount,
)
    requires
        accounts.to_multiset() == reordered.to_multiset(),
        accounts.contains(account),
    ensures
        reordered.contains(account),
{
    accounts.to_multiset_ensures();
    reordered.to_multiset_ensures();
    assert(accounts.to_multiset().count(account) > 0);
    assert(reordered.to_multiset().count(account) > 0);
}

/// Two pools with the same entries, in whatever order, have the same
/// addresses.
pub proof fn lemma_has_key_ignores_order(
    accounts: Seq<PoolAccount>,
    reordered: Seq<PoolAccount>,
    key: Address,
)
    requires
        accounts.to_multiset() == reordered.to_multiset(),
    ensures
        has_key(accounts, key) == has_key(reordered, key),
{
    if has_key(accounts, key) {
        let i = choose|i: int| 0 <= i < accounts.len() && (#[trigger] accounts[i]).key == key;
        assert(accounts.contains(accounts[i]));
        lemma_member_ignores_order(accounts, reordered, accounts[i]);
        let j = choose|j: int| 0 <= j < reordered.len() && reordered[j] == accounts[i];
        assert(reordered[j].key == key);
    }
    if has_key(reordered, key) {
        let i = choose|i: int| 0 <= i < reordered.len() && (#[trigger] reordered[i]).key == key;
        assert(reordered.contains(reordered[i]));
        lemma_member_ignores_order(reordered, accounts, reordered[i]);
        let j = choose|j: int| 0 <= j < accounts.len() && accounts[j] == reordered[i];
        assert(accounts[j].key == key);
    }
}

/// Where the user's token accounts among the entries have one address, that
/// address is found in whatever order the entries stand.
pub proof fn lemma_user_token_account_ignores_order(
    accounts: Seq<PoolAccount>,
    reordered: Seq<PoolAccount>,
    user: Address,
    mint: Address,
)
    requires
        accounts.to_multiset() == reordered.to_multiset(),
        one_token_account(accounts, user, mint),
    ensures
        user_token_account(accounts, user, mint) == user_token_account(reordered, user, mint),
{
    lemma_user_token_account_is_an_entry(accounts, user, mint);
    lemma_user_token_account_is_an_entry(reordered, user, mint);
    match user_token_account(reordered, user, mint) {
        Some(key) => {
            let j = choose|j: int|
                0 <= j < reordered.len() && holds_asset_for(#[trigger] reordered[j], user, mint)
                    && reordered[j].key == key;
            assert(reordered.contains(reordered[j]));
            lemma_member_ignores_order(reordered, accounts, reordered[j]);
            let i = choose|i: int| 0 <= i < accounts.len() && accounts[i] == reordered[j];
            assert(holds_asset_for(accounts[i], user, mint));
            match user_token_account(accounts, user, mint) {
                Some(found) => {
                    let k = choose|k: int|
                        0 <= k < accounts.len() && holds_asset_for(
                            #[trigger] accounts[k],
                            user,
                            mint,
                        ) && accounts[k].key == found;
                    assert(accounts[k].key == accounts[i].key);
                },
                None => {},
            }
        },
        None => {
            match user_token_account(accounts, user, mint) {
                Some(found) => {
                    let k = choose|k: int|
                        0 <= k < accounts.len() && holds_asset_for(
                            #[trigger] accounts[k],
                            user,
                            mint,
                        ) && accounts[k].key == found;
                    assert(accounts.contains(accounts[k]));
                    lemma_member_ignores_order(accounts, reordered, accounts[k]);
                    let j = choose|j: int| 0 <= j < reordered.len() && reordered[j] == accounts[k];
                    assert(holds_asset_for(reordered[j], user, mint));
                },
                None => {},
            }
        },
    }
}

/// Resolution does not depend on the order of the entries: two pools with
/// the same entries resolve alike wherever the same token account of the user
/// is found in both, and so wherever the entries in which the user holds the
/// asset have one address. (Of two such entries with different addresses the
/// later one is taken, so their order can show.)
pub proof fn lemma_resolution_ignores_order(
    accounts: Seq<PoolAccount>,
    reordered: Seq<PoolAccount>,
    venue: DexType,
    mint: Address,
    user: Address,
)
    requires
        accounts.to_multiset() == reordered.to_multiset(),
    ensures
        user_token_account(accounts, user, mint) == user_token_account(reordered, user, mint)
            ==> resolve_spec(accounts, venue, mint, user) == resolve_spec(
            reordered,
            venue,
            mint,
            user,
        ),
        one_token_account(accounts, user, mint) ==> resolve_spec(accounts, venue, mint, user)
            == resolve_spec(reordered, venue, mint, user),
{
    if venue == DexType::PumpFun && venue_addresses(mint) is Ok {
        let addresses = venue_addresses(mint)->Ok_0;
        lemma_has_key_ignores_order(accounts, reordered, addresses.program);
        lemma_has_key_ignores_order(accounts, reordered, addresses.fee_recipient);
        lemma_has_key_ignores_order(accounts, reordered, mint);
        if addresses.global is Some {
            lemma_has_key_ignores_order(accounts, reordered, addresses.global->0);
        }
        if addresses.bonding_curve is Some {
            lemma_has_key_ignores_order(accounts, reordered, addresses.bonding_curve->0);
        }
        if addresses.event_authority is Some {
            lemma_has_key_ignores_order(accounts, reordered, addresses.event_authority->0);
        }
        if addresses.associated_bonding_curve is Some {
            lemma_has_key_ignores_order(
                accounts,
                reordered,
                addresses.associated_bonding_curve->0,
            );
        }
        if one_token_account(accounts, user, mint) {
            lemma_user_token_account_ignores_order(accounts, reordered, user, mint);
        }
    }
}

/// Resolution succeeds exactly where every role is filled, and a failure
/// names a role that is not.
pub proof fn lemma_resolution_fails_on_a_missing_slot(
    accounts: Seq<PoolAccount>,
    venue: VenueAddresses,
    mint: Address,
    user: Address,
)
    ensures
        resolve_at(accounts, venue, mint, user) is Ok <==> forall|slot: VenueSlot|
            #[trigger] slot_filled(slot, accounts, venue, mint, user),
        resolve_at(accounts, venue, mint, user) matches Err(error) ==> exists|slot: VenueSlot|
            !(#[trigger] slot_filled(slot, accounts, venue, mint, user)) && error == slot_error(
                slot,
            ),
{
    match first_missing(accounts, venue, mint, user) {
        Some(slot) => {
            assert(!slot_filled(slot, accounts, venue, mint, user));
        },
        None => {
            assert forall|slot: VenueSlot| #[trigger]
                slot_filled(slot, accounts, venue, mint, user) by {
                match slot {
                    VenueSlot::Program => {},
                    VenueSlot::Global => {},
                    VenueSlot::FeeRecipient => {},
                    VenueSlot::Mint => {},
                    VenueSlot::BondingCurve => {},
                    VenueSlot::UserTokenAccount => {},
                    VenueSlot::EventAuthority => {},
                    VenueSlot::AssociatedBondingCurve => {},
                }
            }
        },
    }
}

/// The failure of a missing role tells its kind: two roles have the same
/// failure exactly when they are of the same kind, and no such failure is one
/// that the router reports for anything else.
pub proof fn lemma_slot_failure_tells_the_category(first: VenueSlot, second: VenueSlot)
    ensures
        slot_error(first) == slot_error(second) <==> slot_category(first) == slot_category(second),
        slot_error(first) != MyErrorCode::ContractIsPaused,
        slot_error(first) != MyErrorCode::UnauthorizedAccess,
        slot_error(first) != MyErrorCode::InsufficientAccounts,
        slot_error(first) != MyErrorCode::InvalidDexType,
        slot_error(first) != MyErrorCode::InvalidProgramId,
{
}

/// Where exactly one role is missing, resolution fails with the failure of
/// that role, whichever role it is.
pub proof fn lemma_single_missing_slot_is_named(
    accounts: Seq<PoolAccount>,
    venue: VenueAddresses,
    mint: Address,
    user: Address,
    missing: VenueSlot,
)
    requires
        !slot_filled(missing, accounts, venue, mint, user),
        forall|slot: VenueSlot|
            slot != missing ==> #[trigger] slot_filled(slot, accounts, venue, mint, user),
    ensures
        resolve_at(accounts, venue, mint, user) == Err::<ResolvedVenueAccounts, MyErrorCode>(
            slot_error(missing),
        ),
{
    assert(VenueSlot::Program != missing ==> slot_filled(VenueSlot::Program, accounts, venue, mint, user));
    assert(VenueSlot::Global != missing ==> slot_filled(VenueSlot::Global, accounts, venue, mint, user));
    assert(VenueSlot::FeeRecipient != missing ==> slot_filled(
        VenueSlot::FeeRecipient,
        accounts,
        venue,
        mint,
        user,
    ));
    assert(VenueSlot::Mint != missing ==> slot_filled(VenueSlot::Mint, accounts, venue, mint, user));
    assert(VenueSlot::BondingCurve != missing ==> slot_filled(
        VenueSlot::BondingCurve,
        accounts,
        venue,
        mint,
        user,
    ));
    assert(VenueSlot::UserTokenAccount != missing ==> slot_filled(
        VenueSlot::UserTokenAccount,
        accounts,
        venue,
        mint,
        user,
    ));
    assert(VenueSlot::EventAuthority != missing ==> slot_filled(
        VenueSlot::EventAuthority,
        accounts,
        venue,
        mint,
        user,
    ));
    assert(VenueSlot::AssociatedBondingCurve != missing ==> slot_filled(
        VenueSlot::AssociatedBondingCurve,
        accounts,
        venue,
        mint,
        user,
    ));
}

} // verus!
