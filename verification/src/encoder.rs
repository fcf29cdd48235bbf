//! The calls that the curve venue understands: a payload of a fixed layout
//! and the accounts in the order the venue requires.

use crate::address::Address;
use crate::error::MyErrorCode;
use crate::resolver::ResolvedVenueAccounts;
use crate::types::{ArbitrageParams, DexType, ExecuteArbitrageBatch};
use vstd::arithmetic::div_mod::lemma_div_denominator;
use vstd::bytes::{spec_u64_to_le_bytes, spec_u64_to_le_bytes_to_open, u64_to_le_bytes};
use vstd::prelude::*;

verus! {

/// The eight bytes that open the payload of a buy.
pub const BUY_DISCRIMINATOR: [u8; 8] = [0x66, 0x06, 0x3d, 0x12, 0x01, 0xda, 0xeb, 0xea];

/// The eight bytes that open the payload of a sell.
pub const SELL_DISCRIMINATOR: [u8; 8] = [0x33, 0xe6, 0x85, 0xa4, 0x01, 0x7f, 0x83, 0xad];

/// One account of a call: its address, whether it signs, whether the call may
/// write to it.
#[derive(Clone, Copy, Debug, PartialEq, Eq)]
pub struct AccountMeta {
    pub pubkey: Address,
    pub is_signer: bool,
    pub is_writable: bool,
}

/// A call to a venue, ready to be issued.
#[derive(Clone, Debug, PartialEq, Eq)]
pub struct EncodedCall {
    pub program_id: Address,
    pub accounts: Vec<AccountMeta>,
    pub data: Vec<u8>,
}

/// A call as its target, its accounts in order and its payload.
pub struct EncodedCallView {
    pub program_id: Address,
    pub accounts: Seq<AccountMeta>,
    pub data: Seq<u8>,
}

impl View for EncodedCall {
    type V = EncodedCallView;

    open spec fn view(&self) -> EncodedCallView {
        EncodedCallView { program_id: self.program_id, accounts: self.accounts@, data: self.data@ }
    }
}

impl AccountMeta {
    /// An account that the call may write to.
    pub open spec fn writable(pubkey: Address, is_signer: bool) -> AccountMeta {
        AccountMeta { pubkey, is_signer, is_writable: true }
    }

    /// An account that the call only reads.
    pub open spec fn readonly(pubkey: Address, is_signer: bool) -> AccountMeta {
        AccountMeta { pubkey, is_signer, is_writable: false }
    }

    /// An account that the call may write to.
    pub fn new(pubkey: Address, is_signer: bool) -> (meta: AccountMeta)
        ensures
            meta == AccountMeta::writable(pubkey, is_signer),
    {
        AccountMeta { pubkey, is_signer, is_writable: true }
    }

    /// An account that the call only reads.
    pub fn new_readonly(pubkey: Address, is_signer: bool) -> (meta: AccountMeta)
        ensures
            meta == AccountMeta::readonly(pubkey, is_signer),
    {
        AccountMeta { pubkey, is_signer, is_writable: false }
    }
}

/// The eight bytes of `value`, lowest first: its digits to the base 256.
#[verifier::opaque]
pub open spec fn le_bytes(value: u64) -> Seq<u8> {
    seq![
        (value % 0x100) as u8,
        (value / 0x100 % 0x100) as u8,
        (value / 0x1_0000 % 0x100) as u8,
        (value / 0x100_0000 % 0x100) as u8,
        (value / 0x1_0000_0000 % 0x100) as u8,
        (value / 0x100_0000_0000 % 0x100) as u8,
        (value / 0x1_0000_0000_0000 % 0x100) as u8,
        (value / 0x100_0000_0000_0000 % 0x100) as u8,
    ]
}

/// The number that eight bytes stand for, lowest byte first.
pub open spec fn le_value(bytes: Seq<u8>) -> int {
    bytes[0] + bytes[1] * 0x100 + bytes[2] * 0x1_0000 + bytes[3] * 0x100_0000 + bytes[4]
        * 0x1_0000_0000 + bytes[5] * 0x100_0000_0000 + bytes[6] * 0x1_0000_0000_0000 + bytes[7]
        * 0x100_0000_0000_0000
}

/// A payload: the discriminator, then the quantity, then the bound.
pub open spec fn payload(discriminator: Seq<u8>, quantity: u64, bound: u64) -> Seq<u8> {
    discriminator + le_bytes(quantity) + le_bytes(bound)
}

/// The quantity that a payload carries.
pub open spec fn payload_quantity(data: Seq<u8>) -> int {
    le_value(data.subrange(8, 16))
}

/// The bound that a payload carries.
pub open spec fn payload_bound(data: Seq<u8>) -> int {
    le_value(data.subrange(16, 24))
}

/// The accounts of a call to the curve venue, in the order the venue requires.
/// Only the operator signs; the venue writes to the fee recipient, the
/// liquidity pool and its token account, the operator's token account and the
/// operator.
pub open spec fn venue_account_list(
    resolved: ResolvedVenueAccounts,
    named: ExecuteArbitrageBatch,
) -> Seq<AccountMeta> {
    seq![
        AccountMeta::readonly(resolved.global, false),
        AccountMeta::writable(resolved.fee_recipient, false),
        AccountMeta::readonly(resolved.mint, false),
        AccountMeta::writable(resolved.bonding_curve, false),
        AccountMeta::writable(resolved.associated_bonding_curve, false),
        AccountMeta::writable(resolved.user_token_account, false),
        AccountMeta::writable(named.user, true),
        AccountMeta::readonly(named.system_program, false),
        AccountMeta::readonly(named.token_program, false),
        AccountMeta::readonly(named.rent, false),
        AccountMeta::readonly(resolved.event_authority, false),
        AccountMeta::readonly(resolved.program, false),
    ]
}

/// The buy of a leg: the quantity to acquire, then the most to spend.
pub open spec fn buy_call(
    venue: DexType,
    resolved: ResolvedVenueAccounts,
    named: ExecuteArbitrageBatch,
    leg: ArbitrageParams,
) -> Result<EncodedCallView, MyErrorCode> {
    match venue {
        DexType::Meteora => Err(MyErrorCode::InvalidDexType),
        DexType::PumpFun => Ok(
            EncodedCallView {
                program_id: resolved.program,
                accounts: venue_account_list(resolved, named),
                data: payload(BUY_DISCRIMINATOR@, leg.tokens_to_buy, leg.max_sol_cost),
            },
        ),
    }
}

/// The sell of a leg: the quantity to dispose of, then the least to receive.
/// At the curve venue it names the accounts of the buy, in the same order.
pub open spec fn sell_call(
    venue: DexType,
    resolved: ResolvedVenueAccounts,
    named: ExecuteArbitrageBatch,
    leg: ArbitrageParams,
) -> Result<EncodedCallView, MyErrorCode> {
    match venue {
        DexType::Meteora => Err(MyErrorCode::InvalidDexType),
        DexType::PumpFun => Ok(
            EncodedCallView {
                program_id: resolved.program,
                accounts: venue_account_list(resolved, named),
                data: payload(SELL_DISCRIMINATOR@, leg.tokens_to_sell, leg.min_wsol_out),
            },
        ),
    }
}

/// The bytes of a number, lowest first, are its digits to the base 256.
pub proof fn lemma_le_bytes_are_digits(value: u64)
    ensures
        spec_u64_to_le_bytes(value) == le_bytes(value),
{
    reveal(le_bytes);
    spec_u64_to_le_bytes_to_open(value);
    assert(value & 0xff == value % 0x100) by (bit_vector);
    assert((value >> 8) & 0xff == value / 0x100 % 0x100) by (bit_vector);
    assert((value >> 16) & 0xff == value / 0x1_0000 % 0x100) by (bit_vector);
    assert((value >> 24) & 0xff == value / 0x100_0000 % 0x100) by (bit_vector);
    assert((value >> 32) & 0xff == value / 0x1_0000_0000 % 0x100) by (bit_vector);
    assert((value >> 40) & 0xff == value / 0x100_0000_0000 % 0x100) by (bit_vector);
    assert((value >> 48) & 0xff == value / 0x1_0000_0000_0000 % 0x100) by (bit_vector);
    assert((value >> 56) & 0xff == value / 0x100_0000_0000_0000 % 0x100) by (bit_vector);
    assert(spec_u64_to_le_bytes(value) =~= le_bytes(value));
}

/// Reading the eight bytes of a number gives the number back.
pub proof fn lemma_le_value_of_le_bytes(value: u64)
    ensures
        le_bytes(value).len() == 8,
        le_value(le_bytes(value)) == value,
{
    reveal(le_bytes);
    let v = value as int;
    let q1 = v / 0x100;
    let q2 = q1 / 0x100;
    let q3 = q2 / 0x100;
    let q4 = q3 / 0x100;
    let q5 = q4 / 0x100;
    let q6 = q5 / 0x100;
    let q7 = q6 / 0x100;
    lemma_div_denominator(v, 0x100, 0x100);
    lemma_div_denominator(v, 0x1_0000, 0x100);
    lemma_div_denominator(v, 0x100_0000, 0x100);
    lemma_div_denominator(v, 0x1_0000_0000, 0x100);
    lemma_div_denominator(v, 0x100_0000_0000, 0x100);
    lemma_div_denominator(v, 0x1_0000_0000_0000, 0x100);
    assert(q2 == v / 0x1_0000);
    assert(q3 == v / 0x100_0000);
    assert(q4 == v / 0x1_0000_0000);
    assert(q5 == v / 0x100_0000_0000);
    assert(q6 == v / 0x1_0000_0000_0000);
    assert(q7 == v / 0x100_0000_0000_0000);
    assert(q7 < 0x100);
    let bytes = le_bytes(value);
    assert(bytes[0] == v % 0x100);
    assert(bytes[1] == q1 % 0x100);
    assert(bytes[2] == q2 % 0x100);
    assert(bytes[3] == q3 % 0x100);
    assert(bytes[4] == q4 % 0x100);
    assert(bytes[5] == q5 % 0x100);
    assert(bytes[6] == q6 % 0x100);
    assert(bytes[7] == q7);
}

/// Decoding a payload under its layout recovers the quantity and the bound
/// that were encoded, whatever they are, behind the discriminator.
pub proof fn lemma_payload_round_trip(discriminator: Seq<u8>, quantity: u64, bound: u64)
    requires
        discriminator.len() == 8,
    ensures
        payload(discriminator, quantity, bound).len() == 24,
        payload(discriminator, quantity, bound).subrange(0, 8) == discriminator,
        payload_quantity(payload(discriminator, quantity, bound)) == quantity,
        payload_bound(payload(discriminator, quantity, bound)) == bound,
{
    let data = payload(discriminator, quantity, bound);
    lemma_le_value_of_le_bytes(quantity);
    lemma_le_value_of_le_bytes(bound);
    assert(data.subrange(0, 8) =~= discriminator);
    assert(data.subrange(8, 16) =~= le_bytes(quantity));
    assert(data.subrange(16, 24) =~= le_bytes(bound));
}

/// Lays out a payload: the discriminator, then the two numbers, each as eight
/// bytes with the lowest first.
pub fn encode_payload(discriminator: &[u8; 8], quantity: u64, bound: u64) -> (data: Vec<u8>)
    ensures
        data@ == payload(discriminator@, quantity, bound),
{
    let mut data: Vec<u8> = Vec::new();
    let mut i: usize = 0;
    while i < 8
        invariant
            i <= 8,
            data@ == discriminator@.subrange(0, i as int),
        decreases 8 - i,
    {
        data.push(discriminator[i]);
        i += 1;
        assert(data@ =~= discriminator@.subrange(0, i as int));
    }
    assert(discriminator@.subrange(0, 8) =~= discriminator@);
    let mut quantity_bytes = u64_to_le_bytes(quantity);
    let mut bound_bytes = u64_to_le_bytes(bound);
    proof {
        lemma_le_bytes_are_digits(quantity);
        lemma_le_bytes_are_digits(bound);
    }
    data.append(&mut quantity_bytes);
    data.append(&mut bound_bytes);
    data
}

/// Lists the accounts of a call to the curve venue in the order the venue
/// requires.
pub fn venue_accounts(resolved: &ResolvedVenueAccounts, named: &ExecuteArbitrageBatch) -> (list:
    Vec<AccountMeta>)
    ensures
        list@ == venue_account_list(*resolved, *named),
{
    let mut list: Vec<AccountMeta> = Vec::new();
    list.push(AccountMeta::new_readonly(resolved.global, false));
    list.push(AccountMeta::new(resolved.fee_recipient, false));
    list.push(AccountMeta::new_readonly(resolved.mint, false));
    list.push(AccountMeta::new(resolved.bonding_curve, false));
    list.push(AccountMeta::new(resolved.associated_bonding_curve, false));
    list.push(AccountMeta::new(resolved.user_token_account, false));
    list.push(AccountMeta::new(named.user, true));
    list.push(AccountMeta::new_readonly(named.system_program, false));
    list.push(AccountMeta::new_readonly(named.token_program, false));
    list.push(AccountMeta::new_readonly(named.rent, false));
    list.push(AccountMeta::new_readonly(resolved.event_authority, false));
    list.push(AccountMeta::new_readonly(resolved.program, false));
    assert(list@ =~= venue_account_list(*resolved, *named));
    list
}

/// Encodes the buy of a leg at `venue`; a venue without an encoder is refused.
pub fn encode_buy(
    venue: DexType,
    resolved: &ResolvedVenueAccounts,
    named: &ExecuteArbitrageBatch,
    leg: &ArbitrageParams,
) -> (r: Result<EncodedCall, MyErrorCode>)
    ensures
        match buy_call(venue, *resolved, *named, *leg) {
            Ok(call) => r matches Ok(encoded) && encoded@ == call,
            Err(error) => r == Err::<EncodedCall, MyErrorCode>(error),
        },
{
    match venue {
        DexType::Meteora => Err(MyErrorCode::InvalidDexType),
        DexType::PumpFun => Ok(
            EncodedCall {
                program_id: resolved.program,
                accounts: venue_accounts(resolved, named),
                data: encode_payload(&BUY_DISCRIMINATOR, leg.tokens_to_buy, leg.max_sol_cost),
            },
        ),
    }
}

/// Encodes the sell of a leg at `venue`; a venue without an encoder is
/// refused.
pub fn encode_sell(
    venue: DexType,
    resolved: &ResolvedVenueAccounts,
    named: &ExecuteArbitrageBatch,
    leg: &ArbitrageParams,
) -> (r: Result<EncodedCall, MyErrorCode>)
    ensures
        match sell_call(venue, *resolved, *named, *leg) {
            Ok(call) => r matches Ok(encoded) && encoded@ == call,
            Err(error) => r == Err::<EncodedCall, MyErrorCode>(error),
        },
{
    match venue {
        DexType::Meteora => Err(MyErrorCode::InvalidDexType),
        DexType::PumpFun => Ok(
            EncodedCall {
                program_id: resolved.program,
                accounts: venue_accounts(resolved, named),
                data: encode_payload(&SELL_DISCRIMINATOR, leg.tokens_to_sell, leg.min_wsol_out),
            },
        ),
    }
}

} // verus!
