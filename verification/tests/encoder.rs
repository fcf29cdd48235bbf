use dex_arbitrage_router::{
    encode_buy, encode_payload, encode_sell, venue_accounts, AccountMeta, Address,
    ArbitrageParams, DexType, ExecuteArbitrageBatch, MyErrorCode, ResolvedVenueAccounts,
    RouterState, BUY_DISCRIMINATOR, SELL_DISCRIMINATOR,
};

fn at(byte: u8) -> Address {
    Address { bytes: [byte; 32] }
}

fn resolved() -> ResolvedVenueAccounts {
    ResolvedVenueAccounts {
        program: at(1),
        global: at(2),
        fee_recipient: at(3),
        mint: at(4),
        bonding_curve: at(5),
        associated_bonding_curve: at(6),
        user_token_account: at(7),
        event_authority: at(8),
    }
}

fn named() -> ExecuteArbitrageBatch {
    ExecuteArbitrageBatch {
        router_state: RouterState { owner: at(20), is_paused: false, bump: 1 },
        user: at(21),
        user_wsol_account: at(22),
        token_program: at(23),
        system_program: at(24),
        rent: at(25),
    }
}

fn leg(buy: DexType, sell: DexType) -> ArbitrageParams {
    ArbitrageParams {
        token_mint: at(4),
        amount_in: 999,
        min_wsol_out: 0x0807_0605_0403_0201,
        buy_dex: buy,
        sell_dex: sell,
        accounts_count: 8,
        tokens_to_buy: 1_000_000,
        max_sol_cost: 42,
        tokens_to_sell: 258,
    }
}

fn decode(data: &[u8]) -> ([u8; 8], u64, u64) {
    assert_eq!(data.len(), 24);
    let mut tag = [0u8; 8];
    tag.copy_from_slice(&data[..8]);
    let mut quantity = [0u8; 8];
    quantity.copy_from_slice(&data[8..16]);
    let mut bound = [0u8; 8];
    bound.copy_from_slice(&data[16..24]);
    (tag, u64::from_le_bytes(quantity), u64::from_le_bytes(bound))
}

#[test]
fn discriminators_are_the_venue_s() {
    assert_eq!(BUY_DISCRIMINATOR, [0x66, 0x06, 0x3d, 0x12, 0x01, 0xda, 0xeb, 0xea]);
    assert_eq!(SELL_DISCRIMINATOR, [0x33, 0xe6, 0x85, 0xa4, 0x01, 0x7f, 0x83, 0xad]);
}

#[test]
fn payload_of_zero_is_discriminator_and_zeros() {
    let data = encode_payload(&BUY_DISCRIMINATOR, 0, 0);
    let mut expected = BUY_DISCRIMINATOR.to_vec();
    expected.extend_from_slice(&[0u8; 16]);
    assert_eq!(data, expected);
}

#[test]
fn payload_puts_the_lowest_byte_first() {
    let data = encode_payload(&SELL_DISCRIMINATOR, 1, 0x0102_0304_0506_0708);
    assert_eq!(
        data,
        vec![
            0x33, 0xe6, 0x85, 0xa4, 0x01, 0x7f, 0x83, 0xad, 1, 0, 0, 0, 0, 0, 0, 0, 8, 7, 6, 5, 4,
            3, 2, 1
        ]
    );
}

#[test]
fn payload_of_the_largest_values_is_all_ones() {
    let data = encode_payload(&BUY_DISCRIMINATOR, u64::MAX, u64::MAX);
    assert_eq!(&data[..8], &BUY_DISCRIMINATOR);
    assert_eq!(&data[8..], &[0xffu8; 16]);
}

#[test]
fn payload_round_trips_at_the_boundaries() {
    for quantity in [0u64, 1, u64::MAX] {
        for bound in [0u64, 1, u64::MAX] {
            let data = encode_payload(&BUY_DISCRIMINATOR, quantity, bound);
            assert_eq!(decode(&data), (BUY_DISCRIMINATOR, quantity, bound));
        }
    }
}

#[test]
fn payload_round_trips_in_between() {
    for (quantity, bound) in
        [(255u64, 256u64), (65_535, 65_536), (1 << 32, (1 << 32) - 1), (1 << 63, 0x00ff_00ff_00ff_00ff)]
    {
        let data = encode_payload(&SELL_DISCRIMINATOR, quantity, bound);
        assert_eq!(decode(&data), (SELL_DISCRIMINATOR, quantity, bound));
    }
}

#[test]
fn accounts_stand_in_the_venue_s_order() {
    let list = venue_accounts(&resolved(), &named());
    let expected = vec![
        AccountMeta { pubkey: at(2), is_signer: false, is_writable: false },
        AccountMeta { pubkey: at(3), is_signer: false, is_writable: true },
        AccountMeta { pubkey: at(4), is_signer: false, is_writable: false },
        AccountMeta { pubkey: at(5), is_signer: false, is_writable: true },
        AccountMeta { pubkey: at(6), is_signer: false, is_writable: true },
        AccountMeta { pubkey: at(7), is_signer: false, is_writable: true },
        AccountMeta { pubkey: at(21), is_signer: true, is_writable: true },
        AccountMeta { pubkey: at(24), is_signer: false, is_writable: false },
        AccountMeta { pubkey: at(23), is_signer: false, is_writable: false },
        AccountMeta { pubkey: at(25), is_signer: false, is_writable: false },
        AccountMeta { pubkey: at(8), is_signer: false, is_writable: false },
        AccountMeta { pubkey: at(1), is_signer: false, is_writable: false },
    ];
    assert_eq!(list, expected);
}

#[test]
fn account_meta_constructors_set_the_write_flag() {
    assert_eq!(
        AccountMeta::new(at(1), true),
        AccountMeta { pubkey: at(1), is_signer: true, is_writable: true }
    );
    assert_eq!(
        AccountMeta::new_readonly(at(1), false),
        AccountMeta { pubkey: at(1), is_signer: false, is_writable: false }
    );
}

#[test]
fn buy_carries_quantity_then_cost() {
    let leg = leg(DexType::PumpFun, DexType::PumpFun);
    let call = encode_buy(DexType::PumpFun, &resolved(), &named(), &leg).unwrap();
    assert_eq!(call.program_id, at(1));
    assert_eq!(call.accounts, venue_accounts(&resolved(), &named()));
    assert_eq!(decode(&call.data), (BUY_DISCRIMINATOR, 1_000_000, 42));
    assert_eq!(
        call.data,
        vec![
            0x66, 0x06, 0x3d, 0x12, 0x01, 0xda, 0xeb, 0xea, 0x40, 0x42, 0x0f, 0, 0, 0, 0, 0, 42, 0,
            0, 0, 0, 0, 0, 0
        ]
    );
}

#[test]
fn sell_carries_quantity_then_least_proceeds() {
    let leg = leg(DexType::PumpFun, DexType::PumpFun);
    let call = encode_sell(DexType::PumpFun, &resolved(), &named(), &leg).unwrap();
    assert_eq!(call.program_id, at(1));
    assert_eq!(decode(&call.data), (SELL_DISCRIMINATOR, 258, 0x0807_0605_0403_0201));
    assert_eq!(
        call.data,
        vec![
            0x33, 0xe6, 0x85, 0xa4, 0x01, 0x7f, 0x83, 0xad, 2, 1, 0, 0, 0, 0, 0, 0, 1, 2, 3, 4, 5,
            6, 7, 8
        ]
    );
}

#[test]
fn sell_names_the_accounts_of_the_buy() {
    let leg = leg(DexType::PumpFun, DexType::PumpFun);
    let buy = encode_buy(DexType::PumpFun, &resolved(), &named(), &leg).unwrap();
    let sell = encode_sell(DexType::PumpFun, &resolved(), &named(), &leg).unwrap();
    assert_eq!(buy.accounts, sell.accounts);
    assert_eq!(buy.program_id, sell.program_id);
    assert_ne!(buy.data, sell.data);
}

#[test]
fn venue_without_encoder_is_refused() {
    let leg = leg(DexType::Meteora, DexType::Meteora);
    assert_eq!(
        encode_buy(DexType::Meteora, &resolved(), &named(), &leg),
        Err(MyErrorCode::InvalidDexType)
    );
    assert_eq!(
        encode_sell(DexType::Meteora, &resolved(), &named(), &leg),
        Err(MyErrorCode::InvalidDexType)
    );
}
