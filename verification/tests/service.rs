use zo_gateway::addrs::Address;
use zo_gateway::builder::{
    build_cancel_order, build_deposit, build_place_order, build_withdraw, OrderType, Side,
    CANCEL_ORDER_TAG, DEPOSIT_TAG, PLACE_ORDER_TAG, WITHDRAW_TAG,
};
use zo_gateway::decode::{decode_control, decode_dex_market, decode_margin};
use zo_gateway::errs::Error;
use zo_gateway::pda::{margin_address, parse_address, state_signer_address};
use zo_gateway::registry::{decode_state, Snapshot, State, STATE_LEN, STATE_TAG};

fn addr(tag: u8) -> Address {
    let mut b = [0u8; 32];
    b[0] = tag;
    b[31] = tag;
    Address { bytes: b }
}

fn state_bytes() -> Vec<u8> {
    let mut b = vec![0u8; STATE_LEN];
    b[0..8].copy_from_slice(&STATE_TAG.to_le_bytes());
    b[41..73].copy_from_slice(&addr(3).bytes);
    b[313..345].copy_from_slice(&addr(100).bytes);
    let cb = 1113;
    b[cb..cb + 32].copy_from_slice(&addr(7).bytes);
    b[cb + 32..cb + 36].copy_from_slice(b"USDC");
    b[cb + 56] = 6;
    let mb = 13538;
    b[mb..mb + 8].copy_from_slice(b"BTC-PERP");
    b[mb + 49] = 6;
    b[mb + 50..mb + 58].copy_from_slice(&100u64.to_le_bytes());
    b[mb + 58..mb + 66].copy_from_slice(&10u64.to_le_bytes());
    b[mb + 78..mb + 110].copy_from_slice(&addr(9).bytes);
    b
}

fn service() -> State {
    let snap: Snapshot = decode_state(&state_bytes()).unwrap();
    State::new(addr(1), snap).unwrap()
}

fn margin_bytes() -> Vec<u8> {
    let mut b = vec![0u8; 793];
    b[0..8].copy_from_slice(&zo_gateway::decode::MARGIN_TAG.to_le_bytes());
    b[9..41].copy_from_slice(&addr(1).bytes);
    b[441..473].copy_from_slice(&addr(6).bytes);
    b
}

fn control_bytes(slot0_key: Address) -> Vec<u8> {
    let mut b = vec![0u8; 4490];
    b[0..8].copy_from_slice(&zo_gateway::decode::CONTROL_TAG.to_le_bytes());
    b[8..40].copy_from_slice(&addr(1).bytes);
    b[40..72].copy_from_slice(&slot0_key.bytes);
    b
}

fn dex_market_bytes() -> Vec<u8> {
    let mut b = vec![0u8; 1372];
    b[0..5].copy_from_slice(b"serum");
    b[1365..1372].copy_from_slice(b"padding");
    b[5..13].copy_from_slice(&515u64.to_le_bytes());
    b[13..45].copy_from_slice(&addr(20).bytes);
    b[53..85].copy_from_slice(&addr(21).bytes);
    b[85..117].copy_from_slice(&addr(22).bytes);
    b[117..149].copy_from_slice(&addr(23).bytes);
    b[149..181].copy_from_slice(&addr(24).bytes);
    b[181..189].copy_from_slice(&100u64.to_le_bytes());
    b[189..197].copy_from_slice(&10u64.to_le_bytes());
    b[253..261].copy_from_slice(&6u64.to_le_bytes());
    b
}

#[test]
fn derivation_is_deterministic() {
    let a = addr(1);
    let first = margin_address(&a).unwrap();
    let second = margin_address(&a).unwrap();
    assert_eq!(first, second);
    let s1 = state_signer_address().unwrap();
    let s2 = state_signer_address().unwrap();
    assert_eq!(s1, s2);
}

#[test]
fn derivation_depends_on_every_seed_byte() {
    let base = margin_address(&addr(1)).unwrap();
    for flip in [0usize, 13, 31] {
        let mut other = addr(1);
        other.bytes[flip] ^= 1;
        assert_ne!(margin_address(&other).unwrap(), base);
    }
    assert_ne!(base, state_signer_address().unwrap());
}

#[test]
fn address_parsing_round_trips() {
    // The all-ones spelling decodes to the all-zero address.
    let a = parse_address("11111111111111111111111111111111").unwrap();
    assert_eq!(a, Address::zero());
    assert!(parse_address("not/base58!").is_none());
    assert!(parse_address("").is_none());
}

#[test]
fn resolution_is_stable_across_calls() {
    let st = service();
    let m1 = st.market(&b"BTC-PERP".to_vec()).unwrap();
    assert_eq!(m1.asset_decimals, 6);
    let d1 = m1.dex_market;
    let m2 = st.market(&b"BTC-PERP".to_vec()).unwrap();
    assert_eq!(d1, m2.dex_market);
    let c1 = st.collateral(&b"USDC".to_vec()).unwrap();
    assert_eq!(c1.decimals, 6);
    let mint = c1.mint;
    let c2 = st.collateral(&b"USDC".to_vec()).unwrap();
    assert_eq!(mint, c2.mint);
    assert_eq!(st.vault(&b"USDC".to_vec()).unwrap(), addr(100));
}

#[test]
fn unknown_symbols_yield_distinct_errors() {
    let st = service();
    assert!(matches!(
        st.market(&b"ETH-PERP".to_vec()),
        Err(Error::MarketSymbolNotFound(_))
    ));
    assert!(matches!(
        st.collateral(&b"ETH".to_vec()),
        Err(Error::CollateralSymbolNotFound(_))
    ));
    assert!(matches!(
        st.vault(&b"ETH".to_vec()),
        Err(Error::CollateralSymbolNotFound(_))
    ));
}

#[test]
fn open_orders_lookup() {
    let st = service();
    let live = decode_control(&control_bytes(addr(8))).unwrap();
    assert_eq!(st.oo(&live, &b"BTC-PERP".to_vec()).unwrap(), addr(8));
    let empty = decode_control(&control_bytes(Address::zero())).unwrap();
    assert!(matches!(
        st.oo(&empty, &b"BTC-PERP".to_vec()),
        Err(Error::OpenOrdersNotFound(_))
    ));
    assert!(matches!(
        st.oo(&live, &b"ETH-PERP".to_vec()),
        Err(Error::MarketSymbolNotFound(_))
    ));
}

#[test]
fn deposit_builds_exact_payload_and_accounts() {
    let st = service();
    let ix = build_deposit(&st, &b"USDC".to_vec(), false, 1, 5, Some(addr(40))).unwrap();
    let mut expect = Vec::new();
    expect.extend_from_slice(&DEPOSIT_TAG.to_le_bytes());
    expect.push(0);
    expect.extend_from_slice(&1_000_005u64.to_le_bytes());
    assert_eq!(ix.data, expect);
    assert_eq!(ix.accounts.len(), 8);
    assert_eq!(ix.accounts[0].addr.bytes, zo_gateway::pda::ZO_STATE_KEY);
    assert_eq!(ix.accounts[1].addr, st.zo_state_signer);
    assert_eq!(ix.accounts[2].addr, addr(3));
    assert_eq!(ix.accounts[3].addr, addr(1));
    assert!(ix.accounts[3].is_signer);
    assert_eq!(ix.accounts[4].addr, st.zo_margin_key);
    assert_eq!(ix.accounts[5].addr, addr(40));
    assert_eq!(ix.accounts[6].addr, addr(100));
    assert_eq!(ix.accounts[7].addr.bytes, zo_gateway::pda::TOKEN_PROGRAM_ID);
    assert_eq!(ix.program.bytes, zo_gateway::pda::ZO_PROGRAM_ID);
}

#[test]
fn deposit_rejects_bad_amounts_and_symbols() {
    let st = service();
    assert!(matches!(
        build_deposit(&st, &b"ETH".to_vec(), false, 1, 0, None),
        Err(Error::CollateralSymbolNotFound(_))
    ));
    // fractional part not truncated to the collateral's six digits
    assert!(matches!(
        build_deposit(&st, &b"USDC".to_vec(), false, 1, 1_000_000, Some(addr(40))),
        Err(Error::InvalidInteger)
    ));
    // whole part too large for the wire field
    assert!(matches!(
        build_deposit(&st, &b"USDC".to_vec(), false, u64::MAX, 0, Some(addr(40))),
        Err(Error::InvalidInteger)
    ));
}

#[test]
fn withdraw_references_the_fetched_control() {
    let st = service();
    let margin = decode_margin(&margin_bytes()).unwrap();
    let ix = build_withdraw(&st, &margin, &b"USDC".to_vec(), true, 2, 0, Some(addr(40))).unwrap();
    let mut expect = Vec::new();
    expect.extend_from_slice(&WITHDRAW_TAG.to_le_bytes());
    expect.push(1);
    expect.extend_from_slice(&2_000_000u64.to_le_bytes());
    assert_eq!(ix.data, expect);
    assert_eq!(ix.accounts.len(), 9);
    assert_eq!(ix.accounts[5].addr, addr(6));
    assert_eq!(ix.accounts[6].addr, addr(40));
    assert_eq!(ix.accounts[7].addr, addr(100));
}

#[test]
fn place_order_builds_payload_and_rejects_overflow() {
    let st = service();
    let margin = decode_margin(&margin_bytes()).unwrap();
    let mkt = decode_dex_market(&dex_market_bytes()).unwrap();
    let ix = build_place_order(
        &st,
        &mkt,
        &margin,
        addr(8),
        Side::Bid,
        OrderType::Limit,
        20_000,
        150,
        None,
        None,
    )
    .unwrap();
    let mut expect = Vec::new();
    expect.extend_from_slice(&PLACE_ORDER_TAG.to_le_bytes());
    expect.push(1);
    expect.extend_from_slice(&20_000u64.to_le_bytes());
    expect.extend_from_slice(&150u64.to_le_bytes());
    expect.extend_from_slice(&30_000_000u64.to_le_bytes());
    expect.push(0);
    expect.extend_from_slice(&20u16.to_le_bytes());
    expect.extend_from_slice(&0u64.to_le_bytes());
    assert_eq!(ix.data, expect);
    assert_eq!(ix.accounts.len(), 14);
    assert_eq!(ix.accounts[6].addr, addr(8));
    assert_eq!(ix.accounts[7].addr, addr(20));
    assert_eq!(ix.accounts[13].addr.bytes, zo_gateway::pda::RENT_SYSVAR_ID);
    // an unrepresentable quote quantity is rejected, not wrapped
    assert!(matches!(
        build_place_order(
            &st,
            &mkt,
            &margin,
            addr(8),
            Side::Ask,
            OrderType::FillOrKill,
            u64::MAX,
            u64::MAX,
            Some(5),
            Some(7),
        ),
        Err(Error::InvalidInteger)
    ));
}

#[test]
fn cancel_with_no_filters_stays_unconstrained() {
    let st = service();
    let margin = decode_margin(&margin_bytes()).unwrap();
    let mkt = decode_dex_market(&dex_market_bytes()).unwrap();
    let ix = build_cancel_order(&st, &mkt, &margin, addr(8), None, None, None);
    let mut expect = Vec::new();
    expect.extend_from_slice(&CANCEL_ORDER_TAG.to_le_bytes());
    expect.push(0);
    expect.push(0);
    expect.push(0);
    assert_eq!(ix.data, expect);
    assert_eq!(ix.accounts.len(), 11);
}

#[test]
fn cancel_passes_filters_through() {
    let st = service();
    let margin = decode_margin(&margin_bytes()).unwrap();
    let mkt = decode_dex_market(&dex_market_bytes()).unwrap();
    let ix = build_cancel_order(
        &st,
        &mkt,
        &margin,
        addr(8),
        Some(77u128),
        Some(Side::Ask),
        Some(42u64),
    );
    let mut expect = Vec::new();
    expect.extend_from_slice(&CANCEL_ORDER_TAG.to_le_bytes());
    expect.push(1);
    expect.extend_from_slice(&77u128.to_le_bytes());
    expect.push(1);
    expect.push(0);
    expect.push(1);
    expect.extend_from_slice(&42u64.to_le_bytes());
    assert_eq!(ix.data, expect);
    assert_eq!(ix.accounts[9].addr, addr(22));
    assert_eq!(ix.accounts[10].addr.bytes, zo_gateway::pda::ZO_DEX_PROGRAM_ID);
}

#[test]
fn live_prefix_getters_stop_at_the_sentinel() {
    let st = service();
    let markets = st.zo_markets();
    assert_eq!(markets.len(), 1);
    assert_eq!(markets[0].symbol, b"BTC-PERP".to_vec());
    assert_eq!(markets[0].quote_lot_size, 10);
    let collaterals = st.zo_collaterals();
    assert_eq!(collaterals.len(), 1);
    assert_eq!(collaterals[0].oracle_symbol, b"USDC".to_vec());
    assert_eq!(collaterals[0].mint, addr(7));
}
