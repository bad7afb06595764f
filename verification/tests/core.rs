use zo_gateway::addrs::Address;
use zo_gateway::decode::{
    decode_cache, decode_control, decode_dex_market, decode_margin, PositionSlot, CACHE_LEN,
    CACHE_TAG, CONTROL_LEN, CONTROL_TAG, MARGIN_LEN, MARGIN_TAG,
};
use zo_gateway::errs::Error;
use zo_gateway::portfolio::{collateral_balances, position_view, positions};
use zo_gateway::registry::{decode_state, CollateralEntry, MarketInfo, Snapshot, STATE_LEN, STATE_TAG};
use zo_gateway::units::{
    adjusted_balance, combine_units, ledger_to_parts, pow10_u64, quote_quantity,
};
use zo_gateway::slab::{decode_slab, slab_orders, SlabNode};
use zo_gateway::wire::parse_u128_dec;

fn addr(tag: u8) -> Address {
    let mut b = [0u8; 32];
    b[0] = tag;
    b[31] = tag;
    Address { bytes: b }
}

fn sample_snapshot() -> Snapshot {
    let mut markets = Vec::new();
    markets.push(MarketInfo {
        symbol: b"BTC-PERP".to_vec(),
        asset_decimals: 6,
        asset_lot_size: 100,
        quote_lot_size: 10,
        dex_market: addr(9),
    });
    for _ in 1..50 {
        markets.push(MarketInfo {
            symbol: Vec::new(),
            asset_decimals: 0,
            asset_lot_size: 0,
            quote_lot_size: 0,
            dex_market: Address::zero(),
        });
    }
    let mut collaterals = Vec::new();
    collaterals.push(CollateralEntry {
        mint: addr(7),
        oracle_symbol: b"USDC".to_vec(),
        decimals: 6,
    });
    for _ in 1..25 {
        collaterals.push(CollateralEntry {
            mint: Address::zero(),
            oracle_symbol: Vec::new(),
            decimals: 0,
        });
    }
    let mut vaults = Vec::new();
    for i in 0..25u8 {
        vaults.push(addr(100 + i));
    }
    Snapshot {
        cache: addr(3),
        vaults,
        collaterals,
        markets,
        active_markets: 1,
        active_collaterals: 1,
    }
}

#[test]
fn pow10_values() {
    assert_eq!(pow10_u64(0), 1);
    assert_eq!(pow10_u64(6), 1_000_000);
    assert_eq!(pow10_u64(19), 10_000_000_000_000_000_000);
}

#[test]
fn ledger_parts_positive() {
    assert_eq!(ledger_to_parts(1_234_567, 4), (123, 4567));
    assert_eq!(ledger_to_parts(999, 3), (0, 999));
    assert_eq!(ledger_to_parts(5, 0), (5, 0));
}

#[test]
fn ledger_parts_negative() {
    assert_eq!(ledger_to_parts(-1_234_567, 4), (-123, -4567));
    assert_eq!(ledger_to_parts(-1, 6), (0, -1));
}

#[test]
fn ledger_parts_extremes() {
    // the full digit range of an i128, and its most negative value
    let p38 = 100_000_000_000_000_000_000_000_000_000_000_000_000i128;
    assert_eq!(ledger_to_parts(p38 + 7, 38), (1, 7));
    assert_eq!(ledger_to_parts(i128::MIN, 0), (i128::MIN, 0));
    assert_eq!(
        ledger_to_parts(i128::MIN, 38),
        (i128::MIN / p38, i128::MIN % p38)
    );
}

#[test]
fn scale_round_trip_on_exact_values() {
    for (n, p) in [(0u64, 6u32), (1, 6), (1_000_000, 6), (987_654_321, 4), (42, 0)] {
        let (q, r) = ledger_to_parts(n as i128, p);
        assert_eq!(combine_units(q as u64, r as u64, p), n);
    }
}

#[test]
fn quote_quantity_exact_and_overflow() {
    // The scenario product: price lots times base lots times quote lot size.
    assert_eq!(quote_quantity(20_000, 150, 10), Some(30_000_000));
    assert_eq!(quote_quantity(0, 150, 10), Some(0));
    assert_eq!(quote_quantity(u64::MAX, 2, 1), None);
    assert_eq!(quote_quantity(u64::MAX, u64::MAX, u64::MAX), None);
}

#[test]
fn multiplier_selection_by_sign() {
    let one = 1i128 << 48;
    let two = 2i128 << 48;
    let five = 5i128 << 48;
    // Non-negative balance: supply multiplier.
    assert_eq!(adjusted_balance(five, one, two), Some(five));
    // Negative balance: borrow multiplier.
    assert_eq!(adjusted_balance(-five, one, two), Some(-(10i128 << 48)));
    // Zero balance is non-negative: supply multiplier applies.
    assert_eq!(adjusted_balance(0, one, two), Some(0));
}

fn margin_bytes() -> Vec<u8> {
    let mut b = vec![0u8; MARGIN_LEN];
    b[0..8].copy_from_slice(&MARGIN_TAG.to_le_bytes());
    b[9..41].copy_from_slice(&addr(5).bytes);
    // collateral[0] = 1_000_000 scaled by the 48 fractional bits
    let raw: i128 = 1_000_000i128 << 48;
    b[41..57].copy_from_slice(&raw.to_le_bytes());
    b[441..473].copy_from_slice(&addr(6).bytes);
    b
}

#[test]
fn margin_decodes() {
    let m = decode_margin(&margin_bytes()).unwrap();
    assert_eq!(m.authority, addr(5));
    assert_eq!(m.control, addr(6));
    assert_eq!(m.collateral.len(), 25);
    assert_eq!(m.collateral[0], 1_000_000i128 << 48);
    assert_eq!(m.collateral[1], 0);
}

#[test]
fn margin_rejects_bad_images() {
    assert!(matches!(decode_margin(&vec![0u8; 10]), Err(Error::Corrupt)));
    let mut b = margin_bytes();
    b[0] ^= 0xff;
    assert!(matches!(decode_margin(&b), Err(Error::Corrupt)));
    let mut b = margin_bytes();
    b.push(0);
    assert!(matches!(decode_margin(&b), Err(Error::Corrupt)));
}

fn control_bytes() -> Vec<u8> {
    let mut b = vec![0u8; CONTROL_LEN];
    b[0..8].copy_from_slice(&CONTROL_TAG.to_le_bytes());
    b[8..40].copy_from_slice(&addr(5).bytes);
    // slot 0: live, short position
    let base = 40;
    b[base..base + 32].copy_from_slice(&addr(8).bytes);
    b[base + 32..base + 40].copy_from_slice(&3_000_000i64.to_le_bytes());
    b[base + 40..base + 48].copy_from_slice(&(-1_500_000i64).to_le_bytes());
    b[base + 48..base + 56].copy_from_slice(&250i64.to_le_bytes());
    b[base + 73..base + 89].copy_from_slice(&7i128.to_le_bytes());
    // slot 1 left all zero: uninitialized
    b
}

#[test]
fn control_decodes() {
    let c = decode_control(&control_bytes()).unwrap();
    assert_eq!(c.open_orders.len(), 50);
    assert_eq!(c.open_orders[0].key, addr(8));
    assert_eq!(c.open_orders[0].native_pc_total, 3_000_000);
    assert_eq!(c.open_orders[0].pos_size, -1_500_000);
    assert_eq!(c.open_orders[0].realized_pnl, 250);
    assert_eq!(c.open_orders[0].funding_index, 7);
}

#[test]
fn control_rejects_bad_tag() {
    let mut b = control_bytes();
    b[3] ^= 1;
    assert!(matches!(decode_control(&b), Err(Error::Corrupt)));
}

#[test]
fn zero_slot_presents_uninitialized() {
    // Whatever the other fields hold, the zero address decides.
    let slot = PositionSlot {
        key: Address::zero(),
        native_pc_total: 55,
        pos_size: -4,
        realized_pnl: 99,
        funding_index: 123,
    };
    let v = position_view(&slot);
    assert!(!v.initialized);
    assert_eq!(v.pos_size, 0);
    assert_eq!(v.native_pc_total, 0);
    assert_eq!(v.realized_pnl, 0);
    assert_eq!(v.funding_index, 1_000_000);
    assert!(v.is_long);
}

#[test]
fn live_slot_presents_its_fields() {
    let slot = PositionSlot {
        key: addr(8),
        native_pc_total: 3_000_000,
        pos_size: -1_500_000,
        realized_pnl: 250,
        funding_index: 7,
    };
    let v = position_view(&slot);
    assert!(v.initialized);
    assert_eq!(v.pos_size, -1_500_000);
    assert!(!v.is_long);
}

#[test]
fn positions_are_market_aligned() {
    let snap = sample_snapshot();
    let control = decode_control(&control_bytes()).unwrap();
    let r = positions(&snap, &control);
    assert_eq!(r.len(), 1);
    assert_eq!(r[0].0, b"BTC-PERP".to_vec());
    assert!(r[0].1.initialized);
    assert!(!r[0].1.is_long);
}

fn cache_bytes() -> Vec<u8> {
    let mut b = vec![0u8; CACHE_LEN];
    b[0..8].copy_from_slice(&CACHE_TAG.to_le_bytes());
    let base = 10133;
    // entry 0: supply multiplier 1.0, borrow multiplier 2.0
    b[base + 32..base + 48].copy_from_slice(&(1i128 << 48).to_le_bytes());
    b[base + 48..base + 64].copy_from_slice(&(2i128 << 48).to_le_bytes());
    b
}

#[test]
fn cache_decodes() {
    let c = decode_cache(&cache_bytes()).unwrap();
    assert_eq!(c.borrow_cache.len(), 25);
    assert_eq!(c.borrow_cache[0].supply_multiplier, 1i128 << 48);
    assert_eq!(c.borrow_cache[0].borrow_multiplier, 2i128 << 48);
}

#[test]
fn one_market_one_collateral_balance_scenario() {
    // Snapshot with market "BTC-PERP" (decimals 6) and collateral "USDC"
    // (decimals 6, supply multiplier one); margin balance 1_000_000 raw
    // must come out as exactly 1.0 once scaled down for display.
    let snap = sample_snapshot();
    let margin = decode_margin(&margin_bytes()).unwrap();
    let cache = decode_cache(&cache_bytes()).unwrap();
    let r = collateral_balances(&snap, &margin, &cache).unwrap();
    assert_eq!(r.len(), 1);
    assert_eq!(r[0].0, b"USDC".to_vec());
    assert_eq!(r[0].1, 1_000_000i128 << 48);
    let display = (r[0].1 as f64) / (1u64 << 48) as f64 / 1e6;
    assert_eq!(display, 1.0);
}

fn dex_market_bytes() -> Vec<u8> {
    let mut b = vec![0u8; 1372];
    b[0..5].copy_from_slice(b"serum");
    b[1365..1372].copy_from_slice(b"padding");
    b[5..13].copy_from_slice(&515u64.to_le_bytes());
    b[13..45].copy_from_slice(&addr(20).bytes);
    b[53..85].copy_from_slice(&addr(21).bytes);
    b[85..117].copy_from_slice(&addr(22).bytes);
    b[117..149].copy_from_slice(&addr(23).bytes);
    b[149..181].copy_from_slice(&addr(24).bytes);
    b[181..189].copy_from_slice(&100u64.to_le_bytes());
    b[189..197].copy_from_slice(&10u64.to_le_bytes());
    b[253..261].copy_from_slice(&6u64.to_le_bytes());
    b
}

#[test]
fn dex_market_decodes() {
    let m = decode_dex_market(&dex_market_bytes()).unwrap();
    assert_eq!(m.own_address, addr(20));
    assert_eq!(m.req_q, addr(21));
    assert_eq!(m.event_q, addr(22));
    assert_eq!(m.bids, addr(23));
    assert_eq!(m.asks, addr(24));
    assert_eq!(m.coin_lot_size, 100);
    assert_eq!(m.pc_lot_size, 10);
    assert_eq!(m.coin_decimals, 6);
}

#[test]
fn dex_market_rejects_bad_flags() {
    let mut b = dex_market_bytes();
    b[5..13].copy_from_slice(&3u64.to_le_bytes());
    assert!(matches!(decode_dex_market(&b), Err(Error::Corrupt)));
    let mut b = dex_market_bytes();
    b[0] = b'x';
    assert!(matches!(decode_dex_market(&b), Err(Error::Corrupt)));
}

fn state_bytes() -> Vec<u8> {
    let mut b = vec![0u8; STATE_LEN];
    b[0..8].copy_from_slice(&STATE_TAG.to_le_bytes());
    b[41..73].copy_from_slice(&addr(3).bytes);
    // vault 0
    b[313..345].copy_from_slice(&addr(100).bytes);
    // collateral 0: mint, oracle symbol "USDC", decimals 6
    let cb = 1113;
    b[cb..cb + 32].copy_from_slice(&addr(7).bytes);
    b[cb + 32..cb + 36].copy_from_slice(b"USDC");
    b[cb + 56] = 6;
    // market 0: symbol "BTC-PERP", decimals 6, lot sizes, book address
    let mb = 13538;
    b[mb..mb + 8].copy_from_slice(b"BTC-PERP");
    b[mb + 49] = 6;
    b[mb + 50..mb + 58].copy_from_slice(&100u64.to_le_bytes());
    b[mb + 58..mb + 66].copy_from_slice(&10u64.to_le_bytes());
    b[mb + 78..mb + 110].copy_from_slice(&addr(9).bytes);
    b
}

#[test]
fn state_decodes_with_sentinel_counts() {
    let s = decode_state(&state_bytes()).unwrap();
    assert_eq!(s.active_markets, 1);
    assert_eq!(s.active_collaterals, 1);
    assert_eq!(s.cache, addr(3));
    assert_eq!(s.vaults[0], addr(100));
    assert_eq!(s.collaterals[0].oracle_symbol, b"USDC".to_vec());
    assert_eq!(s.collaterals[0].decimals, 6);
    assert_eq!(s.collaterals[0].mint, addr(7));
    assert_eq!(s.markets[0].symbol, b"BTC-PERP".to_vec());
    assert_eq!(s.markets[0].asset_decimals, 6);
    assert_eq!(s.markets[0].asset_lot_size, 100);
    assert_eq!(s.markets[0].quote_lot_size, 10);
    assert_eq!(s.markets[0].dex_market, addr(9));
}

#[test]
fn state_rejects_bad_images() {
    assert!(matches!(decode_state(&vec![0u8; 100]), Err(Error::Corrupt)));
    let mut b = state_bytes();
    b[7] ^= 1;
    assert!(matches!(decode_state(&b), Err(Error::Corrupt)));
}

#[test]
fn order_id_filter_parsing() {
    assert_eq!(parse_u128_dec(&b"0".to_vec()).unwrap(), 0);
    assert_eq!(parse_u128_dec(&b"123456789".to_vec()).unwrap(), 123_456_789);
    assert_eq!(
        parse_u128_dec(&b"340282366920938463463374607431768211455".to_vec()).unwrap(),
        u128::MAX
    );
    assert!(matches!(
        parse_u128_dec(&b"340282366920938463463374607431768211456".to_vec()),
        Err(Error::InvalidInteger)
    ));
    // a leading plus sign is accepted, as the radix parser accepted it
    assert_eq!(parse_u128_dec(&b"+123".to_vec()).unwrap(), 123);
    assert!(matches!(parse_u128_dec(&b"+".to_vec()), Err(Error::InvalidInteger)));
    assert!(matches!(parse_u128_dec(&b"".to_vec()), Err(Error::InvalidInteger)));
    assert!(matches!(parse_u128_dec(&b"12a".to_vec()), Err(Error::InvalidInteger)));
    assert!(matches!(parse_u128_dec(&b"-5".to_vec()), Err(Error::InvalidInteger)));
}

#[test]
fn error_kind_codes_are_distinct() {
    assert_eq!(Error::MarketSymbolNotFound(b"X".to_vec()).kind_code(), 0);
    assert_eq!(Error::CollateralSymbolNotFound(b"X".to_vec()).kind_code(), 1);
    assert_eq!(Error::OpenOrdersNotFound(b"X".to_vec()).kind_code(), 2);
    assert_eq!(Error::Corrupt.kind_code(), 3);
    assert_eq!(Error::InvalidAddress.kind_code(), 4);
    assert_eq!(Error::InvalidInteger.kind_code(), 5);
}

fn slab_bytes(nodes: &[(u32, [u8; 68])]) -> Vec<u8> {
    let mut b = vec![0u8; 45 + 72 * nodes.len() + 7];
    b[0..5].copy_from_slice(b"serum");
    let n = b.len();
    b[n - 7..].copy_from_slice(b"padding");
    // initialized | bids
    b[5..13].copy_from_slice(&(1u64 | 32).to_le_bytes());
    b[33..37].copy_from_slice(&0u32.to_le_bytes()); // root
    b[37..41].copy_from_slice(&2u32.to_le_bytes()); // leaf count
    for (i, (tag, body)) in nodes.iter().enumerate() {
        let base = 45 + 72 * i;
        b[base..base + 4].copy_from_slice(&tag.to_le_bytes());
        b[base + 4..base + 72].copy_from_slice(body);
    }
    b
}

fn leaf_body(price_lots: u64, quantity: u64, client: u64, ctl: u8) -> [u8; 68] {
    let mut body = [0u8; 68];
    body[0] = 3; // owner slot
    body[1] = 1; // fee tier
    let order_id = ((price_lots as u128) << 64) | 77;
    body[4..20].copy_from_slice(&order_id.to_le_bytes());
    body[20..52].copy_from_slice(&addr(ctl).bytes);
    body[52..60].copy_from_slice(&quantity.to_le_bytes());
    body[60..68].copy_from_slice(&client.to_le_bytes());
    body
}

fn inner_body(lo: u32, hi: u32) -> [u8; 68] {
    let mut body = [0u8; 68];
    body[20..24].copy_from_slice(&lo.to_le_bytes());
    body[24..28].copy_from_slice(&hi.to_le_bytes());
    body
}

#[test]
fn slab_traversal_yields_front_to_back_order() {
    let b = slab_bytes(&[
        (1, inner_body(1, 2)),
        (2, leaf_body(100, 5, 11, 30)),
        (2, leaf_body(200, 7, 12, 31)),
    ]);
    let v = decode_slab(&b).unwrap();
    assert!(v.is_bids);
    assert_eq!(v.leaf_count, 2);
    assert_eq!(v.nodes.len(), 3);
    assert!(matches!(v.nodes[0], SlabNode::Inner(1, 2)));
    let orders = slab_orders(&v).unwrap();
    assert_eq!(orders.len(), 2);
    // the lower child of the branch comes out first
    assert_eq!(orders[0].price_lots, 100);
    assert_eq!(orders[0].quantity, 5);
    assert_eq!(orders[0].client_order_id, 11);
    assert_eq!(orders[0].control, addr(30));
    assert_eq!(orders[0].order_id, ((100u128) << 64) | 77);
    assert_eq!(orders[1].price_lots, 200);
    assert_eq!(orders[1].owner_slot, 3);
}

#[test]
fn slab_with_no_leaves_is_empty() {
    let mut b = slab_bytes(&[(0, [0u8; 68])]);
    b[37..41].copy_from_slice(&0u32.to_le_bytes());
    let v = decode_slab(&b).unwrap();
    assert_eq!(slab_orders(&v).unwrap().len(), 0);
}

#[test]
fn slab_rejects_bad_structures() {
    // unknown node tag
    let b = slab_bytes(&[(9, [0u8; 68])]);
    assert!(matches!(decode_slab(&b), Err(Error::Corrupt)));
    // both sides flagged at once
    let mut b = slab_bytes(&[(0, [0u8; 68])]);
    b[5..13].copy_from_slice(&(1u64 | 32 | 64).to_le_bytes());
    assert!(matches!(decode_slab(&b), Err(Error::Corrupt)));
    // a cyclic tree runs out of fuel instead of looping
    let v = decode_slab(&slab_bytes(&[(1, inner_body(0, 0))])).unwrap();
    assert!(matches!(slab_orders(&v), Err(Error::Corrupt)));
    // a child index outside the node array
    let v = decode_slab(&slab_bytes(&[(1, inner_body(5, 6))])).unwrap();
    assert!(matches!(slab_orders(&v), Err(Error::Corrupt)));
    // a dead node ends the walk cleanly
    let v = decode_slab(&slab_bytes(&[(3, [0u8; 68])])).unwrap();
    assert_eq!(slab_orders(&v).unwrap().len(), 0);
}
