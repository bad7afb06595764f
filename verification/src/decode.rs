use vstd::prelude::*;
use crate::addrs::Address;
use crate::errs::Error;
use crate::wire::{le_val, signed128, signed64, read_address, read_i128_le, read_i64_le, read_u64_le};

verus! {

/// Tag of a margin account, the first eight bytes of its data.
pub const MARGIN_TAG: u64 = 0x30a1c450c38e1198;

/// Tag of a control account.
pub const CONTROL_TAG: u64 = 0x287ff02af6420a3d;

/// Tag of the global cache account.
pub const CACHE_TAG: u64 = 0x9916dccbbcd6e54a;

/// Byte length of a margin account.
pub const MARGIN_LEN: usize = 793;

/// Byte length of a control account.
pub const CONTROL_LEN: usize = 4490;

/// Byte length of the global cache account.
pub const CACHE_LEN: usize = 11933;

/// One per-market position slot of a control account, index-aligned with
/// the snapshot's market list. A `key` equal to the all-zero sentinel means
/// the user has no open-orders account for that market yet.
pub struct PositionSlot {
    pub key: Address,
    pub native_pc_total: i64,
    pub pos_size: i64,
    pub realized_pnl: i64,
    pub funding_index: i128,
}

/// A user's margin account: one fixed-point collateral balance per
/// collateral index, and the address of the user's control account.
pub struct MarginView {
    pub authority: Address,
    pub collateral: Vec<i128>,
    pub control: Address,
}

/// A user's control account: one position slot per market index.
pub struct ControlView {
    pub authority: Address,
    pub open_orders: Vec<PositionSlot>,
}

/// Supply and borrow interest multipliers of one collateral, fixed-point.
pub struct BorrowCacheEntry {
    pub supply_multiplier: i128,
    pub borrow_multiplier: i128,
}

/// The global cache account: per-collateral interest multipliers,
/// index-aligned with the snapshot's collateral list.
pub struct CacheView {
    pub borrow_cache: Vec<BorrowCacheEntry>,
}

/// Whether `s` is a well-formed margin account image.
pub open spec fn margin_valid(s: Seq<u8>) -> bool {
    s.len() == MARGIN_LEN && le_val(s, 0, 8) == MARGIN_TAG
}

/// The `i`-th raw collateral balance stored in a margin account image.
pub open spec fn margin_collateral_at(s: Seq<u8>, i: int) -> int {
    signed128(le_val(s, 41 + 16 * i, 16))
}

/// Decodes a margin account: an eight-byte tag, a one-byte nonce, the
/// authority, twenty-five fixed-point collateral balances and the control
/// account's address. Fails with `Corrupt`, never panics, on any image
/// whose length or tag does not match.
pub fn decode_margin(b: &Vec<u8>) -> (r: Result<MarginView, Error>)
    ensures
        r is Ok <==> margin_valid(b@),
        r matches Err(e) ==> e is Corrupt,
        r matches Ok(m) ==> {
            &&& m.authority@ == b@.subrange(9, 41)
            &&& m.collateral@.len() == 25
            &&& forall|i: int| 0 <= i < 25 ==> m.collateral@[i] == margin_collateral_at(b@, i)
            &&& m.control@ == b@.subrange(441, 473)
        },
{
    if b.len() != MARGIN_LEN {
        return Err(Error::Corrupt);
    }
    if read_u64_le(b, 0) != MARGIN_TAG {
        return Err(Error::Corrupt);
    }
    let authority = read_address(b, 9);
    let control = read_address(b, 441);
    let mut collateral: Vec<i128> = Vec::new();
    let mut i: usize = 0;
    while i < 25
        invariant
            i <= 25,
            b@.len() == MARGIN_LEN,
            collateral@.len() == i,
            forall|j: int| 0 <= j < i ==> collateral@[j] == margin_collateral_at(b@, j),
        decreases 25 - i,
    {
        let v: i128 = read_i128_le(b, 41 + 16 * i);
        collateral.push(v);
        i = i + 1;
    }
    Ok(MarginView { authority, collateral, control })
}

/// Whether `s` is a well-formed control account image.
pub open spec fn control_valid(s: Seq<u8>) -> bool {
    s.len() == CONTROL_LEN && le_val(s, 0, 8) == CONTROL_TAG
}

/// Start of the `i`-th position slot in a control account image.
pub open spec fn control_slot_base(i: int) -> int {
    40 + 89 * i
}

/// Decodes a control account: an eight-byte tag, the authority, and fifty
/// position slots of key, quote-notional total, position size, realized
/// profit-and-loss and funding index. Fails with `Corrupt`, never panics,
/// on any image whose length or tag does not match.
pub fn decode_control(b: &Vec<u8>) -> (r: Result<ControlView, Error>)
    ensures
        r is Ok <==> control_valid(b@),
        r matches Err(e) ==> e is Corrupt,
        r matches Ok(c) ==> {
            &&& c.authority@ == b@.subrange(8, 40)
            &&& c.open_orders@.len() == 50
            &&& forall|i: int|
                0 <= i < 50 ==> {
                    let base = control_slot_base(i);
                    &&& (#[trigger] c.open_orders@[i]).key@ == b@.subrange(base, base + 32)
                    &&& c.open_orders@[i].native_pc_total == signed64(le_val(b@, base + 32, 8))
                    &&& c.open_orders@[i].pos_size == signed64(le_val(b@, base + 40, 8))
                    &&& c.open_orders@[i].realized_pnl == signed64(le_val(b@, base + 48, 8))
                    &&& c.open_orders@[i].funding_index == signed128(le_val(b@, base + 73, 16))
                }
        },
{
    if b.len() != CONTROL_LEN {
        return Err(Error::Corrupt);
    }
    if read_u64_le(b, 0) != CONTROL_TAG {
        return Err(Error::Corrupt);
    }
    let authority = read_address(b, 8);
    let mut open_orders: Vec<PositionSlot> = Vec::new();
    let mut i: usize = 0;
    while i < 50
        invariant
            i <= 50,
            b@.len() == CONTROL_LEN,
            open_orders@.len() == i,
            forall|j: int|
                0 <= j < i ==> {
                    let base = control_slot_base(j);
                    &&& (#[trigger] open_orders@[j]).key@ == b@.subrange(base, base + 32)
                    &&& open_orders@[j].native_pc_total == signed64(le_val(b@, base + 32, 8))
                    &&& open_orders@[j].pos_size == signed64(le_val(b@, base + 40, 8))
                    &&& open_orders@[j].realized_pnl == signed64(le_val(b@, base + 48, 8))
                    &&& open_orders@[j].funding_index == signed128(le_val(b@, base + 73, 16))
                },
        decreases 50 - i,
    {
        let base: usize = 40 + 89 * i;
        let slot = PositionSlot {
            key: read_address(b, base),
            native_pc_total: read_i64_le(b, base + 32),
            pos_size: read_i64_le(b, base + 40),
            realized_pnl: read_i64_le(b, base + 48),
            funding_index: read_i128_le(b, base + 73),
        };
        open_orders.push(slot);
        i = i + 1;
    }
    Ok(ControlView { authority, open_orders })
}

/// Whether `s` is a well-formed cache account image.
pub open spec fn cache_valid(s: Seq<u8>) -> bool {
    s.len() == CACHE_LEN && le_val(s, 0, 8) == CACHE_TAG
}

/// Start of the `i`-th borrow-cache entry in a cache account image.
pub open spec fn borrow_cache_base(i: int) -> int {
    10133 + 72 * i
}

/// Decodes the interest multipliers of the global cache account: its last
/// section holds one entry per collateral with supply and borrow
/// multipliers at fixed offsets. Fails with `Corrupt`, never panics, on any
/// image whose length or tag does not match.
pub fn decode_cache(b: &Vec<u8>) -> (r: Result<CacheView, Error>)
    ensures
        r is Ok <==> cache_valid(b@),
        r matches Err(e) ==> e is Corrupt,
        r matches Ok(c) ==> {
            &&& c.borrow_cache@.len() == 25
            &&& forall|i: int|
                0 <= i < 25 ==> {
                    let base = borrow_cache_base(i);
                    &&& (#[trigger] c.borrow_cache@[i]).supply_multiplier == signed128(
                        le_val(b@, base + 32, 16),
                    )
                    &&& c.borrow_cache@[i].borrow_multiplier == signed128(
                        le_val(b@, base + 48, 16),
                    )
                }
        },
{
    if b.len() != CACHE_LEN {
        return Err(Error::Corrupt);
    }
    if read_u64_le(b, 0) != CACHE_TAG {
        return Err(Error::Corrupt);
    }
    let mut borrow_cache: Vec<BorrowCacheEntry> = Vec::new();
    let mut i: usize = 0;
    while i < 25
        invariant
            i <= 25,
            b@.len() == CACHE_LEN,
            borrow_cache@.len() == i,
            forall|j: int|
                0 <= j < i ==> {
                    let base = borrow_cache_base(j);
                    &&& (#[trigger] borrow_cache@[j]).supply_multiplier == signed128(
                        le_val(b@, base + 32, 16),
                    )
                    &&& borrow_cache@[j].borrow_multiplier == signed128(le_val(b@, base + 48, 16))
                },
        decreases 25 - i,
    {
        let base: usize = 10133 + 72 * i;
        let entry = BorrowCacheEntry {
            supply_multiplier: read_i128_le(b, base + 32),
            borrow_multiplier: read_i128_le(b, base + 48),
        };
        borrow_cache.push(entry);
        i = i + 1;
    }
    Ok(CacheView { borrow_cache })
}

/// The order-book descriptor of one market on the dex program: its own
/// address, queue and book-side addresses, and lot metadata.
pub struct DexMarketView {
    pub own_address: Address,
    pub req_q: Address,
    pub event_q: Address,
    pub bids: Address,
    pub asks: Address,
    pub coin_lot_size: u64,
    pub pc_lot_size: u64,
    pub coin_decimals: u64,
}

/// Whether `s` is a well-formed dex-market account image: exact length,
/// the five-byte head and seven-byte tail markers, and the flag word of an
/// initialized, permissioned market.
pub open spec fn dex_market_valid(s: Seq<u8>) -> bool {
    &&& s.len() == 1372
    &&& s[0] == 115 && s[1] == 101 && s[2] == 114 && s[3] == 117 && s[4] == 109
    &&& s[1365] == 112 && s[1366] == 97 && s[1367] == 100 && s[1368] == 100 && s[1369] == 105
        && s[1370] == 110 && s[1371] == 103
    &&& le_val(s, 5, 8) == 515
}

/// Decodes a dex-market account: validates the head marker, tail marker
/// and flag word, then extracts the book addresses and lot metadata at
/// their fixed offsets. Fails with `Corrupt`, never panics, on any image
/// that does not validate.
pub fn decode_dex_market(b: &Vec<u8>) -> (r: Result<DexMarketView, Error>)
    ensures
        r is Ok <==> dex_market_valid(b@),
        r matches Err(e) ==> e is Corrupt,
        r matches Ok(m) ==> {
            &&& m.own_address@ == b@.subrange(13, 45)
            &&& m.req_q@ == b@.subrange(53, 85)
            &&& m.event_q@ == b@.subrange(85, 117)
            &&& m.bids@ == b@.subrange(117, 149)
            &&& m.asks@ == b@.subrange(149, 181)
            &&& m.coin_lot_size == le_val(b@, 181, 8)
            &&& m.pc_lot_size == le_val(b@, 189, 8)
            &&& m.coin_decimals == le_val(b@, 253, 8)
        },
{
    if b.len() != 1372 {
        return Err(Error::Corrupt);
    }
    if b[0] != 115 || b[1] != 101 || b[2] != 114 || b[3] != 117 || b[4] != 109 {
        return Err(Error::Corrupt);
    }
    if b[1365] != 112 || b[1366] != 97 || b[1367] != 100 || b[1368] != 100 || b[1369] != 105
        || b[1370] != 110 || b[1371] != 103 {
        return Err(Error::Corrupt);
    }
    if read_u64_le(b, 5) != 515 {
        return Err(Error::Corrupt);
    }
    Ok(
        DexMarketView {
            own_address: read_address(b, 13),
            req_q: read_address(b, 53),
            event_q: read_address(b, 85),
            bids: read_address(b, 117),
            asks: read_address(b, 149),
            coin_lot_size: read_u64_le(b, 181),
            pc_lot_size: read_u64_le(b, 189),
            coin_decimals: read_u64_le(b, 253),
        },
    )
}

} // verus!
