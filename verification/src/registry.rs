use vstd::prelude::*;
use crate::addrs::Address;
use crate::decode::ControlView;
use crate::errs::Error;
use crate::pda;
use crate::wire::{le_val, first_nul, read_address, read_symbol, read_u64_le, bytes_eq};

verus! {

/// Tag of the global state account, the first eight bytes of its data.
pub const STATE_TAG: u64 = 0xb1b64b685e6b92d8;

/// Byte length of the global state account.
pub const STATE_LEN: usize = 36322;

/// One perpetual market of the snapshot: its symbol, decimal and lot
/// metadata, and the address of its order-book account.
pub struct MarketInfo {
    pub symbol: Vec<u8>,
    pub asset_decimals: u8,
    pub asset_lot_size: u64,
    pub quote_lot_size: u64,
    pub dex_market: Address,
}

/// One collateral of the snapshot: its mint, oracle symbol and decimals.
pub struct CollateralEntry {
    pub mint: Address,
    pub oracle_symbol: Vec<u8>,
    pub decimals: u8,
}

/// The immutable global snapshot, loaded once at startup. The market and
/// collateral lists are fixed-capacity and sentinel-terminated: entries are
/// live up to the first empty symbol, and the live counts are cached here
/// so no lookup rescans for the sentinel.
pub struct Snapshot {
    pub cache: Address,
    pub vaults: Vec<Address>,
    pub collaterals: Vec<CollateralEntry>,
    pub markets: Vec<MarketInfo>,
    pub active_markets: usize,
    pub active_collaterals: usize,
}

impl Snapshot {
    /// Shape of a loaded snapshot: full-capacity lists, and the cached
    /// active counts point at the first sentinel entry of each list.
    pub open spec fn wf(self) -> bool {
        &&& self.vaults@.len() == 25
        &&& self.collaterals@.len() == 25
        &&& self.markets@.len() == 50
        &&& self.active_markets <= 50
        &&& self.active_collaterals <= 25
        &&& forall|i: int|
            0 <= i < self.active_markets ==> (#[trigger] self.markets@[i]).symbol@.len() != 0
        &&& self.active_markets < 50 ==> self.markets@[
            self.active_markets as int
        ].symbol@.len() == 0
        &&& forall|i: int|
            0 <= i < self.active_collaterals ==> (
            #[trigger] self.collaterals@[i]).oracle_symbol@.len() != 0
        &&& self.active_collaterals < 25 ==> self.collaterals@[
            self.active_collaterals as int
        ].oracle_symbol@.len() == 0
    }

    /// Index of the first live market carrying `sym` at or after `i`, or
    /// `-1` if none does.
    pub open spec fn market_index_from(self, sym: Seq<u8>, i: int) -> int
        decreases self.active_markets - i,
    {
        if i < 0 || i >= self.active_markets {
            -1
        } else if self.markets@[i].symbol@ == sym {
            i
        } else {
            self.market_index_from(sym, i + 1)
        }
    }

    /// Index of the first live market carrying `sym`, or `-1`.
    pub open spec fn market_index(self, sym: Seq<u8>) -> int {
        self.market_index_from(sym, 0)
    }

    /// Index of the first live collateral carrying `sym` at or after `i`,
    /// or `-1` if none does.
    pub open spec fn collateral_index_from(self, sym: Seq<u8>, i: int) -> int
        decreases self.active_collaterals - i,
    {
        if i < 0 || i >= self.active_collaterals {
            -1
        } else if self.collaterals@[i].oracle_symbol@ == sym {
            i
        } else {
            self.collateral_index_from(sym, i + 1)
        }
    }

    /// Index of the first live collateral carrying `sym`, or `-1`.
    pub open spec fn collateral_index(self, sym: Seq<u8>) -> int {
        self.collateral_index_from(sym, 0)
    }
}

/// The first live market match is what `market_index` names: `-1` means
/// no live market carries the symbol; a non-negative index lies in the
/// live prefix, carries the symbol, and nothing before it does. Together
/// with `market_index` being a function of the snapshot and symbol alone,
/// this pins resolution to the same descriptor on every call against one
/// snapshot.
pub proof fn lemma_market_lookup(snapshot: Snapshot, sym: Seq<u8>, i: int)
    requires
        0 <= i <= snapshot.active_markets,
    ensures
        ({
            let r = snapshot.market_index_from(sym, i);
            &&& r == -1 ==> forall|j: int|
                i <= j < snapshot.active_markets ==> (#[trigger] snapshot.markets@[j]).symbol@
                    != sym
            &&& r >= 0 ==> i <= r < snapshot.active_markets && snapshot.markets@[r].symbol@ == sym
                && forall|j: int|
                i <= j < r ==> (#[trigger] snapshot.markets@[j]).symbol@ != sym
        }),
    decreases snapshot.active_markets - i,
{
    if i < snapshot.active_markets {
        lemma_market_lookup(snapshot, sym, i + 1);
    }
}

/// The collateral counterpart of `lemma_market_lookup`.
pub proof fn lemma_collateral_lookup(snapshot: Snapshot, sym: Seq<u8>, i: int)
    requires
        0 <= i <= snapshot.active_collaterals,
    ensures
        ({
            let r = snapshot.collateral_index_from(sym, i);
            &&& r == -1 ==> forall|j: int|
                i <= j < snapshot.active_collaterals ==> (
                #[trigger] snapshot.collaterals@[j]).oracle_symbol@ != sym
            &&& r >= 0 ==> i <= r < snapshot.active_collaterals
                && snapshot.collaterals@[r].oracle_symbol@ == sym && forall|j: int|
                i <= j < r ==> (#[trigger] snapshot.collaterals@[j]).oracle_symbol@ != sym
        }),
    decreases snapshot.active_collaterals - i,
{
    if i < snapshot.active_collaterals {
        lemma_collateral_lookup(snapshot, sym, i + 1);
    }
}

/// Start of the `i`-th vault address in a state account image.
pub open spec fn state_vault_base(i: int) -> int {
    313 + 32 * i
}

/// Start of the `i`-th collateral descriptor in a state account image.
pub open spec fn state_collateral_base(i: int) -> int {
    1113 + 497 * i
}

/// Start of the `i`-th market descriptor in a state account image.
pub open spec fn state_market_base(i: int) -> int {
    13538 + 430 * i
}

/// The symbol field at `off`, trimmed at its terminating zero.
pub open spec fn symbol_at(s: Seq<u8>, off: int) -> Seq<u8> {
    let field = s.subrange(off, off + 24);
    field.take(first_nul(field))
}

/// Whether `s` is a well-formed state account image.
pub open spec fn state_valid(s: Seq<u8>) -> bool {
    s.len() == STATE_LEN && le_val(s, 0, 8) == STATE_TAG
}

/// Decodes the global state account into the snapshot: the cache address,
/// the vault list, the collateral descriptors (mint, oracle symbol,
/// decimals) and the market descriptors (symbol, decimals, lot sizes,
/// order-book address), then scans each sentinel-terminated list once to
/// cache its live count. Fails with `Corrupt`, never panics, on any image
/// whose length or tag does not match.
pub fn decode_state(b: &Vec<u8>) -> (r: Result<Snapshot, Error>)
    ensures
        r is Ok <==> state_valid(b@),
        r matches Err(e) ==> e is Corrupt,
        r matches Ok(s) ==> {
            &&& s.wf()
            &&& s.cache@ == b@.subrange(41, 73)
            &&& forall|i: int|
                0 <= i < 25 ==> (#[trigger] s.vaults@[i])@ == b@.subrange(
                    state_vault_base(i),
                    state_vault_base(i) + 32,
                )
            &&& forall|i: int|
                0 <= i < 25 ==> {
                    let base = state_collateral_base(i);
                    &&& (#[trigger] s.collaterals@[i]).mint@ == b@.subrange(base, base + 32)
                    &&& s.collaterals@[i].oracle_symbol@ == symbol_at(b@, base + 32)
                    &&& s.collaterals@[i].decimals == b@[base + 56]
                }
            &&& forall|i: int|
                0 <= i < 50 ==> {
                    let base = state_market_base(i);
                    &&& (#[trigger] s.markets@[i]).symbol@ == symbol_at(b@, base)
                    &&& s.markets@[i].asset_decimals == b@[base + 49]
                    &&& s.markets@[i].asset_lot_size == le_val(b@, base + 50, 8)
                    &&& s.markets@[i].quote_lot_size == le_val(b@, base + 58, 8)
                    &&& s.markets@[i].dex_market@ == b@.subrange(base + 78, base + 110)
                }
        },
{
    if b.len() != STATE_LEN {
        return Err(Error::Corrupt);
    }
    if read_u64_le(b, 0) != STATE_TAG {
        return Err(Error::Corrupt);
    }
    let cache = read_address(b, 41);
    let mut vaults: Vec<Address> = Vec::new();
    let mut i: usize = 0;
    while i < 25
        invariant
            i <= 25,
            b@.len() == STATE_LEN,
            vaults@.len() == i,
            forall|j: int|
                0 <= j < i ==> (#[trigger] vaults@[j])@ == b@.subrange(
                    state_vault_base(j),
                    state_vault_base(j) + 32,
                ),
        decreases 25 - i,
    {
        vaults.push(read_address(b, 313 + 32 * i));
        i = i + 1;
    }
    let mut collaterals: Vec<CollateralEntry> = Vec::new();
    let mut i: usize = 0;
    while i < 25
        invariant
            i <= 25,
            b@.len() == STATE_LEN,
            collaterals@.len() == i,
            forall|j: int|
                0 <= j < i ==> {
                    let base = state_collateral_base(j);
                    &&& (#[trigger] collaterals@[j]).mint@ == b@.subrange(base, base + 32)
                    &&& collaterals@[j].oracle_symbol@ == symbol_at(b@, base + 32)
                    &&& collaterals@[j].decimals == b@[base + 56]
                },
        decreases 25 - i,
    {
        let base: usize = 1113 + 497 * i;
        let entry = CollateralEntry {
            mint: read_address(b, base),
            oracle_symbol: read_symbol(b, base + 32),
            decimals: b[base + 56],
        };
        collaterals.push(entry);
        i = i + 1;
    }
    let mut markets: Vec<MarketInfo> = Vec::new();
    let mut i: usize = 0;
    while i < 50
        invariant
            i <= 50,
            b@.len() == STATE_LEN,
            markets@.len() == i,
            forall|j: int|
                0 <= j < i ==> {
                    let base = state_market_base(j);
                    &&& (#[trigger] markets@[j]).symbol@ == symbol_at(b@, base)
                    &&& markets@[j].asset_decimals == b@[base + 49]
                    &&& markets@[j].asset_lot_size == le_val(b@, base + 50, 8)
                    &&& markets@[j].quote_lot_size == le_val(b@, base + 58, 8)
                    &&& markets@[j].dex_market@ == b@.subrange(base + 78, base + 110)
                },
        decreases 50 - i,
    {
        let base: usize = 13538 + 430 * i;
        let entry = MarketInfo {
            symbol: read_symbol(b, base),
            asset_decimals: b[base + 49],
            asset_lot_size: read_u64_le(b, base + 50),
            quote_lot_size: read_u64_le(b, base + 58),
            dex_market: read_address(b, base + 78),
        };
        markets.push(entry);
        i = i + 1;
    }
    let mut i: usize = 0;
    while i < 50 && markets[i].symbol.len() != 0
        invariant
            i <= 50,
            markets@.len() == 50,
            forall|j: int| 0 <= j < i ==> (#[trigger] markets@[j]).symbol@.len() != 0,
        decreases 50 - i,
    {
        i = i + 1;
    }
    let active_markets: usize = i;
    let mut i: usize = 0;
    while i < 25 && collaterals[i].oracle_symbol.len() != 0
        invariant
            i <= 25,
            collaterals@.len() == 25,
            forall|j: int| 0 <= j < i ==> (#[trigger] collaterals@[j]).oracle_symbol@.len() != 0,
        decreases 25 - i,
    {
        i = i + 1;
    }
    let active_collaterals: usize = i;
    Ok(Snapshot { cache, vaults, collaterals, markets, active_markets, active_collaterals })
}

/// The shared service state: the caller's signing identity, the two
/// derived addresses every operation references, and the snapshot.
pub struct State {
    pub authority: Address,
    pub zo_state_signer: Address,
    pub zo_margin_key: Address,
    pub snapshot: Snapshot,
}

impl State {
    /// A well-formed service state: the snapshot is loaded and both cached
    /// addresses are exactly what the derivation rule assigns.
    pub open spec fn wf(self) -> bool {
        &&& self.snapshot.wf()
        &&& pda::derived_address(pda::state_signer_seeds(), pda::ZO_PROGRAM_ID@) == Some(
            self.zo_state_signer@,
        )
        &&& pda::derived_address(pda::margin_seeds(self.authority@), pda::ZO_PROGRAM_ID@) == Some(
            self.zo_margin_key@,
        )
    }

    /// Builds the service state for one signing identity: derives the
    /// program's state-signer address and the user's margin-account
    /// address from their fixed seed tuples. Succeeds exactly when the
    /// derivation rule admits an address for both tuples; `None` otherwise.
    pub fn new(authority: Address, snapshot: Snapshot) -> (r: Option<State>)
        requires
            snapshot.wf(),
        ensures
            r matches Some(st) ==> {
                &&& st.wf()
                &&& st.authority == authority
                &&& st.snapshot == snapshot
            },
            r is Some <==> pda::derived_address(pda::state_signer_seeds(), pda::ZO_PROGRAM_ID@)
                is Some && pda::derived_address(
                pda::margin_seeds(authority@),
                pda::ZO_PROGRAM_ID@,
            ) is Some,
    {
        let signer = pda::state_signer_address();
        let margin = pda::margin_address(&authority);
        match (signer, margin) {
            (Some(zo_state_signer), Some(zo_margin_key)) => Some(
                State { authority, zo_state_signer, zo_margin_key, snapshot },
            ),
            _ => None,
        }
    }

    /// The signing identity's public address.
    pub fn authority(&self) -> (r: Address)
        ensures
            r == self.authority,
    {
        self.authority
    }

    /// The loaded snapshot.
    pub fn zo_state(&self) -> (r: &Snapshot)
        ensures
            r == self.snapshot,
    {
        &self.snapshot
    }

    /// The live markets, in snapshot order: copies of the active prefix.
    pub fn zo_markets(&self) -> (r: Vec<MarketInfo>)
        requires
            self.snapshot.wf(),
        ensures
            r@.len() == self.snapshot.active_markets,
            forall|i: int|
                0 <= i < r@.len() ==> {
                    let m = self.snapshot.markets@[i];
                    &&& (#[trigger] r@[i]).symbol@ == m.symbol@
                    &&& r@[i].asset_decimals == m.asset_decimals
                    &&& r@[i].asset_lot_size == m.asset_lot_size
                    &&& r@[i].quote_lot_size == m.quote_lot_size
                    &&& r@[i].dex_market == m.dex_market
                },
    {
        let mut out: Vec<MarketInfo> = Vec::new();
        let n: usize = self.snapshot.active_markets;
        let mut i: usize = 0;
        while i < n
            invariant
                i <= n,
                n == self.snapshot.active_markets,
                self.snapshot.wf(),
                out@.len() == i,
                forall|j: int|
                    0 <= j < i ==> {
                        let m = self.snapshot.markets@[j];
                        &&& (#[trigger] out@[j]).symbol@ == m.symbol@
                        &&& out@[j].asset_decimals == m.asset_decimals
                        &&& out@[j].asset_lot_size == m.asset_lot_size
                        &&& out@[j].quote_lot_size == m.quote_lot_size
                        &&& out@[j].dex_market == m.dex_market
                    },
            decreases n - i,
        {
            let m = &self.snapshot.markets[i];
            out.push(
                MarketInfo {
                    symbol: crate::wire::copy_bytes(&m.symbol),
                    asset_decimals: m.asset_decimals,
                    asset_lot_size: m.asset_lot_size,
                    quote_lot_size: m.quote_lot_size,
                    dex_market: m.dex_market,
                },
            );
            i = i + 1;
        }
        out
    }

    /// The live collaterals, in snapshot order: copies of the active prefix.
    pub fn zo_collaterals(&self) -> (r: Vec<CollateralEntry>)
        requires
            self.snapshot.wf(),
        ensures
            r@.len() == self.snapshot.active_collaterals,
            forall|i: int|
                0 <= i < r@.len() ==> {
                    let c = self.snapshot.collaterals@[i];
                    &&& (#[trigger] r@[i]).oracle_symbol@ == c.oracle_symbol@
                    &&& r@[i].mint == c.mint
                    &&& r@[i].decimals == c.decimals
                },
    {
        let mut out: Vec<CollateralEntry> = Vec::new();
        let n: usize = self.snapshot.active_collaterals;
        let mut i: usize = 0;
        while i < n
            invariant
                i <= n,
                n == self.snapshot.active_collaterals,
                self.snapshot.wf(),
                out@.len() == i,
                forall|j: int|
                    0 <= j < i ==> {
                        let c = self.snapshot.collaterals@[j];
                        &&& (#[trigger] out@[j]).oracle_symbol@ == c.oracle_symbol@
                        &&& out@[j].mint == c.mint
                        &&& out@[j].decimals == c.decimals
                    },
            decreases n - i,
        {
            let c = &self.snapshot.collaterals[i];
            out.push(
                CollateralEntry {
                    mint: c.mint,
                    oracle_symbol: crate::wire::copy_bytes(&c.oracle_symbol),
                    decimals: c.decimals,
                },
            );
            i = i + 1;
        }
        out
    }

    /// Index of the live market whose symbol is `s`: the first match in
    /// the snapshot's live prefix, or the market-lookup error naming `s`.
    pub fn market_symbol_index(&self, s: &Vec<u8>) -> (r: Result<usize, Error>)
        requires
            self.snapshot.wf(),
        ensures
            r matches Ok(i) ==> self.snapshot.market_index(s@) == i && i
                < self.snapshot.active_markets,
            r is Err <==> self.snapshot.market_index(s@) == -1,
            r matches Err(e) ==> e matches Error::MarketSymbolNotFound(t) && t@ == s@,
    {
        let n: usize = self.snapshot.active_markets;
        let mut i: usize = 0;
        while i < n
            invariant
                i <= n,
                n == self.snapshot.active_markets,
                self.snapshot.wf(),
                self.snapshot.market_index(s@) == self.snapshot.market_index_from(s@, i as int),
            decreases n - i,
        {
            if bytes_eq(&self.snapshot.markets[i].symbol, s) {
                return Ok(i);
            }
            i = i + 1;
        }
        Err(Error::MarketSymbolNotFound(crate::wire::copy_bytes(s)))
    }

    /// Index of the live collateral whose oracle symbol is `s`: the first
    /// match in the live prefix, or the collateral-lookup error naming `s`.
    pub fn collateral_symbol_index(&self, s: &Vec<u8>) -> (r: Result<usize, Error>)
        requires
            self.snapshot.wf(),
        ensures
            r matches Ok(i) ==> self.snapshot.collateral_index(s@) == i && i
                < self.snapshot.active_collaterals,
            r is Err <==> self.snapshot.collateral_index(s@) == -1,
            r matches Err(e) ==> e matches Error::CollateralSymbolNotFound(t) && t@ == s@,
    {
        let n: usize = self.snapshot.active_collaterals;
        let mut i: usize = 0;
        while i < n
            invariant
                i <= n,
                n == self.snapshot.active_collaterals,
                self.snapshot.wf(),
                self.snapshot.collateral_index(s@) == self.snapshot.collateral_index_from(
                    s@,
                    i as int,
                ),
            decreases n - i,
        {
            if bytes_eq(&self.snapshot.collaterals[i].oracle_symbol, s) {
                return Ok(i);
            }
            i = i + 1;
        }
        Err(Error::CollateralSymbolNotFound(crate::wire::copy_bytes(s)))
    }

    /// Resolves a market symbol to its descriptor.
    pub fn market(&self, s: &Vec<u8>) -> (r: Result<&MarketInfo, Error>)
        requires
            self.snapshot.wf(),
        ensures
            r matches Ok(m) ==> self.snapshot.market_index(s@) >= 0 && m == &self.snapshot.markets@[
                self.snapshot.market_index(s@)
            ],
            r is Err <==> self.snapshot.market_index(s@) == -1,
            r matches Err(e) ==> e matches Error::MarketSymbolNotFound(t) && t@ == s@,
    {
        match self.market_symbol_index(s) {
            Ok(i) => Ok(&self.snapshot.markets[i]),
            Err(e) => Err(e),
        }
    }

    /// Resolves a collateral symbol to its descriptor.
    pub fn collateral(&self, s: &Vec<u8>) -> (r: Result<&CollateralEntry, Error>)
        requires
            self.snapshot.wf(),
        ensures
            r matches Ok(c) ==> self.snapshot.collateral_index(s@) >= 0 && c
                == &self.snapshot.collaterals@[self.snapshot.collateral_index(s@)],
            r is Err <==> self.snapshot.collateral_index(s@) == -1,
            r matches Err(e) ==> e matches Error::CollateralSymbolNotFound(t) && t@ == s@,
    {
        match self.collateral_symbol_index(s) {
            Ok(i) => Ok(&self.snapshot.collaterals[i]),
            Err(e) => Err(e),
        }
    }

    /// Resolves a collateral symbol to its vault address.
    pub fn vault(&self, s: &Vec<u8>) -> (r: Result<Address, Error>)
        requires
            self.snapshot.wf(),
        ensures
            r matches Ok(v) ==> self.snapshot.collateral_index(s@) >= 0 && v
                == self.snapshot.vaults@[self.snapshot.collateral_index(s@)],
            r is Err <==> self.snapshot.collateral_index(s@) == -1,
            r matches Err(e) ==> e matches Error::CollateralSymbolNotFound(t) && t@ == s@,
    {
        match self.collateral_symbol_index(s) {
            Ok(i) => Ok(self.snapshot.vaults[i]),
            Err(e) => Err(e),
        }
    }

    /// The user's open-orders account for market `s`, read from the slot
    /// of their freshly fetched control account that is index-aligned with
    /// the market list. The all-zero sentinel in that slot means the
    /// account was never created, which is distinct from the market not
    /// existing.
    pub fn oo(&self, control: &ControlView, s: &Vec<u8>) -> (r: Result<Address, Error>)
        requires
            self.snapshot.wf(),
            control.open_orders@.len() == 50,
        ensures
            r matches Ok(a) ==> {
                let i = self.snapshot.market_index(s@);
                &&& i >= 0
                &&& a == control.open_orders@[i].key
                &&& !a.is_zero_spec()
            },
            r matches Err(e) ==> {
                let i = self.snapshot.market_index(s@);
                &&& (e is MarketSymbolNotFound <==> i == -1)
                &&& (e is OpenOrdersNotFound <==> i >= 0
                    && control.open_orders@[i].key.is_zero_spec())
                &&& (e is MarketSymbolNotFound || e is OpenOrdersNotFound)
            },
            r is Err <==> (self.snapshot.market_index(s@) == -1 || control.open_orders@[
                self.snapshot.market_index(s@)
            ].key.is_zero_spec()),
    {
        let i: usize = match self.market_symbol_index(s) {
            Ok(i) => i,
            Err(e) => {
                return Err(e);
            },
        };
        let key: Address = control.open_orders[i].key;
        if key.is_zero() {
            Err(Error::OpenOrdersNotFound(crate::wire::copy_bytes(s)))
        } else {
            Ok(key)
        }
    }
}

} // verus!
