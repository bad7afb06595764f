use vstd::prelude::*;
use crate::decode::{CacheView, ControlView, MarginView, PositionSlot};
use crate::errs::Error;
use crate::registry::Snapshot;
use crate::units::{fixed_mul_fits, fixed_mul_value, selected_multiplier, adjusted_balance};
use crate::wire::copy_bytes;

verus! {

/// One market's position as reported to the caller, still in ledger
/// integers; the presentation layer divides by the decimal scales.
#[derive(Clone, Copy, Debug, PartialEq, Eq, Structural)]
pub struct PositionView {
    pub initialized: bool,
    pub pos_size: i64,
    pub native_pc_total: i64,
    pub realized_pnl: i64,
    pub funding_index: i128,
    pub is_long: bool,
}

/// What a position slot presents as. A slot whose stored address is the
/// all-zero sentinel was never initialized and always presents as the
/// empty position — zero size, value and profit, a funding index of one
/// (ledger-scaled), long — whatever its other fields hold.
pub open spec fn view_of_slot(slot: PositionSlot) -> PositionView {
    if slot.key.is_zero_spec() {
        PositionView {
            initialized: false,
            pos_size: 0,
            native_pc_total: 0,
            realized_pnl: 0,
            funding_index: 1_000_000,
            is_long: true,
        }
    } else {
        PositionView {
            initialized: true,
            pos_size: slot.pos_size,
            native_pc_total: slot.native_pc_total,
            realized_pnl: slot.realized_pnl,
            funding_index: slot.funding_index,
            is_long: slot.pos_size >= 0,
        }
    }
}

/// Presents one position slot, treating the all-zero address as the
/// conclusive mark of an uninitialized position.
pub fn position_view(slot: &PositionSlot) -> (r: PositionView)
    ensures
        r == view_of_slot(*slot),
{
    if slot.key.is_zero() {
        PositionView {
            initialized: false,
            pos_size: 0,
            native_pc_total: 0,
            realized_pnl: 0,
            funding_index: 1_000_000,
            is_long: true,
        }
    } else {
        PositionView {
            initialized: true,
            pos_size: slot.pos_size,
            native_pc_total: slot.native_pc_total,
            realized_pnl: slot.realized_pnl,
            funding_index: slot.funding_index,
            is_long: slot.pos_size >= 0,
        }
    }
}

/// One position per live market, index-aligned between the snapshot's
/// market list and the user's control account.
pub fn positions(snapshot: &Snapshot, control: &ControlView) -> (r: Vec<(Vec<u8>, PositionView)>)
    requires
        snapshot.wf(),
        control.open_orders@.len() == 50,
    ensures
        r@.len() == snapshot.active_markets,
        forall|i: int|
            0 <= i < r@.len() ==> (#[trigger] r@[i]).0@ == snapshot.markets@[i].symbol@ && r@[i].1
                == view_of_slot(control.open_orders@[i]),
{
    let mut out: Vec<(Vec<u8>, PositionView)> = Vec::new();
    let n: usize = snapshot.active_markets;
    let mut i: usize = 0;
    while i < n
        invariant
            i <= n,
            n == snapshot.active_markets,
            snapshot.wf(),
            control.open_orders@.len() == 50,
            out@.len() == i,
            forall|j: int|
                0 <= j < i ==> (#[trigger] out@[j]).0@ == snapshot.markets@[j].symbol@ && out@[j].1
                    == view_of_slot(control.open_orders@[j]),
        decreases n - i,
    {
        let sym: Vec<u8> = copy_bytes(&snapshot.markets[i].symbol);
        let view: PositionView = position_view(&control.open_orders[i]);
        out.push((sym, view));
        i = i + 1;
    }
    out
}

/// The interest-adjusted balance of the `i`-th collateral: the raw margin
/// balance times the multiplier its sign selects.
pub open spec fn balance_of(margin: MarginView, cache: CacheView, i: int) -> int {
    fixed_mul_value(
        margin.collateral@[i] as int,
        selected_multiplier(
            margin.collateral@[i] as int,
            cache.borrow_cache@[i].supply_multiplier as int,
            cache.borrow_cache@[i].borrow_multiplier as int,
        ),
    )
}

/// Whether the `i`-th adjusted balance stays in fixed-point range.
pub open spec fn balance_fits(margin: MarginView, cache: CacheView, i: int) -> bool {
    fixed_mul_fits(
        margin.collateral@[i] as int,
        selected_multiplier(
            margin.collateral@[i] as int,
            cache.borrow_cache@[i].supply_multiplier as int,
            cache.borrow_cache@[i].borrow_multiplier as int,
        ),
    )
}

/// One interest-adjusted balance per live collateral, keyed by oracle
/// symbol and index-aligned across the margin account, the cache's
/// multiplier table and the snapshot's collateral list. A non-negative raw
/// balance accrues the supply multiplier, a negative one the borrow
/// multiplier. Fails with `Corrupt` exactly when some product leaves the
/// fixed-point range.
pub fn collateral_balances(snapshot: &Snapshot, margin: &MarginView, cache: &CacheView) -> (r:
    Result<Vec<(Vec<u8>, i128)>, Error>)
    requires
        snapshot.wf(),
        margin.collateral@.len() == 25,
        cache.borrow_cache@.len() == 25,
    ensures
        r is Ok <==> forall|i: int|
            0 <= i < snapshot.active_collaterals ==> #[trigger] balance_fits(*margin, *cache, i),
        r matches Ok(v) ==> {
            &&& v@.len() == snapshot.active_collaterals
            &&& forall|i: int|
                0 <= i < v@.len() ==> (#[trigger] v@[i]).0@
                    == snapshot.collaterals@[i].oracle_symbol@ && v@[i].1 == balance_of(
                    *margin,
                    *cache,
                    i,
                )
        },
        r matches Err(e) ==> e is Corrupt,
{
    let mut out: Vec<(Vec<u8>, i128)> = Vec::new();
    let n: usize = snapshot.active_collaterals;
    let mut i: usize = 0;
    while i < n
        invariant
            i <= n,
            n == snapshot.active_collaterals,
            snapshot.wf(),
            margin.collateral@.len() == 25,
            cache.borrow_cache@.len() == 25,
            out@.len() == i,
            forall|j: int| 0 <= j < i ==> #[trigger] balance_fits(*margin, *cache, j),
            forall|j: int|
                0 <= j < i ==> (#[trigger] out@[j]).0@ == snapshot.collaterals@[j].oracle_symbol@
                    && out@[j].1 == balance_of(*margin, *cache, j),
        decreases n - i,
    {
        let adjusted: Option<i128> = adjusted_balance(
            margin.collateral[i],
            cache.borrow_cache[i].supply_multiplier,
            cache.borrow_cache[i].borrow_multiplier,
        );
        match adjusted {
            Some(v) => {
                let sym: Vec<u8> = copy_bytes(&snapshot.collaterals[i].oracle_symbol);
                out.push((sym, v));
            },
            None => {
                proof {
                    assert(!balance_fits(*margin, *cache, i as int));
                }
                return Err(Error::Corrupt);
            },
        }
        i = i + 1;
    }
    Ok(out)
}

} // verus!
