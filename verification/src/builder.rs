use vstd::prelude::*;
use crate::addrs::Address;
use crate::decode::{DexMarketView, MarginView};
use crate::errs::Error;
use crate::pda;
use crate::registry::State;
use crate::units::{combined_units, pow10, pow10_u64, combine_units, quote_quantity};

verus! {

/// Which side of the book an order rests on.
#[derive(Clone, Copy, Debug, PartialEq, Eq, Structural)]
pub enum Side {
    Bid,
    Ask,
}

/// The six order kinds the venue accepts.
#[derive(Clone, Copy, Debug, PartialEq, Eq, Structural)]
pub enum OrderType {
    Limit,
    ImmediateOrCancel,
    PostOnly,
    ReduceOnlyIoc,
    ReduceOnlyLimit,
    FillOrKill,
}

impl OrderType {
    /// The wire code of each order kind.
    pub open spec fn code_spec(self) -> u8 {
        match self {
            OrderType::Limit => 0,
            OrderType::ImmediateOrCancel => 1,
            OrderType::PostOnly => 2,
            OrderType::ReduceOnlyIoc => 3,
            OrderType::ReduceOnlyLimit => 4,
            OrderType::FillOrKill => 5,
        }
    }

    /// The wire code of this order kind.
    pub fn code(&self) -> (r: u8)
        ensures
            r == self.code_spec(),
    {
        match self {
            OrderType::Limit => 0,
            OrderType::ImmediateOrCancel => 1,
            OrderType::PostOnly => 2,
            OrderType::ReduceOnlyIoc => 3,
            OrderType::ReduceOnlyLimit => 4,
            OrderType::FillOrKill => 5,
        }
    }
}

/// One account reference of a built instruction, in submission order.
pub struct AccountRef {
    pub addr: Address,
    pub is_signer: bool,
    pub is_writable: bool,
}

/// A fully built instruction: the target program, the exact ordered
/// account list, and the serialized payload. The surrounding application
/// signs and submits it unchanged.
pub struct BuiltInstruction {
    pub program: Address,
    pub accounts: Vec<AccountRef>,
    pub data: Vec<u8>,
}

/// The little-endian bytes of the low `n` bytes of `v`.
pub open spec fn le_bytes(v: nat, n: nat) -> Seq<u8>
    decreases n,
{
    if n == 0 {
        Seq::empty()
    } else {
        seq![(v % 256) as u8] + le_bytes(v / 256, (n - 1) as nat)
    }
}

/// A borsh boolean: one byte, one or zero.
pub open spec fn enc_bool(b: bool) -> Seq<u8> {
    seq![if b { 1u8 } else { 0u8 }]
}

/// A borsh optional `u64`: absence is a zero byte, presence a one byte
/// followed by the value.
pub open spec fn enc_opt_u64(v: Option<u64>) -> Seq<u8> {
    match v {
        Option::None => seq![0u8],
        Option::Some(x) => seq![1u8] + le_bytes(x as nat, 8),
    }
}

/// A borsh optional `u128`.
pub open spec fn enc_opt_u128(v: Option<u128>) -> Seq<u8> {
    match v {
        Option::None => seq![0u8],
        Option::Some(x) => seq![1u8] + le_bytes(x as nat, 16),
    }
}

/// A borsh optional boolean.
pub open spec fn enc_opt_bool(v: Option<bool>) -> Seq<u8> {
    match v {
        Option::None => seq![0u8],
        Option::Some(b) => seq![1u8] + enc_bool(b),
    }
}

fn push_u16_le(out: &mut Vec<u8>, v: u16)
    ensures
        final(out)@ == old(out)@ + le_bytes(v as nat, 2),
{
    let x0: u16 = v;
    let x1: u16 = x0 / 256;
    out.push((x0 % 256) as u8);
    out.push((x1 % 256) as u8);
    proof {
        reveal_with_fuel(le_bytes, 3);
        assert(out@ =~= old(out)@ + le_bytes(v as nat, 2));
    }
}

fn push_u64_le(out: &mut Vec<u8>, v: u64)
    ensures
        final(out)@ == old(out)@ + le_bytes(v as nat, 8),
{
    let x0: u64 = v;
    let x1: u64 = x0 / 256;
    let x2: u64 = x1 / 256;
    let x3: u64 = x2 / 256;
    let x4: u64 = x3 / 256;
    let x5: u64 = x4 / 256;
    let x6: u64 = x5 / 256;
    let x7: u64 = x6 / 256;
    out.push((x0 % 256) as u8);
    out.push((x1 % 256) as u8);
    out.push((x2 % 256) as u8);
    out.push((x3 % 256) as u8);
    out.push((x4 % 256) as u8);
    out.push((x5 % 256) as u8);
    out.push((x6 % 256) as u8);
    out.push((x7 % 256) as u8);
    proof {
        reveal_with_fuel(le_bytes, 9);
        assert(out@ =~= old(out)@ + le_bytes(v as nat, 8));
    }
}

#[verifier::rlimit(100)]
fn push_u128_le(out: &mut Vec<u8>, v: u128)
    ensures
        final(out)@ == old(out)@ + le_bytes(v as nat, 16),
{
    let x0: u128 = v;
    let x1: u128 = x0 / 256;
    let x2: u128 = x1 / 256;
    let x3: u128 = x2 / 256;
    let x4: u128 = x3 / 256;
    let x5: u128 = x4 / 256;
    let x6: u128 = x5 / 256;
    let x7: u128 = x6 / 256;
    let x8: u128 = x7 / 256;
    let x9: u128 = x8 / 256;
    let x10: u128 = x9 / 256;
    let x11: u128 = x10 / 256;
    let x12: u128 = x11 / 256;
    let x13: u128 = x12 / 256;
    let x14: u128 = x13 / 256;
    let x15: u128 = x14 / 256;
    out.push((x0 % 256) as u8);
    out.push((x1 % 256) as u8);
    out.push((x2 % 256) as u8);
    out.push((x3 % 256) as u8);
    out.push((x4 % 256) as u8);
    out.push((x5 % 256) as u8);
    out.push((x6 % 256) as u8);
    out.push((x7 % 256) as u8);
    out.push((x8 % 256) as u8);
    out.push((x9 % 256) as u8);
    out.push((x10 % 256) as u8);
    out.push((x11 % 256) as u8);
    out.push((x12 % 256) as u8);
    out.push((x13 % 256) as u8);
    out.push((x14 % 256) as u8);
    out.push((x15 % 256) as u8);
    proof {
        reveal_with_fuel(le_bytes, 17);
        assert(out@ =~= old(out)@ + le_bytes(v as nat, 16));
    }
}

/// Payload tag of the deposit operation.
pub const DEPOSIT_TAG: u64 = 0xb6f2e15289c623f2;

/// Payload tag of the withdraw operation.
pub const WITHDRAW_TAG: u64 = 0x22a16d949c4612b7;

/// Payload tag of the place-order operation.
pub const PLACE_ORDER_TAG: u64 = 0xb94c7e78ca5da145;

/// Payload tag of the cancel-order operation.
pub const CANCEL_ORDER_TAG: u64 = 0xc6f2d6f311cf4fac;

/// The deposit payload: tag, repay-only flag, ledger-integer amount.
pub open spec fn deposit_data(repay_only: bool, amount: u64) -> Seq<u8> {
    le_bytes(DEPOSIT_TAG as nat, 8) + enc_bool(repay_only) + le_bytes(amount as nat, 8)
}

/// The withdraw payload: tag, allow-borrow flag, ledger-integer amount.
pub open spec fn withdraw_data(allow_borrow: bool, amount: u64) -> Seq<u8> {
    le_bytes(WITHDRAW_TAG as nat, 8) + enc_bool(allow_borrow) + le_bytes(amount as nat, 8)
}

/// The place-order payload: tag, long flag, price lots, base-quantity
/// lots, quote quantity, order-kind code, iteration limit, client id.
pub open spec fn place_order_data(
    is_long: bool,
    limit_price: u64,
    max_base_quantity: u64,
    max_quote_quantity: u64,
    order_type: OrderType,
    limit: u16,
    client_id: u64,
) -> Seq<u8> {
    le_bytes(PLACE_ORDER_TAG as nat, 8) + enc_bool(is_long) + le_bytes(limit_price as nat, 8)
        + le_bytes(max_base_quantity as nat, 8) + le_bytes(max_quote_quantity as nat, 8) + seq![
        order_type.code_spec(),
    ] + le_bytes(limit as nat, 2) + le_bytes(client_id as nat, 8)
}

/// The cancel-order payload: tag, then each filter exactly as supplied —
/// an absent filter is encoded as absent, never defaulted.
pub open spec fn cancel_order_data(
    order_id: Option<u128>,
    is_long: Option<bool>,
    client_id: Option<u64>,
) -> Seq<u8> {
    le_bytes(CANCEL_ORDER_TAG as nat, 8) + enc_opt_u128(order_id) + enc_opt_bool(is_long)
        + enc_opt_u64(client_id)
}

/// Whether a split amount is representable: the fractional part has been
/// truncated to the collateral's digits and the combined ledger integer
/// fits the wire field.
pub open spec fn amount_ok(whole: int, frac: int, decimals: nat) -> bool {
    frac < pow10(decimals) && combined_units(whole, frac, decimals) <= u64::MAX
}

fn account_list_base(st: &State) -> (r: Vec<AccountRef>)
    ensures
        r@.len() == 5,
        r@[0].addr@ == pda::ZO_STATE_KEY@ && !r@[0].is_signer && !r@[0].is_writable,
        r@[1].addr == st.zo_state_signer && !r@[1].is_signer && !r@[1].is_writable,
        r@[2].addr == st.snapshot.cache && !r@[2].is_signer && r@[2].is_writable,
        r@[3].addr == st.authority && r@[3].is_signer && !r@[3].is_writable,
        r@[4].addr == st.zo_margin_key && !r@[4].is_signer && r@[4].is_writable,
{
    let mut v: Vec<AccountRef> = Vec::new();
    let state = Address { bytes: pda::ZO_STATE_KEY };
    proof {
        assert(state@ =~= pda::ZO_STATE_KEY@);
    }
    v.push(AccountRef { addr: state, is_signer: false, is_writable: false });
    v.push(AccountRef { addr: st.zo_state_signer, is_signer: false, is_writable: false });
    v.push(AccountRef { addr: st.snapshot.cache, is_signer: false, is_writable: true });
    v.push(AccountRef { addr: st.authority, is_signer: true, is_writable: false });
    v.push(AccountRef { addr: st.zo_margin_key, is_signer: false, is_writable: true });
    v
}

/// Resolves the source or destination token account of a transfer: the
/// caller's explicit choice, or the standard deterministic token account
/// of the authority and the collateral's mint when omitted.
fn resolve_token_account(st: &State, mint: &Address, given: Option<Address>) -> (r: Result<
    Address,
    Error,
>)
    ensures
        r matches Ok(a) ==> match given {
            Option::Some(g) => a == g,
            Option::None => Some(a@) == pda::derived_address(
                pda::ata_seeds(st.authority@, mint@),
                pda::ATA_PROGRAM_ID@,
            ),
        },
        r is Ok <==> given is Some || pda::derived_address(
            pda::ata_seeds(st.authority@, mint@),
            pda::ATA_PROGRAM_ID@,
        ) is Some,
        r matches Err(e) ==> e is InvalidAddress && given is None,
{
    match given {
        Option::Some(a) => Ok(a),
        Option::None => {
            match pda::ata_address(&st.authority, mint) {
                Option::Some(a) => Ok(a),
                Option::None => Err(Error::InvalidAddress),
            }
        },
    }
}

/// Builds the deposit instruction: converts the split amount into the
/// collateral's ledger integer (truncating, never rounding up), resolves
/// the source token account, and lays out the exact ordered account list
/// the program requires. Rejects an unknown symbol, an amount that does
/// not fit the wire field, and collateral metadata outside the
/// representable digit range.
pub fn build_deposit(
    st: &State,
    symbol: &Vec<u8>,
    repay_only: bool,
    whole: u64,
    frac: u64,
    token_account: Option<Address>,
) -> (r: Result<BuiltInstruction, Error>)
    requires
        st.snapshot.wf(),
    ensures
        r matches Ok(ix) ==> {
            let ci = st.snapshot.collateral_index(symbol@);
            let decimals = st.snapshot.collaterals@[ci].decimals;
            &&& ci >= 0
            &&& decimals <= 19
            &&& amount_ok(whole as int, frac as int, decimals as nat)
            &&& ix.program@ == pda::ZO_PROGRAM_ID@
            &&& ix.data@ == deposit_data(
                repay_only,
                combined_units(whole as int, frac as int, decimals as nat) as u64,
            )
            &&& ix.accounts@.len() == 8
            &&& ix.accounts@[0].addr@ == pda::ZO_STATE_KEY@
            &&& ix.accounts@[1].addr == st.zo_state_signer
            &&& ix.accounts@[2].addr == st.snapshot.cache
            &&& ix.accounts@[3].addr == st.authority && ix.accounts@[3].is_signer
            &&& ix.accounts@[4].addr == st.zo_margin_key
            &&& (match token_account {
                Option::Some(g) => ix.accounts@[5].addr == g,
                Option::None => Some(ix.accounts@[5].addr@) == pda::derived_address(
                    pda::ata_seeds(st.authority@, st.snapshot.collaterals@[ci].mint@),
                    pda::ATA_PROGRAM_ID@,
                ),
            })
            &&& ix.accounts@[6].addr == st.snapshot.vaults@[ci]
            &&& ix.accounts@[7].addr@ == pda::TOKEN_PROGRAM_ID@
        },
        r is Ok <==> ({
            let ci = st.snapshot.collateral_index(symbol@);
            &&& ci >= 0
            &&& st.snapshot.collaterals@[ci].decimals <= 19
            &&& amount_ok(whole as int, frac as int, st.snapshot.collaterals@[ci].decimals as nat)
            &&& (token_account is Some || pda::derived_address(
                pda::ata_seeds(st.authority@, st.snapshot.collaterals@[ci].mint@),
                pda::ATA_PROGRAM_ID@,
            ) is Some)
        }),
        r matches Err(e) ==> {
            let ci = st.snapshot.collateral_index(symbol@);
            &&& (e is CollateralSymbolNotFound <==> ci == -1)
            &&& e is InvalidInteger ==> ci >= 0 && !amount_ok(
                whole as int,
                frac as int,
                st.snapshot.collaterals@[ci].decimals as nat,
            )
            &&& e is Corrupt ==> ci >= 0 && st.snapshot.collaterals@[ci].decimals > 19
            &&& e is InvalidAddress ==> ci >= 0 && token_account is None && pda::derived_address(
                pda::ata_seeds(st.authority@, st.snapshot.collaterals@[ci].mint@),
                pda::ATA_PROGRAM_ID@,
            ) is None
        },
{
    let ci: usize = match st.collateral_symbol_index(symbol) {
        Ok(i) => i,
        Err(e) => {
            return Err(e);
        },
    };
    let decimals: u8 = st.snapshot.collaterals[ci].decimals;
    if decimals > 19 {
        return Err(Error::Corrupt);
    }
    let d: u64 = pow10_u64(decimals as u32);
    if frac >= d {
        return Err(Error::InvalidInteger);
    }
    if whole > (u64::MAX - frac) / d {
        proof {
            vstd::arithmetic::div_mod::lemma_fundamental_div_mod(
                (u64::MAX - frac) as int,
                d as int,
            );
            assert(whole * d + frac > u64::MAX) by (nonlinear_arith)
                requires
                    whole > ((u64::MAX - frac) as int) / (d as int),
                    d > 0,
                    frac >= 0,
                    (u64::MAX - frac) as int == (d as int) * (((u64::MAX - frac) as int) / (
                    d as int)) + ((u64::MAX - frac) as int) % (d as int),
                    0 <= ((u64::MAX - frac) as int) % (d as int) < d as int,
            ;
        }
        return Err(Error::InvalidInteger);
    }
    proof {
        vstd::arithmetic::div_mod::lemma_fundamental_div_mod((u64::MAX - frac) as int, d as int);
        assert(whole * d + frac <= u64::MAX) by (nonlinear_arith)
            requires
                whole <= ((u64::MAX - frac) as int) / (d as int),
                d > 0,
                frac >= 0,
                (u64::MAX - frac) as int == (d as int) * (((u64::MAX - frac) as int) / (d as int))
                    + ((u64::MAX - frac) as int) % (d as int),
                0 <= ((u64::MAX - frac) as int) % (d as int) < d as int,
        ;
    }
    let amount: u64 = combine_units(whole, frac, decimals as u32);
    let mint: Address = st.snapshot.collaterals[ci].mint;
    let source: Address = match resolve_token_account(st, &mint, token_account) {
        Ok(a) => a,
        Err(e) => {
            return Err(e);
        },
    };
    let vault: Address = st.snapshot.vaults[ci];
    let mut accounts: Vec<AccountRef> = account_list_base(st);
    accounts.push(AccountRef { addr: source, is_signer: false, is_writable: true });
    accounts.push(AccountRef { addr: vault, is_signer: false, is_writable: true });
    let token_program = Address { bytes: pda::TOKEN_PROGRAM_ID };
    proof {
        assert(token_program@ =~= pda::TOKEN_PROGRAM_ID@);
    }
    accounts.push(AccountRef { addr: token_program, is_signer: false, is_writable: false });
    let mut data: Vec<u8> = Vec::new();
    push_u64_le(&mut data, DEPOSIT_TAG);
    data.push(if repay_only { 1 } else { 0 });
    push_u64_le(&mut data, amount);
    proof {
        assert(data@ =~= deposit_data(
            repay_only,
            combined_units(whole as int, frac as int, decimals as nat) as u64,
        ));
    }
    let program = Address { bytes: pda::ZO_PROGRAM_ID };
    proof {
        assert(program@ =~= pda::ZO_PROGRAM_ID@);
    }
    Ok(BuiltInstruction { program, accounts, data })
}

/// Builds the withdraw instruction. This is the second step of a
/// two-phase protocol: the caller first fetches and decodes the user's
/// current margin account, whose control field this builder references.
pub fn build_withdraw(
    st: &State,
    margin: &MarginView,
    symbol: &Vec<u8>,
    allow_borrow: bool,
    whole: u64,
    frac: u64,
    token_account: Option<Address>,
) -> (r: Result<BuiltInstruction, Error>)
    requires
        st.snapshot.wf(),
    ensures
        r matches Ok(ix) ==> {
            let ci = st.snapshot.collateral_index(symbol@);
            let decimals = st.snapshot.collaterals@[ci].decimals;
            &&& ci >= 0
            &&& decimals <= 19
            &&& amount_ok(whole as int, frac as int, decimals as nat)
            &&& ix.program@ == pda::ZO_PROGRAM_ID@
            &&& ix.data@ == withdraw_data(
                allow_borrow,
                combined_units(whole as int, frac as int, decimals as nat) as u64,
            )
            &&& ix.accounts@.len() == 9
            &&& ix.accounts@[0].addr@ == pda::ZO_STATE_KEY@
            &&& ix.accounts@[1].addr == st.zo_state_signer
            &&& ix.accounts@[2].addr == st.snapshot.cache
            &&& ix.accounts@[3].addr == st.authority && ix.accounts@[3].is_signer
            &&& ix.accounts@[4].addr == st.zo_margin_key
            &&& ix.accounts@[5].addr == margin.control
            &&& (match token_account {
                Option::Some(g) => ix.accounts@[6].addr == g,
                Option::None => Some(ix.accounts@[6].addr@) == pda::derived_address(
                    pda::ata_seeds(st.authority@, st.snapshot.collaterals@[ci].mint@),
                    pda::ATA_PROGRAM_ID@,
                ),
            })
            &&& ix.accounts@[7].addr == st.snapshot.vaults@[ci]
            &&& ix.accounts@[8].addr@ == pda::TOKEN_PROGRAM_ID@
        },
        r is Ok <==> ({
            let ci = st.snapshot.collateral_index(symbol@);
            &&& ci >= 0
            &&& st.snapshot.collaterals@[ci].decimals <= 19
            &&& amount_ok(whole as int, frac as int, st.snapshot.collaterals@[ci].decimals as nat)
            &&& (token_account is Some || pda::derived_address(
                pda::ata_seeds(st.authority@, st.snapshot.collaterals@[ci].mint@),
                pda::ATA_PROGRAM_ID@,
            ) is Some)
        }),
        r matches Err(e) ==> {
            let ci = st.snapshot.collateral_index(symbol@);
            &&& (e is CollateralSymbolNotFound <==> ci == -1)
            &&& e is InvalidInteger ==> ci >= 0 && !amount_ok(
                whole as int,
                frac as int,
                st.snapshot.collaterals@[ci].decimals as nat,
            )
            &&& e is Corrupt ==> ci >= 0 && st.snapshot.collaterals@[ci].decimals > 19
            &&& e is InvalidAddress ==> ci >= 0 && token_account is None && pda::derived_address(
                pda::ata_seeds(st.authority@, st.snapshot.collaterals@[ci].mint@),
                pda::ATA_PROGRAM_ID@,
            ) is None
        },
{
    let ci: usize = match st.collateral_symbol_index(symbol) {
        Ok(i) => i,
        Err(e) => {
            return Err(e);
        },
    };
    let decimals: u8 = st.snapshot.collaterals[ci].decimals;
    if decimals > 19 {
        return Err(Error::Corrupt);
    }
    let d: u64 = pow10_u64(decimals as u32);
    if frac >= d {
        return Err(Error::InvalidInteger);
    }
    if whole > (u64::MAX - frac) / d {
        proof {
            vstd::arithmetic::div_mod::lemma_fundamental_div_mod(
                (u64::MAX - frac) as int,
                d as int,
            );
            assert(whole * d + frac > u64::MAX) by (nonlinear_arith)
                requires
                    whole > ((u64::MAX - frac) as int) / (d as int),
                    d > 0,
                    frac >= 0,
                    (u64::MAX - frac) as int == (d as int) * (((u64::MAX - frac) as int) / (
                    d as int)) + ((u64::MAX - frac) as int) % (d as int),
                    0 <= ((u64::MAX - frac) as int) % (d as int) < d as int,
            ;
        }
        return Err(Error::InvalidInteger);
    }
    proof {
        vstd::arithmetic::div_mod::lemma_fundamental_div_mod((u64::MAX - frac) as int, d as int);
        assert(whole * d + frac <= u64::MAX) by (nonlinear_arith)
            requires
                whole <= ((u64::MAX - frac) as int) / (d as int),
                d > 0,
                frac >= 0,
                (u64::MAX - frac) as int == (d as int) * (((u64::MAX - frac) as int) / (d as int))
                    + ((u64::MAX - frac) as int) % (d as int),
                0 <= ((u64::MAX - frac) as int) % (d as int) < d as int,
        ;
    }
    let amount: u64 = combine_units(whole, frac, decimals as u32);
    let mint: Address = st.snapshot.collaterals[ci].mint;
    let source: Address = match resolve_token_account(st, &mint, token_account) {
        Ok(a) => a,
        Err(e) => {
            return Err(e);
        },
    };
    let vault: Address = st.snapshot.vaults[ci];
    let mut accounts: Vec<AccountRef> = account_list_base(st);
    accounts.push(AccountRef { addr: margin.control, is_signer: false, is_writable: true });
    accounts.push(AccountRef { addr: source, is_signer: false, is_writable: true });
    accounts.push(AccountRef { addr: vault, is_signer: false, is_writable: true });
    let token_program = Address { bytes: pda::TOKEN_PROGRAM_ID };
    proof {
        assert(token_program@ =~= pda::TOKEN_PROGRAM_ID@);
    }
    accounts.push(AccountRef { addr: token_program, is_signer: false, is_writable: false });
    let mut data: Vec<u8> = Vec::new();
    push_u64_le(&mut data, WITHDRAW_TAG);
    data.push(if allow_borrow { 1 } else { 0 });
    push_u64_le(&mut data, amount);
    proof {
        assert(data@ =~= withdraw_data(
            allow_borrow,
            combined_units(whole as int, frac as int, decimals as nat) as u64,
        ));
    }
    let program = Address { bytes: pda::ZO_PROGRAM_ID };
    proof {
        assert(program@ =~= pda::ZO_PROGRAM_ID@);
    }
    Ok(BuiltInstruction { program, accounts, data })
}

/// Builds the place-order instruction. The caller has already fetched the
/// market's order-book descriptor, the user's margin account (for its
/// control field) and the user's open-orders address, and converted price
/// and size to lots; this builder computes the quote quantity over a wide
/// intermediate and rejects, rather than wraps, a product that leaves the
/// 64-bit range. The iteration limit defaults to 20 and the client id to
/// zero when not supplied.
pub fn build_place_order(
    st: &State,
    mkt: &DexMarketView,
    margin: &MarginView,
    open_orders: Address,
    side: Side,
    order_type: OrderType,
    price_lots: u64,
    base_lots: u64,
    limit: Option<u16>,
    client_id: Option<u64>,
) -> (r: Result<BuiltInstruction, Error>)
    ensures
        r is Ok <==> price_lots * base_lots * mkt.pc_lot_size <= u64::MAX,
        r matches Err(e) ==> e is InvalidInteger,
        r matches Ok(ix) ==> {
            &&& ix.program@ == pda::ZO_PROGRAM_ID@
            &&& ix.data@ == place_order_data(
                side is Bid,
                price_lots,
                base_lots,
                (price_lots * base_lots * mkt.pc_lot_size) as u64,
                order_type,
                match limit {
                    Option::Some(l) => l,
                    Option::None => 20,
                },
                match client_id {
                    Option::Some(c) => c,
                    Option::None => 0,
                },
            )
            &&& ix.accounts@.len() == 14
            &&& ix.accounts@[0].addr@ == pda::ZO_STATE_KEY@
            &&& ix.accounts@[1].addr == st.zo_state_signer
            &&& ix.accounts@[2].addr == st.snapshot.cache
            &&& ix.accounts@[3].addr == st.authority && ix.accounts@[3].is_signer
            &&& ix.accounts@[4].addr == st.zo_margin_key
            &&& ix.accounts@[5].addr == margin.control
            &&& ix.accounts@[6].addr == open_orders
            &&& ix.accounts@[7].addr == mkt.own_address
            &&& ix.accounts@[8].addr == mkt.req_q
            &&& ix.accounts@[9].addr == mkt.event_q
            &&& ix.accounts@[10].addr == mkt.bids
            &&& ix.accounts@[11].addr == mkt.asks
            &&& ix.accounts@[12].addr@ == pda::ZO_DEX_PROGRAM_ID@
            &&& ix.accounts@[13].addr@ == pda::RENT_SYSVAR_ID@
        },
{
    let quote: u64 = match quote_quantity(price_lots, base_lots, mkt.pc_lot_size) {
        Some(q) => q,
        None => {
            return Err(Error::InvalidInteger);
        },
    };
    let mut accounts: Vec<AccountRef> = account_list_base(st);
    accounts.push(AccountRef { addr: margin.control, is_signer: false, is_writable: true });
    accounts.push(AccountRef { addr: open_orders, is_signer: false, is_writable: true });
    accounts.push(AccountRef { addr: mkt.own_address, is_signer: false, is_writable: true });
    accounts.push(AccountRef { addr: mkt.req_q, is_signer: false, is_writable: true });
    accounts.push(AccountRef { addr: mkt.event_q, is_signer: false, is_writable: true });
    accounts.push(AccountRef { addr: mkt.bids, is_signer: false, is_writable: true });
    accounts.push(AccountRef { addr: mkt.asks, is_signer: false, is_writable: true });
    let dex_program = Address { bytes: pda::ZO_DEX_PROGRAM_ID };
    let rent = Address { bytes: pda::RENT_SYSVAR_ID };
    proof {
        assert(dex_program@ =~= pda::ZO_DEX_PROGRAM_ID@);
        assert(rent@ =~= pda::RENT_SYSVAR_ID@);
    }
    accounts.push(AccountRef { addr: dex_program, is_signer: false, is_writable: false });
    accounts.push(AccountRef { addr: rent, is_signer: false, is_writable: false });
    let is_long: bool = match side {
        Side::Bid => true,
        Side::Ask => false,
    };
    let limit_v: u16 = match limit {
        Some(l) => l,
        None => 20,
    };
    let client_v: u64 = match client_id {
        Some(c) => c,
        None => 0,
    };
    let mut data: Vec<u8> = Vec::new();
    push_u64_le(&mut data, PLACE_ORDER_TAG);
    data.push(if is_long { 1 } else { 0 });
    push_u64_le(&mut data, price_lots);
    push_u64_le(&mut data, base_lots);
    push_u64_le(&mut data, quote);
    data.push(order_type.code());
    push_u16_le(&mut data, limit_v);
    push_u64_le(&mut data, client_v);
    proof {
        assert(data@ =~= place_order_data(
            side is Bid,
            price_lots,
            base_lots,
            (price_lots * base_lots * mkt.pc_lot_size) as u64,
            order_type,
            match limit {
                Option::Some(l) => l,
                Option::None => 20,
            },
            match client_id {
                Option::Some(c) => c,
                Option::None => 0,
            },
        ));
    }
    let program = Address { bytes: pda::ZO_PROGRAM_ID };
    proof {
        assert(program@ =~= pda::ZO_PROGRAM_ID@);
    }
    Ok(BuiltInstruction { program, accounts, data })
}

/// Builds the cancel-order instruction from any combination of filters.
/// Each absent filter is passed through as unconstrained — the builder
/// never fabricates a default that would widen or narrow the cancellation
/// beyond what the caller specified.
pub fn build_cancel_order(
    st: &State,
    mkt: &DexMarketView,
    margin: &MarginView,
    open_orders: Address,
    order_id: Option<u128>,
    side: Option<Side>,
    client_id: Option<u64>,
) -> (ix: BuiltInstruction)
    ensures
        ix.program@ == pda::ZO_PROGRAM_ID@,
        ix.data@ == cancel_order_data(
            order_id,
            match side {
                Option::Some(s) => Option::Some(s is Bid),
                Option::None => Option::None,
            },
            client_id,
        ),
        ix.accounts@.len() == 11,
        ix.accounts@[0].addr@ == pda::ZO_STATE_KEY@,
        ix.accounts@[1].addr == st.snapshot.cache,
        ix.accounts@[2].addr == st.authority && ix.accounts@[2].is_signer,
        ix.accounts@[3].addr == st.zo_margin_key,
        ix.accounts@[4].addr == margin.control,
        ix.accounts@[5].addr == open_orders,
        ix.accounts@[6].addr == mkt.own_address,
        ix.accounts@[7].addr == mkt.bids,
        ix.accounts@[8].addr == mkt.asks,
        ix.accounts@[9].addr == mkt.event_q,
        ix.accounts@[10].addr@ == pda::ZO_DEX_PROGRAM_ID@,
{
    let mut accounts: Vec<AccountRef> = Vec::new();
    let state = Address { bytes: pda::ZO_STATE_KEY };
    proof {
        assert(state@ =~= pda::ZO_STATE_KEY@);
    }
    accounts.push(AccountRef { addr: state, is_signer: false, is_writable: false });
    accounts.push(AccountRef { addr: st.snapshot.cache, is_signer: false, is_writable: true });
    accounts.push(AccountRef { addr: st.authority, is_signer: true, is_writable: false });
    accounts.push(AccountRef { addr: st.zo_margin_key, is_signer: false, is_writable: true });
    accounts.push(AccountRef { addr: margin.control, is_signer: false, is_writable: true });
    accounts.push(AccountRef { addr: open_orders, is_signer: false, is_writable: true });
    accounts.push(AccountRef { addr: mkt.own_address, is_signer: false, is_writable: true });
    accounts.push(AccountRef { addr: mkt.bids, is_signer: false, is_writable: true });
    accounts.push(AccountRef { addr: mkt.asks, is_signer: false, is_writable: true });
    accounts.push(AccountRef { addr: mkt.event_q, is_signer: false, is_writable: true });
    let dex_program = Address { bytes: pda::ZO_DEX_PROGRAM_ID };
    proof {
        assert(dex_program@ =~= pda::ZO_DEX_PROGRAM_ID@);
    }
    accounts.push(AccountRef { addr: dex_program, is_signer: false, is_writable: false });
    let mut data: Vec<u8> = Vec::new();
    push_u64_le(&mut data, CANCEL_ORDER_TAG);
    match order_id {
        Some(x) => {
            data.push(1);
            push_u128_le(&mut data, x);
        },
        None => {
            data.push(0);
        },
    }
    match side {
        Some(s) => {
            data.push(1);
            data.push(
                match s {
                    Side::Bid => 1,
                    Side::Ask => 0,
                },
            );
        },
        None => {
            data.push(0);
        },
    }
    match client_id {
        Some(x) => {
            data.push(1);
            push_u64_le(&mut data, x);
        },
        None => {
            data.push(0);
        },
    }
    proof {
        assert(data@ =~= cancel_order_data(
            order_id,
            match side {
                Option::Some(s) => Option::Some(s is Bid),
                Option::None => Option::None,
            },
            client_id,
        ));
    }
    let program = Address { bytes: pda::ZO_PROGRAM_ID };
    proof {
        assert(program@ =~= pda::ZO_PROGRAM_ID@);
    }
    BuiltInstruction { program, accounts, data }
}

} // verus!
