use vstd::prelude::*;
use vstd::arithmetic::div_mod::*;
use vstd::arithmetic::mul::*;

verus! {

/// Scale of the ledger's 128-bit fixed-point encoding: two to its 48
/// fractional bits.
pub const FIXED_SCALE: u64 = 0x1_0000_0000_0000;

/// Ten to the `p`.
pub open spec fn pow10(p: nat) -> nat
    decreases p,
{
    if p == 0 {
        1
    } else {
        10 * pow10((p - 1) as nat)
    }
}

pub proof fn lemma_pow10_pos(p: nat)
    ensures
        pow10(p) >= 1,
    decreases p,
{
    if p > 0 {
        lemma_pow10_pos((p - 1) as nat);
    }
}

pub proof fn lemma_pow10_mono(a: nat, b: nat)
    requires
        a <= b,
    ensures
        pow10(a) <= pow10(b),
    decreases b,
{
    if a < b {
        lemma_pow10_mono(a, (b - 1) as nat);
        lemma_pow10_pos((b - 1) as nat);
    }
}

proof fn lemma_pow10_19_value()
    ensures
        pow10(19) == 10_000_000_000_000_000_000,
{
    reveal_with_fuel(pow10, 20);
}

proof fn lemma_pow10_38_value()
    ensures
        pow10(38) == 100_000_000_000_000_000_000_000_000_000_000_000_000,
{
    reveal_with_fuel(pow10, 39);
}

/// `10^p` as a machine word; the ledger's decimal counts never exceed 19,
/// the largest power of ten a `u64` holds.
pub fn pow10_u64(p: u32) -> (r: u64)
    requires
        p <= 19,
    ensures
        r == pow10(p as nat),
{
    proof {
        lemma_pow10_19_value();
        lemma_pow10_mono(p as nat, 19);
    }
    let mut acc: u64 = 1;
    let mut i: u32 = 0;
    while i < p
        invariant
            i <= p <= 19,
            acc == pow10(i as nat),
            pow10(p as nat) <= u64::MAX,
        decreases p - i,
    {
        proof {
            lemma_pow10_mono((i + 1) as nat, p as nat);
        }
        acc = acc * 10;
        i = i + 1;
    }
    acc
}

/// `10^p` as a 128-bit word; `10^38` is the largest power of ten an
/// `i128` holds, so `p` never exceeds 38.
pub fn pow10_u128(p: u32) -> (r: u128)
    requires
        p <= 38,
    ensures
        r == pow10(p as nat),
{
    proof {
        lemma_pow10_38_value();
        lemma_pow10_mono(p as nat, 38);
    }
    let mut acc: u128 = 1;
    let mut i: u32 = 0;
    while i < p
        invariant
            i <= p <= 38,
            acc == pow10(i as nat),
            pow10(p as nat) <= u128::MAX,
        decreases p - i,
    {
        proof {
            lemma_pow10_mono((i + 1) as nat, p as nat);
        }
        acc = acc * 10;
        i = i + 1;
    }
    acc
}

/// Quotient of the two-operand scaled-integer convention: `n` split against
/// `10^p` by division truncating toward zero.
pub open spec fn trunc_div_pow10(n: int, p: nat) -> int {
    if n >= 0 {
        n / pow10(p) as int
    } else {
        -((-n) / pow10(p) as int)
    }
}

/// Remainder matching `trunc_div_pow10`: carries the sign of `n`.
pub open spec fn trunc_rem_pow10(n: int, p: nat) -> int {
    n - trunc_div_pow10(n, p) * pow10(p) as int
}

/// Splits a signed fixed-point ledger integer with `p` implicit decimal
/// digits into integer part and fractional remainder, truncating toward
/// zero on the magnitude. The caller renders `q + r / 10^p`; both parts
/// carry the sign of `n`, so no precision is lost to an intermediate float.
pub fn ledger_to_parts(n: i128, p: u32) -> (qr: (i128, i128))
    requires
        p <= 38,
    ensures
        qr.0 == trunc_div_pow10(n as int, p as nat),
        qr.1 == trunc_rem_pow10(n as int, p as nat),
        n == qr.0 * pow10(p as nat) + qr.1,
        n >= 0 ==> 0 <= qr.1 < pow10(p as nat) && qr.0 >= 0,
        n < 0 ==> -(pow10(p as nat) as int) < qr.1 <= 0 && qr.0 <= 0,
{
    proof {
        lemma_pow10_38_value();
        lemma_pow10_mono(p as nat, 38);
        lemma_pow10_pos(p as nat);
    }
    if p == 0 {
        return (n, 0);
    }
    proof {
        reveal_with_fuel(pow10, 3);
        lemma_pow10_mono(1, p as nat);
    }
    let d: u128 = pow10_u128(p);
    if n >= 0 {
        let m: u128 = n as u128;
        let q: u128 = m / d;
        let r: u128 = m % d;
        proof {
            lemma_fundamental_div_mod(m as int, d as int);
            lemma_div_nonincreasing(m as int, d as int);
            lemma_div_pos_is_pos(m as int, d as int);
            assert((q as int) * (d as int) == (d as int) * (q as int)) by (nonlinear_arith);
        }
        ((q as i128), (r as i128))
    } else {
        let m: u128 = ((-(n + 1)) as u128) + 1;
        let q: u128 = m / d;
        let r: u128 = m % d;
        proof {
            lemma_fundamental_div_mod(m as int, d as int);
            lemma_div_pos_is_pos(m as int, d as int);
            lemma_div_is_ordered_by_denominator(m as int, 10, d as int);
            lemma_div_is_ordered(m as int, 0x8000_0000_0000_0000_0000_0000_0000_0000, 10);
            lemma_mul_unary_negation(q as int, d as int);
            assert((q as int) * (d as int) == (d as int) * (q as int)) by (nonlinear_arith);
        }
        (-(q as i128), -(r as i128))
    }
}

/// The ledger integer that a non-negative decimal amount denotes: whole
/// units scaled up by `10^p`, plus the already-truncated fractional units.
pub open spec fn combined_units(whole: int, frac: int, p: nat) -> int {
    whole * pow10(p) as int + frac
}

/// Combines the split non-negative amount `whole + frac / 10^p` into the
/// ledger's integer representation. The fractional part must already be
/// truncated (not rounded) to `p` digits, so the result never exceeds what
/// the caller authorised.
pub fn combine_units(whole: u64, frac: u64, p: u32) -> (r: u64)
    requires
        p <= 19,
        frac < pow10(p as nat),
        combined_units(whole as int, frac as int, p as nat) <= u64::MAX,
    ensures
        r == combined_units(whole as int, frac as int, p as nat),
{
    let d: u64 = pow10_u64(p);
    whole * d + frac
}

/// Exact scale round trip at the integer level: splitting a non-negative
/// ledger integer into whole and fractional parts against `10^p` and
/// recombining them returns the original value. This is the round trip the
/// converter pair guarantees on amounts that are exact multiples of
/// `10^-p`, where the decimal rendering loses nothing.
pub proof fn lemma_scale_roundtrip(n: int, p: nat)
    requires
        n >= 0,
    ensures
        combined_units(trunc_div_pow10(n, p), trunc_rem_pow10(n, p), p) == n,
{
}

/// The value of a 128-bit fixed-point product: the full product of the two
/// encodings scaled back down, rounded toward negative infinity, exactly as
/// the ledger's 256-bit intermediate multiply computes it.
pub open spec fn fixed_mul_value(a: int, b: int) -> int {
    (a * b) / FIXED_SCALE as int
}

/// Whether the scaled-down product still fits the 128-bit encoding.
pub open spec fn fixed_mul_fits(a: int, b: int) -> bool {
    i128::MIN <= fixed_mul_value(a, b) <= i128::MAX
}

/// Relies on `fixed::types::I80F48::checked_mul`: the product of two
/// fixed-point encodings is formed over a 256-bit intermediate, shifted
/// down by the 48 fractional bits (rounding toward negative infinity), and
/// `None` is returned exactly when the shifted product no longer fits.
#[verifier::external_body]
fn i80f48_checked_mul(a: i128, b: i128) -> (r: Option<i128>)
    ensures
        r is Some <==> fixed_mul_fits(a as int, b as int),
        r matches Some(v) ==> v == fixed_mul_value(a as int, b as int),
{
    fixed::types::I80F48::from_bits(a)
        .checked_mul(fixed::types::I80F48::from_bits(b))
        .map(|x| x.to_bits())
}

/// The multiplier a raw collateral balance selects: non-negative balances
/// accrue supply interest, negative ones borrow interest.
pub open spec fn selected_multiplier(collateral: int, supply: int, borrow: int) -> int {
    if collateral >= 0 {
        supply
    } else {
        borrow
    }
}

/// Interest-adjusted value of one raw collateral balance: the balance times
/// the multiplier its sign selects. A balance of zero uses the supply
/// multiplier. `None` exactly when the product leaves the fixed-point range.
pub fn adjusted_balance(collateral: i128, supply_mult: i128, borrow_mult: i128) -> (r: Option<
    i128,
>)
    ensures
        ({
            let m = selected_multiplier(collateral as int, supply_mult as int, borrow_mult as int);
            &&& r is Some <==> fixed_mul_fits(collateral as int, m)
            &&& r matches Some(v) ==> v == fixed_mul_value(collateral as int, m)
        }),
{
    if collateral >= 0 {
        i80f48_checked_mul(collateral, supply_mult)
    } else {
        i80f48_checked_mul(collateral, borrow_mult)
    }
}

/// Quote-side quantity of an order: price lots times base lots times the
/// market's quote lot size, computed over 128-bit intermediates. `None`
/// exactly when the full product does not fit the 64-bit wire field, so a
/// wraparound can never be submitted.
pub fn quote_quantity(price_lots: u64, base_lots: u64, quote_lot_size: u64) -> (r: Option<u64>)
    ensures
        r is Some <==> price_lots * base_lots * quote_lot_size <= u64::MAX,
        r matches Some(v) ==> v == price_lots * base_lots * quote_lot_size,
{
    proof {
        lemma_mul_upper_bound(price_lots as int, u64::MAX as int, base_lots as int, u64::MAX as int);
    }
    let wide: u128 = (price_lots as u128) * (base_lots as u128);
    match wide.checked_mul(quote_lot_size as u128) {
        Some(full) => {
            if full <= u64::MAX as u128 {
                Some(full as u64)
            } else {
                None
            }
        },
        None => None,
    }
}

} // verus!
