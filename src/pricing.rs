use vstd::prelude::*;
use crate::error::AmmError;

verus! {

/// Trading fee in basis points (0.25%).
pub const FEE_BPS: u16 = 25;

/// Basis points in one whole.
pub const BPS_DENOMINATOR: u128 = 10000;

/// Output of a constant-product trade before the fee: what leaves the output reserve
/// so that the product of the reserves, rounded down, is kept.
pub open spec fn gross_out(reserve_in: nat, reserve_out: nat, amount_in: nat) -> nat
    recommends
        reserve_in + amount_in > 0,
{
    (reserve_out - (reserve_in * reserve_out) / (reserve_in + amount_in)) as nat
}

/// Fee withheld from a gross output.
pub open spec fn fee_of(gross: nat) -> nat {
    gross * (FEE_BPS as nat) / 10000
}

/// Output paid to the trader after the fee.
pub open spec fn net_out(reserve_in: nat, reserve_out: nat, amount_in: nat) -> nat {
    (gross_out(reserve_in, reserve_out, amount_in) - fee_of(
        gross_out(reserve_in, reserve_out, amount_in),
    )) as nat
}

/// Result of pricing a swap against a quote reserve `x` and a bond reserve `y`:
/// `None` where the formula divides by zero.
pub open spec fn swap_result(x: nat, y: nat, amount_in: nat, swap_for_bond: bool) -> Option<nat> {
    if swap_for_bond {
        if x + amount_in == 0 {
            None
        } else {
            Some(net_out(x, y, amount_in))
        }
    } else {
        if y + amount_in == 0 {
            None
        } else {
            Some(net_out(y, x, amount_in))
        }
    }
}

proof fn lemma_quotient_bounded(a: nat, b: nat, c: nat)
    requires
        a + c > 0,
    ensures
        (a * b) / (a + c) <= b,
        (a * b) / (a + c) >= 0,
{
    assert((a * b) <= (a + c) * b) by (nonlinear_arith);
    assert((a * b) / (a + c) <= ((a + c) * b) / (a + c)) by (nonlinear_arith)
        requires
            a * b <= (a + c) * b,
            a + c > 0,
    ;
    assert(((a + c) * b) / (a + c) == b) by (nonlinear_arith)
        requires
            a + c > 0,
    ;
    assert((a * b) / (a + c) >= 0) by (nonlinear_arith)
        requires
            a + c > 0,
    ;
}

/// The gross output never exceeds the output reserve, the fee never exceeds the gross
/// output, and so the net output fits in the output reserve.
pub proof fn lemma_net_out_bounded(reserve_in: nat, reserve_out: nat, amount_in: nat)
    requires
        reserve_in + amount_in > 0,
    ensures
        gross_out(reserve_in, reserve_out, amount_in) <= reserve_out,
        fee_of(gross_out(reserve_in, reserve_out, amount_in)) <= gross_out(
            reserve_in,
            reserve_out,
            amount_in,
        ),
        net_out(reserve_in, reserve_out, amount_in) <= reserve_out,
{
    lemma_quotient_bounded(reserve_in, reserve_out, amount_in);
    let g = gross_out(reserve_in, reserve_out, amount_in);
    assert(g * 25 / 10000 <= g) by (nonlinear_arith);
}

/// Prices a swap of `amount_in` against the quote reserve `x` and the bond reserve `y`:
/// `swap_for_bond` sells quote for bond, otherwise bond is sold for quote. The reserves are
/// widened so that their product cannot overflow; the only fault is a division by zero,
/// when the input reserve and the amount are both zero.
pub fn quote_swap(x: u64, y: u64, amount_in: u64, swap_for_bond: bool) -> (r: Result<u64, AmmError>)
    ensures
        match swap_result(x as nat, y as nat, amount_in as nat, swap_for_bond) {
            Some(n) => r == Ok::<u64, AmmError>(n as u64),
            None => r == Err::<u64, AmmError>(AmmError::ArithmeticFault),
        },
        r is Ok ==> r->Ok_0 as nat == swap_result(
            x as nat,
            y as nat,
            amount_in as nat,
            swap_for_bond,
        )->Some_0,
{
    let (reserve_in, reserve_out): (u128, u128) = if swap_for_bond {
        (x as u128, y as u128)
    } else {
        (y as u128, x as u128)
    };
    let a = amount_in as u128;
    proof {
        assert(reserve_in * reserve_out <= u64::MAX * u64::MAX) by (nonlinear_arith)
            requires
                reserve_in <= u64::MAX,
                reserve_out <= u64::MAX,
        ;
    }
    let k = match reserve_in.checked_mul(reserve_out) {
        Some(v) => v,
        None => return Err(AmmError::ArithmeticFault),
    };
    let new_in = match reserve_in.checked_add(a) {
        Some(v) => v,
        None => return Err(AmmError::ArithmeticFault),
    };
    let new_out = match k.checked_div(new_in) {
        Some(v) => v,
        None => return Err(AmmError::ArithmeticFault),
    };
    proof {
        lemma_net_out_bounded(reserve_in as nat, reserve_out as nat, a as nat);
        lemma_quotient_bounded(reserve_in as nat, reserve_out as nat, a as nat);
    }
    let gross = match reserve_out.checked_sub(new_out) {
        Some(v) => v,
        None => return Err(AmmError::ArithmeticFault),
    };
    let scaled = match gross.checked_mul(FEE_BPS as u128) {
        Some(v) => v,
        None => return Err(AmmError::ArithmeticFault),
    };
    let fee = match scaled.checked_div(BPS_DENOMINATOR) {
        Some(v) => v,
        None => return Err(AmmError::ArithmeticFault),
    };
    let out = match gross.checked_sub(fee) {
        Some(v) => v,
        None => return Err(AmmError::ArithmeticFault),
    };
    Ok(out as u64)
}

} // verus!

verus! {

/// Withholding the fee keeps the product of the reserves from shrinking: once the input
/// reserve has grown by `amount_in` and the output reserve has paid out the net output, their
/// product is at least the old product, and strictly larger whenever the fee is positive.
/// With no fee and an inexact division the rounding can lose a little, so that case is left
/// out.
pub proof fn lemma_product_non_decreasing(reserve_in: nat, reserve_out: nat, amount_in: nat)
    requires
        reserve_in + amount_in > 0,
        fee_of(gross_out(reserve_in, reserve_out, amount_in)) > 0 || (reserve_in * reserve_out)
            % (reserve_in + amount_in) == 0,
    ensures
        (reserve_in + amount_in) * (reserve_out - net_out(reserve_in, reserve_out, amount_in))
            >= reserve_in * reserve_out,
        fee_of(gross_out(reserve_in, reserve_out, amount_in)) > 0 ==> (reserve_in + amount_in) * (
        reserve_out - net_out(reserve_in, reserve_out, amount_in)) > reserve_in * reserve_out,
{
    let s = reserve_in + amount_in;
    let k = reserve_in * reserve_out;
    let q = k / s;
    let rem = k % s;
    lemma_net_out_bounded(reserve_in, reserve_out, amount_in);
    lemma_quotient_bounded(reserve_in, reserve_out, amount_in);
    let f = fee_of(gross_out(reserve_in, reserve_out, amount_in));
    assert(k == s * q + rem && 0 <= rem < s) by (nonlinear_arith)
        requires
            s > 0,
            q == k / s,
            rem == k % s,
    ;
    assert(reserve_out - net_out(reserve_in, reserve_out, amount_in) == q + f);
    assert(s * (q + f) == s * q + s * f) by (nonlinear_arith);
    if f > 0 {
        assert(s * f >= s) by (nonlinear_arith)
            requires
                f >= 1,
                s > 0,
        ;
    } else {
        assert(s * f == 0) by (nonlinear_arith)
            requires
                f == 0,
        ;
    }
}

/// The product of the reserves after a priced swap, in either direction, is at least the
/// product before, and strictly larger whenever a positive fee was withheld (see
/// [`lemma_product_non_decreasing`] for the inputs left out).
pub proof fn lemma_swap_product_non_decreasing(x: nat, y: nat, amount_in: nat, swap_for_bond: bool)
    requires
        swap_result(x, y, amount_in, swap_for_bond) is Some,
        swap_for_bond ==> fee_of(gross_out(x, y, amount_in)) > 0 || (x * y) % (x + amount_in)
            == 0,
        !swap_for_bond ==> fee_of(gross_out(y, x, amount_in)) > 0 || (y * x) % (y + amount_in)
            == 0,
    ensures
        swap_for_bond ==> (x + amount_in) * (y - swap_result(x, y, amount_in, swap_for_bond)->Some_0)
            >= x * y,
        !swap_for_bond ==> (x - swap_result(x, y, amount_in, swap_for_bond)->Some_0) * (y
            + amount_in) >= x * y,
        swap_for_bond && fee_of(gross_out(x, y, amount_in)) > 0 ==> (x + amount_in) * (y
            - swap_result(x, y, amount_in, swap_for_bond)->Some_0) > x * y,
        !swap_for_bond && fee_of(gross_out(y, x, amount_in)) > 0 ==> (x - swap_result(
            x,
            y,
            amount_in,
            swap_for_bond,
        )->Some_0) * (y + amount_in) > x * y,
{
    if swap_for_bond {
        lemma_product_non_decreasing(x, y, amount_in);
    } else {
        lemma_product_non_decreasing(y, x, amount_in);
        let n = net_out(y, x, amount_in);
        assert((x - n) * (y + amount_in) == (y + amount_in) * (x - n)) by (nonlinear_arith);
        assert(y * x == x * y) by (nonlinear_arith);
    }
}

/// Selling into a pool whose quote reserve is empty pays out no quote at all.
pub proof fn lemma_empty_quote_reserve_pays_nothing(y: nat, amount_in: nat)
    requires
        y + amount_in > 0,
    ensures
        swap_result(0, y, amount_in, false) == Some(0nat),
{
    assert((y * 0) / (y + amount_in) == 0) by (nonlinear_arith)
        requires
            y + amount_in > 0,
    ;
    assert(fee_of(0) == 0);
}

} // verus!
