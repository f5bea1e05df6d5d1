//! The calculation core: from a validated snapshot to the derived metrics.
//!
//! All formulas are fixed-point integer arithmetic over values scaled by
//! [`crate::fixed::SCALE`].  The amortizing-loan payment uses the standard
//! formula `principal * r / (1 - (1+r)^(-n))`, with the reciprocal power
//! computed by [`crate::fixed::pow_fix_spec`]; a zero monthly rate falls
//! back to the straight-line case `principal / n`.

use vstd::prelude::*;
use vstd::arithmetic::div_mod::lemma_div_is_ordered;
use vstd::arithmetic::div_mod::lemma_div_multiples_vanish;
use vstd::arithmetic::div_mod::lemma_div_pos_is_pos;
use vstd::arithmetic::div_mod::lemma_div_nonincreasing;
use vstd::arithmetic::div_mod::lemma_fundamental_div_mod;
use vstd::arithmetic::div_mod::lemma_mod_division_less_than_divisor;
use crate::fixed::SCALE;
use crate::fixed::pow_fix_spec;
use crate::fixed::pow_fix;
use crate::fixed::lemma_pow_fix_bounds;
use crate::fixed::lemma_pow_fix_le_base;
use crate::inputs::RentalInputs;
use crate::inputs::ValidatedInputs;
use crate::inputs::valid_inputs;

verus! {

/// The derived metrics of one successful calculation, in fixed-point form.
#[derive(Clone, Copy, Debug, PartialEq, Eq, Structural)]
pub struct RentalResults {
    pub monthly_mortgage_payment: i128,
    pub monthly_cash_flow: i128,
    pub annual_cash_flow: i128,
    pub total_cash_invested: i128,
    pub cash_on_cash_return: i128,
    pub cap_rate: i128,
    pub noi: i128,
}

/// The loan principal: the part of the price not covered by the down payment.
pub open spec fn spec_principal(i: RentalInputs) -> int {
    i.purchase_price * (SCALE as int - i.down_payment_pct) / (SCALE as int)
}

/// The monthly interest rate: one twelfth of the annual rate, truncated.
pub open spec fn spec_monthly_rate(i: RentalInputs) -> int {
    i.interest_rate_pct as int / 12
}

/// The number of monthly payments over the loan term.
pub open spec fn spec_num_payments(i: RentalInputs) -> int {
    i.loan_term_years * 12
}

/// The scaled reciprocal of `1 + r`: the per-month discount factor.
pub open spec fn spec_recip_factor(r: int) -> int {
    (SCALE as int) * (SCALE as int) / (SCALE as int + r)
}

/// The monthly mortgage payment.  With a zero monthly rate the loan is
/// repaid straight-line; otherwise the amortizing formula
/// `principal * r / (1 - (1+r)^(-n))` is evaluated in scaled arithmetic.
pub open spec fn spec_payment(i: RentalInputs) -> int {
    let p = spec_principal(i);
    let r = spec_monthly_rate(i);
    let n = spec_num_payments(i);
    if r == 0 {
        p / n
    } else {
        p * r / (SCALE as int - pow_fix_spec(spec_recip_factor(r), n as nat))
    }
}

/// Rent minus expenses minus the mortgage payment, per month.
pub open spec fn spec_monthly_cash_flow(i: RentalInputs) -> int {
    i.monthly_rent - i.monthly_expenses - spec_payment(i)
}

/// Twelve months of cash flow.
pub open spec fn spec_annual_cash_flow(i: RentalInputs) -> int {
    12 * spec_monthly_cash_flow(i)
}

/// Down payment plus closing and rehab costs.
pub open spec fn spec_total_invested(i: RentalInputs) -> int {
    i.purchase_price * i.down_payment_pct / (SCALE as int) + i.closing_costs + i.rehab_costs
}

/// Net operating income: a year of rent less a year of expenses.
pub open spec fn spec_noi(i: RentalInputs) -> int {
    12 * (i.monthly_rent - i.monthly_expenses)
}

/// Integer division truncated toward zero, for signed numerators.
pub open spec fn div_trunc(a: int, b: int) -> int {
    if a >= 0 {
        a / b
    } else {
        -((-a) / b)
    }
}

/// Cash-on-cash return as a scaled percentage; a zero investment is
/// defined to yield zero rather than fail.
pub open spec fn spec_cash_on_cash(i: RentalInputs) -> int {
    let total = spec_total_invested(i);
    if total > 0 {
        div_trunc(spec_annual_cash_flow(i) * 100 * (SCALE as int), total)
    } else {
        0
    }
}

/// Capitalization rate as a scaled percentage of the purchase price.
pub open spec fn spec_cap_rate(i: RentalInputs) -> int {
    if i.purchase_price > 0 {
        div_trunc(spec_noi(i) * 100 * (SCALE as int), i.purchase_price as int)
    } else {
        0
    }
}

/// Every result field equals the value the formulas assign to the snapshot.
pub open spec fn results_match(r: RentalResults, i: RentalInputs) -> bool {
    &&& r.monthly_mortgage_payment as int == spec_payment(i)
    &&& r.monthly_cash_flow as int == spec_monthly_cash_flow(i)
    &&& r.annual_cash_flow as int == spec_annual_cash_flow(i)
    &&& r.total_cash_invested as int == spec_total_invested(i)
    &&& r.cash_on_cash_return as int == spec_cash_on_cash(i)
    &&& r.cap_rate as int == spec_cap_rate(i)
    &&& r.noi as int == spec_noi(i)
}

/// The one result record the formulas assign to a snapshot.
pub open spec fn spec_results(i: RentalInputs) -> RentalResults {
    RentalResults {
        monthly_mortgage_payment: spec_payment(i) as i128,
        monthly_cash_flow: spec_monthly_cash_flow(i) as i128,
        annual_cash_flow: spec_annual_cash_flow(i) as i128,
        total_cash_invested: spec_total_invested(i) as i128,
        cash_on_cash_return: spec_cash_on_cash(i) as i128,
        cap_rate: spec_cap_rate(i) as i128,
        noi: spec_noi(i) as i128,
    }
}

/// The discount factor lies strictly below one whole unit, and far enough
/// below it that the amortization denominator is at least half the monthly
/// rate.
proof fn lemma_recip_factor(r: int)
    requires
        1 <= r <= SCALE,
    ensures
        0 <= spec_recip_factor(r) < SCALE,
        2 * (SCALE as int - spec_recip_factor(r)) >= r,
{
    let s = SCALE as int;
    let inv = spec_recip_factor(r);
    lemma_div_pos_is_pos(s * s, s + r);
    lemma_fundamental_div_mod(s * s, s + r);
    lemma_mod_division_less_than_divisor(s * s, s + r);
    // floor property: inv * (s + r) <= s * s
    assert(inv * (s + r) <= s * s);
    assert(inv < s) by (nonlinear_arith)
        requires
            inv * (s + r) <= s * s,
            1 <= r,
            s == SCALE as int,
            0 <= inv;
    assert((2 * s - r) * (s + r) - 2 * (s * s) == r * (s - r)) by (nonlinear_arith);
    assert(r * (s - r) >= 0) by (nonlinear_arith)
        requires 1 <= r <= s;
    assert(2 * inv <= 2 * s - r) by (nonlinear_arith)
        requires
            inv * (s + r) <= s * s,
            2 * (s * s) <= (2 * s - r) * (s + r),
            s + r > 0;
}

/// The mortgage payment is never negative and never exceeds twice the
/// purchase price, and the amortization denominator is at least one.
pub proof fn lemma_payment_bounds(i: RentalInputs)
    requires
        valid_inputs(i),
    ensures
        0 <= spec_payment(i) <= 2 * i.purchase_price,
        spec_monthly_rate(i) != 0 ==> SCALE as int - pow_fix_spec(
            spec_recip_factor(spec_monthly_rate(i)),
            spec_num_payments(i) as nat,
        ) >= 1,
        0 <= spec_principal(i) <= i.purchase_price,
{
    let s = SCALE as int;
    let price = i.purchase_price as int;
    let p = spec_principal(i);
    let r = spec_monthly_rate(i);
    let n = spec_num_payments(i);
    assert(n >= 12) by (nonlinear_arith)
        requires n == i.loan_term_years * 12, i.loan_term_years >= 1;
    // 0 <= principal <= price
    assert(price * (s - i.down_payment_pct) <= price * s) by (nonlinear_arith)
        requires price >= 0, 0 <= i.down_payment_pct <= s;
    assert(price * (s - i.down_payment_pct) >= 0) by (nonlinear_arith)
        requires price >= 0, i.down_payment_pct <= s;
    lemma_div_is_ordered(price * (s - i.down_payment_pct), price * s, s);
    lemma_div_multiples_vanish(price, s);
    lemma_div_pos_is_pos(price * (s - i.down_payment_pct), s);
    assert(0 <= p <= price);
    if r == 0 {
        lemma_div_nonincreasing(p, n);
        lemma_div_pos_is_pos(p, n);
    } else {
        assert(1 <= r <= s);
        let inv = spec_recip_factor(r);
        lemma_recip_factor(r);
        lemma_pow_fix_bounds(inv, n as nat);
        lemma_pow_fix_le_base(inv, n as nat);
        let pw = pow_fix_spec(inv, n as nat);
        let denom = s - pw;
        assert(pw <= inv);
        assert(2 * denom >= r);
        assert(denom >= 1);
        let pay = p * r / denom;
        assert(p * r >= 0) by (nonlinear_arith)
            requires p >= 0, r >= 1;
        lemma_div_pos_is_pos(p * r, denom);
        lemma_fundamental_div_mod(p * r, denom);
        lemma_mod_division_less_than_divisor(p * r, denom);
        assert(pay * denom <= p * r);
        assert(pay <= 2 * p) by (nonlinear_arith)
            requires
                pay * denom <= p * r,
                2 * denom >= r,
                pay >= 0,
                r >= 1,
                denom >= 1,
                p >= 0;
        assert(2 * p <= 2 * price);
    }
}

/// Every result field stays far inside the 128-bit range, so the record
/// the formulas assign is exactly representable.
pub proof fn lemma_results_in_range(i: RentalInputs)
    requires
        valid_inputs(i),
    ensures
        -(i128::MAX as int) <= spec_payment(i) <= i128::MAX as int,
        -(i128::MAX as int) <= spec_monthly_cash_flow(i) <= i128::MAX as int,
        -(i128::MAX as int) <= spec_annual_cash_flow(i) <= i128::MAX as int,
        -(i128::MAX as int) <= spec_total_invested(i) <= i128::MAX as int,
        -(i128::MAX as int) <= spec_cash_on_cash(i) <= i128::MAX as int,
        -(i128::MAX as int) <= spec_cap_rate(i) <= i128::MAX as int,
        -(i128::MAX as int) <= spec_noi(i) <= i128::MAX as int,
        results_match(spec_results(i), i),
{
    let s = SCALE as int;
    let m = i64::MAX as int;
    lemma_payment_bounds(i);
    assert(spec_monthly_cash_flow(i) <= 2 * m && spec_monthly_cash_flow(i) >= -4 * m);
    // total invested
    let dpart = i.purchase_price * i.down_payment_pct / s;
    assert(i.purchase_price * i.down_payment_pct <= m * s) by (nonlinear_arith)
        requires 0 <= i.purchase_price <= m, 0 <= i.down_payment_pct <= s;
    assert(i.purchase_price * i.down_payment_pct >= 0) by (nonlinear_arith)
        requires 0 <= i.purchase_price, 0 <= i.down_payment_pct;
    lemma_div_is_ordered(i.purchase_price * i.down_payment_pct, m * s, s);
    lemma_div_multiples_vanish(m, s);
    lemma_div_pos_is_pos(i.purchase_price * i.down_payment_pct, s);
    assert(0 <= dpart <= m);
    assert(0 <= spec_total_invested(i) <= 3 * m);
    // cash-on-cash return
    let total = spec_total_invested(i);
    let acf = spec_annual_cash_flow(i);
    assert(-48 * m <= acf <= 24 * m);
    if total > 0 {
        if acf >= 0 {
            lemma_div_nonincreasing(acf * 100 * s, total);
            lemma_div_pos_is_pos(acf * 100 * s, total);
            assert(acf * 100 * s <= 24 * m * 100 * s) by (nonlinear_arith)
                requires acf <= 24 * m, s > 0, m > 0, acf >= 0;
        } else {
            lemma_div_nonincreasing((-acf) * 100 * s, total);
            lemma_div_pos_is_pos((-acf) * 100 * s, total);
            assert((-acf) * 100 * s <= 48 * m * 100 * s) by (nonlinear_arith)
                requires -acf <= 48 * m, s > 0, m > 0, -acf >= 0;
        }
    }
    // cap rate
    let noi = spec_noi(i);
    assert(-12 * m <= noi <= 12 * m);
    if noi >= 0 {
        lemma_div_nonincreasing(noi * 100 * s, i.purchase_price as int);
        lemma_div_pos_is_pos(noi * 100 * s, i.purchase_price as int);
        assert(noi * 100 * s <= 12 * m * 100 * s) by (nonlinear_arith)
            requires noi <= 12 * m, s > 0, m > 0, noi >= 0;
    } else {
        lemma_div_nonincreasing((-noi) * 100 * s, i.purchase_price as int);
        lemma_div_pos_is_pos((-noi) * 100 * s, i.purchase_price as int);
        assert((-noi) * 100 * s <= 12 * m * 100 * s) by (nonlinear_arith)
            requires -noi <= 12 * m, s > 0, m > 0, -noi >= 0;
    }
}

/// Derive the full set of metrics from a validated snapshot.  The result is
/// exactly the record the spec-level formulas assign, so identical inputs
/// always produce identical results.
pub fn calculate(v: &ValidatedInputs) -> (r: RentalResults)
    requires
        v.wf(),
    ensures
        results_match(r, v.inputs()),
        r == spec_results(v.inputs()),
{
    let i = v.get();
    proof {
        lemma_payment_bounds(i);
        lemma_results_in_range(i);
    }
    let s128: u128 = SCALE as u128;
    let price_u: u128 = i.purchase_price as u128;
    let dp_u: u128 = i.down_payment_pct as u128;
    let principal_u: u128 = price_u * (s128 - dp_u) / s128;
    let rate_u: u64 = i.interest_rate_pct as u64;
    let r_m: u64 = rate_u / 12;
    let n_u: u128 = (i.loan_term_years as u128) * 12;
    let pay_u: u128 = if r_m == 0 {
        principal_u / n_u
    } else {
        proof {
            lemma_recip_factor(r_m as int);
        }
        let inv_wide: u128 = s128 * s128 / (s128 + r_m as u128);
        let inv: u64 = inv_wide as u64;
        let pw: u64 = pow_fix(inv, n_u);
        proof {
            lemma_pow_fix_bounds(inv as int, n_u as nat);
            lemma_pow_fix_le_base(inv as int, n_u as nat);
        }
        let denom: u64 = SCALE - pw;
        proof {
            assert((principal_u as int) * (r_m as int) <= (i64::MAX as int) * (SCALE as int))
                by (nonlinear_arith)
                requires
                    0 <= principal_u as int <= i64::MAX as int,
                    0 <= r_m as int <= SCALE as int;
        }
        principal_u * (r_m as u128) / (denom as u128)
    };
    assert(pay_u as int == spec_payment(i));
    let pay_i: i128 = pay_u as i128;
    let rent_i: i128 = i.monthly_rent as i128;
    let exp_i: i128 = i.monthly_expenses as i128;
    let monthly: i128 = rent_i - exp_i - pay_i;
    let annual: i128 = 12 * monthly;
    proof {
        assert((price_u as int) * (dp_u as int) <= (i64::MAX as int) * (SCALE as int))
            by (nonlinear_arith)
            requires
                0 <= price_u as int <= i64::MAX as int,
                0 <= dp_u as int <= SCALE as int;
    }
    let total_u: u128 = price_u * dp_u / s128 + (i.closing_costs as u128) + (i.rehab_costs as u128);
    let total_i: i128 = total_u as i128;
    let noi_i: i128 = 12 * (rent_i - exp_i);
    let coc: i128 = if total_u > 0 {
        if annual >= 0 {
            ((annual as u128) * 100 * s128 / total_u) as i128
        } else {
            -((((-annual) as u128) * 100 * s128 / total_u) as i128)
        }
    } else {
        0
    };
    let cap: i128 = if noi_i >= 0 {
        ((noi_i as u128) * 100 * s128 / price_u) as i128
    } else {
        -((((-noi_i) as u128) * 100 * s128 / price_u) as i128)
    };
    RentalResults {
        monthly_mortgage_payment: pay_i,
        monthly_cash_flow: monthly,
        annual_cash_flow: annual,
        total_cash_invested: total_i,
        cash_on_cash_return: coc,
        cap_rate: cap,
        noi: noi_i,
    }
}

/// With the whole price paid down there is no loan, and so no mortgage
/// payment: the formulas assign it exactly zero.
pub proof fn lemma_full_down_payment_no_mortgage(i: RentalInputs)
    requires
        valid_inputs(i),
        i.down_payment_pct == SCALE,
    ensures
        spec_payment(i) == 0,
        spec_results(i).monthly_mortgage_payment == 0,
{
    let s = SCALE as int;
    let n = spec_num_payments(i);
    assert(n >= 12) by (nonlinear_arith)
        requires n == i.loan_term_years * 12, i.loan_term_years >= 1;
    assert(i.purchase_price * (s - i.down_payment_pct) == 0) by (nonlinear_arith)
        requires i.down_payment_pct == s;
    assert(spec_principal(i) == 0int / s);
    vstd::arithmetic::div_mod::lemma_div_of0(s);
    let r = spec_monthly_rate(i);
    if r == 0 {
        vstd::arithmetic::div_mod::lemma_div_of0(n);
    } else {
        lemma_recip_factor(r);
        lemma_pow_fix_bounds(spec_recip_factor(r), n as nat);
        lemma_pow_fix_le_base(spec_recip_factor(r), n as nat);
        let denom = s - pow_fix_spec(spec_recip_factor(r), n as nat);
        assert(2 * denom >= r);
        assert(denom >= 1);
        assert(spec_payment(i) == 0 * r / denom);
        assert(0 * r == 0) by (nonlinear_arith);
        vstd::arithmetic::div_mod::lemma_div_of0(denom);
    }
}

/// With a zero interest rate the loan is repaid straight-line: the payment
/// is exactly the principal divided by the number of monthly payments.
pub proof fn lemma_zero_interest_straight_line(i: RentalInputs)
    requires
        valid_inputs(i),
        i.interest_rate_pct == 0,
    ensures
        spec_payment(i) == spec_principal(i) / (i.loan_term_years * 12),
{
    assert(spec_monthly_rate(i) == 0int / 12);
    vstd::arithmetic::div_mod::lemma_div_of0(12);
}

/// The calculation is a pure function of its input: any two result records
/// that match the same snapshot are identical, bit for bit.
pub proof fn lemma_calculate_deterministic(r1: RentalResults, r2: RentalResults, i: RentalInputs)
    requires
        results_match(r1, i),
        results_match(r2, i),
    ensures
        r1 == r2,
{
}

} // verus!
