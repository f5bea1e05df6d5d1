//! Decoding a JSON request into a [`RentalInputs`] snapshot.
//!
//! The request is one JSON object whose members are the eight input fields,
//! each with a plain decimal number (no exponents), in any order.  Every
//! field must appear exactly once; unknown members, repeated members,
//! missing members, a fractional loan term, and any other shape of text are
//! each rejected with a [`DecodeReason`].

use vstd::prelude::*;

verus! {

use crate::fixed::SCALE;
use crate::inputs::RentalInputs;
use crate::inputs::InputField;
use crate::codec::DecodeReason;
use crate::codec::spec_skip_ws;
use crate::codec::spec_parse_number;
use crate::codec::spec_abs;
use crate::codec::skip_ws;
use crate::codec::parse_number;

/// Whether `name` occurs in `s` starting exactly at index `i`.
pub open spec fn spec_match_at(s: Seq<char>, i: int, name: Seq<char>) -> bool {
    i + name.len() <= s.len() && s.subrange(i, i + name.len()) == name
}

/// A field name, with its closing quote, read at index `i`; `None` when no
/// known field name starts there.
pub open spec fn spec_parse_key(s: Seq<char>, i: int) -> Option<(InputField, int)> {
    if spec_match_at(s, i, "purchase_price\""@) {
        Some((InputField::PurchasePrice, i + "purchase_price\""@.len()))
    } else if spec_match_at(s, i, "down_payment_pct\""@) {
        Some((InputField::DownPaymentPct, i + "down_payment_pct\""@.len()))
    } else if spec_match_at(s, i, "interest_rate_pct\""@) {
        Some((InputField::InterestRatePct, i + "interest_rate_pct\""@.len()))
    } else if spec_match_at(s, i, "loan_term_years\""@) {
        Some((InputField::LoanTermYears, i + "loan_term_years\""@.len()))
    } else if spec_match_at(s, i, "monthly_rent\""@) {
        Some((InputField::MonthlyRent, i + "monthly_rent\""@.len()))
    } else if spec_match_at(s, i, "monthly_expenses\""@) {
        Some((InputField::MonthlyExpenses, i + "monthly_expenses\""@.len()))
    } else if spec_match_at(s, i, "closing_costs\""@) {
        Some((InputField::ClosingCosts, i + "closing_costs\""@.len()))
    } else if spec_match_at(s, i, "rehab_costs\""@) {
        Some((InputField::RehabCosts, i + "rehab_costs\""@.len()))
    } else {
        None
    }
}

/// The fields collected so far while walking the object's members.
pub struct PartialInputs {
    pub purchase_price: Option<i64>,
    pub down_payment_pct: Option<i64>,
    pub interest_rate_pct: Option<i64>,
    pub loan_term_years: Option<i64>,
    pub monthly_rent: Option<i64>,
    pub monthly_expenses: Option<i64>,
    pub closing_costs: Option<i64>,
    pub rehab_costs: Option<i64>,
}

/// No field collected yet.
pub open spec fn spec_empty_partial() -> PartialInputs {
    PartialInputs {
        purchase_price: None,
        down_payment_pct: None,
        interest_rate_pct: None,
        loan_term_years: None,
        monthly_rent: None,
        monthly_expenses: None,
        closing_costs: None,
        rehab_costs: None,
    }
}

/// Record one parsed member.  A repeated field is rejected; the loan term
/// must be a whole number of years and is stored unscaled.
pub open spec fn spec_set_field(a: PartialInputs, f: InputField, v: int) -> Result<
    PartialInputs,
    DecodeReason,
> {
    match f {
        InputField::PurchasePrice => if a.purchase_price is Some {
            Err(DecodeReason::DuplicateField)
        } else {
            Ok(PartialInputs { purchase_price: Some(v as i64), ..a })
        },
        InputField::DownPaymentPct => if a.down_payment_pct is Some {
            Err(DecodeReason::DuplicateField)
        } else {
            Ok(PartialInputs { down_payment_pct: Some(v as i64), ..a })
        },
        InputField::InterestRatePct => if a.interest_rate_pct is Some {
            Err(DecodeReason::DuplicateField)
        } else {
            Ok(PartialInputs { interest_rate_pct: Some(v as i64), ..a })
        },
        InputField::LoanTermYears => if a.loan_term_years is Some {
            Err(DecodeReason::DuplicateField)
        } else if spec_abs(v) % (SCALE as int) != 0 {
            Err(DecodeReason::LoanTermNotInteger)
        } else {
            let y = spec_abs(v) / (SCALE as int);
            Ok(
                PartialInputs {
                    loan_term_years: Some((if v < 0 { -y } else { y }) as i64),
                    ..a
                },
            )
        },
        InputField::MonthlyRent => if a.monthly_rent is Some {
            Err(DecodeReason::DuplicateField)
        } else {
            Ok(PartialInputs { monthly_rent: Some(v as i64), ..a })
        },
        InputField::MonthlyExpenses => if a.monthly_expenses is Some {
            Err(DecodeReason::DuplicateField)
        } else {
            Ok(PartialInputs { monthly_expenses: Some(v as i64), ..a })
        },
        InputField::ClosingCosts => if a.closing_costs is Some {
            Err(DecodeReason::DuplicateField)
        } else {
            Ok(PartialInputs { closing_costs: Some(v as i64), ..a })
        },
        InputField::RehabCosts => if a.rehab_costs is Some {
            Err(DecodeReason::DuplicateField)
        } else {
            Ok(PartialInputs { rehab_costs: Some(v as i64), ..a })
        },
    }
}

/// Assemble the snapshot once the object is closed: every field must have
/// been seen.
pub open spec fn spec_finish(a: PartialInputs) -> Result<RentalInputs, DecodeReason> {
    if a.purchase_price is Some && a.down_payment_pct is Some && a.interest_rate_pct is Some
        && a.loan_term_years is Some && a.monthly_rent is Some && a.monthly_expenses is Some
        && a.closing_costs is Some && a.rehab_costs is Some {
        Ok(
            RentalInputs {
                purchase_price: a.purchase_price->Some_0,
                down_payment_pct: a.down_payment_pct->Some_0,
                interest_rate_pct: a.interest_rate_pct->Some_0,
                loan_term_years: a.loan_term_years->Some_0,
                monthly_rent: a.monthly_rent->Some_0,
                monthly_expenses: a.monthly_expenses->Some_0,
                closing_costs: a.closing_costs->Some_0,
                rehab_costs: a.rehab_costs->Some_0,
            },
        )
    } else {
        Err(DecodeReason::MissingField)
    }
}

/// Parse the members of the object from index `i` (which must hold the
/// opening quote of a field name) to the closing brace and the end of the
/// text.  `fuel` bounds the recursion; nine members always suffice, since
/// the ninth distinct member of an eight-field object must repeat one.
pub open spec fn spec_parse_pairs(
    s: Seq<char>,
    i: int,
    a: PartialInputs,
    fuel: nat,
) -> Result<RentalInputs, DecodeReason>
    decreases fuel,
{
    if fuel == 0 {
        Err(DecodeReason::Syntax)
    } else if !(i < s.len() && s[i] == '"') {
        Err(DecodeReason::Syntax)
    } else {
        match spec_parse_key(s, i + 1) {
            None => Err(DecodeReason::UnknownField),
            Some(kp) => {
                let k2 = spec_skip_ws(s, kp.1);
                if !(k2 < s.len() && s[k2] == ':') {
                    Err(DecodeReason::Syntax)
                } else {
                    let k3 = spec_skip_ws(s, k2 + 1);
                    match spec_parse_number(s, k3) {
                        Err(e) => Err(e),
                        Ok(p) => match spec_set_field(a, kp.0, p.0) {
                            Err(e) => Err(e),
                            Ok(a2) => {
                                let k5 = spec_skip_ws(s, p.1);
                                if k5 < s.len() && s[k5] == ',' {
                                    spec_parse_pairs(
                                        s,
                                        spec_skip_ws(s, k5 + 1),
                                        a2,
                                        (fuel - 1) as nat,
                                    )
                                } else if k5 < s.len() && s[k5] == '}' {
                                    if spec_skip_ws(s, k5 + 1) == s.len() {
                                        spec_finish(a2)
                                    } else {
                                        Err(DecodeReason::Syntax)
                                    }
                                } else {
                                    Err(DecodeReason::Syntax)
                                }
                            },
                        },
                    }
                }
            },
        }
    }
}

/// Decode a whole request: optional whitespace, one object with all eight
/// fields, optional whitespace, end of text.
pub open spec fn spec_decode(s: Seq<char>) -> Result<RentalInputs, DecodeReason> {
    let i0 = spec_skip_ws(s, 0);
    if !(i0 < s.len() && s[i0] == '{') {
        Err(DecodeReason::Syntax)
    } else {
        let i1 = spec_skip_ws(s, i0 + 1);
        if i1 < s.len() && s[i1] == '}' {
            if spec_skip_ws(s, i1 + 1) == s.len() {
                Err(DecodeReason::MissingField)
            } else {
                Err(DecodeReason::Syntax)
            }
        } else {
            spec_parse_pairs(s, i1, spec_empty_partial(), 9)
        }
    }
}

/// Whether `name` occurs in `s` starting exactly at index `i`.
fn match_at(s: &str, i: usize, name: &str) -> (b: bool)
    requires
        i <= s@.len(),
    ensures
        b == spec_match_at(s@, i as int, name@),
{
    let n = s.unicode_len();
    let nl = name.unicode_len();
    if nl > n - i {
        return false;
    }
    let mut k: usize = 0;
    while k < nl
        invariant
            0 <= k <= nl,
            i + nl <= n,
            n == s@.len(),
            nl == name@.len(),
            forall|t: int| 0 <= t < k ==> s@[i + t] == name@[t],
        decreases nl - k,
    {
        if s.get_char(i + k) != name.get_char(k) {
            proof {
                if spec_match_at(s@, i as int, name@) {
                    assert(s@.subrange(i as int, i + name@.len())[k as int] == name@[k as int]);
                }
            }
            return false;
        }
        k += 1;
    }
    proof {
        assert(s@.subrange(i as int, i + name@.len()) =~= name@);
    }
    true
}

/// Read a field name, with its closing quote, at index `i`.
fn parse_key(s: &str, i: usize) -> (r: Option<(InputField, usize)>)
    requires
        i <= s@.len(),
    ensures
        r matches Some(q) ==> spec_parse_key(s@, i as int) == Some((q.0, q.1 as int)) && i <= q.1
            <= s@.len(),
        r is None ==> spec_parse_key(s@, i as int) is None,
{
    let n = s.unicode_len();
    if match_at(s, i, "purchase_price\"") {
        Some((InputField::PurchasePrice, i + "purchase_price\"".unicode_len()))
    } else if match_at(s, i, "down_payment_pct\"") {
        Some((InputField::DownPaymentPct, i + "down_payment_pct\"".unicode_len()))
    } else if match_at(s, i, "interest_rate_pct\"") {
        Some((InputField::InterestRatePct, i + "interest_rate_pct\"".unicode_len()))
    } else if match_at(s, i, "loan_term_years\"") {
        Some((InputField::LoanTermYears, i + "loan_term_years\"".unicode_len()))
    } else if match_at(s, i, "monthly_rent\"") {
        Some((InputField::MonthlyRent, i + "monthly_rent\"".unicode_len()))
    } else if match_at(s, i, "monthly_expenses\"") {
        Some((InputField::MonthlyExpenses, i + "monthly_expenses\"".unicode_len()))
    } else if match_at(s, i, "closing_costs\"") {
        Some((InputField::ClosingCosts, i + "closing_costs\"".unicode_len()))
    } else if match_at(s, i, "rehab_costs\"") {
        Some((InputField::RehabCosts, i + "rehab_costs\"".unicode_len()))
    } else {
        None
    }
}

/// No field collected yet.
fn empty_partial() -> (r: PartialInputs)
    ensures
        r == spec_empty_partial(),
{
    PartialInputs {
        purchase_price: None,
        down_payment_pct: None,
        interest_rate_pct: None,
        loan_term_years: None,
        monthly_rent: None,
        monthly_expenses: None,
        closing_costs: None,
        rehab_costs: None,
    }
}

/// Record one parsed member.
fn set_field(a: PartialInputs, f: InputField, v: i64) -> (r: Result<PartialInputs, DecodeReason>)
    requires
        -(i64::MAX as int) <= v as int,
    ensures
        r == spec_set_field(a, f, v as int),
{
    match f {
        InputField::PurchasePrice => {
            if a.purchase_price.is_some() {
                Err(DecodeReason::DuplicateField)
            } else {
                let mut b = a;
                b.purchase_price = Some(v);
                Ok(b)
            }
        },
        InputField::DownPaymentPct => {
            if a.down_payment_pct.is_some() {
                Err(DecodeReason::DuplicateField)
            } else {
                let mut b = a;
                b.down_payment_pct = Some(v);
                Ok(b)
            }
        },
        InputField::InterestRatePct => {
            if a.interest_rate_pct.is_some() {
                Err(DecodeReason::DuplicateField)
            } else {
                let mut b = a;
                b.interest_rate_pct = Some(v);
                Ok(b)
            }
        },
        InputField::LoanTermYears => {
            if a.loan_term_years.is_some() {
                Err(DecodeReason::DuplicateField)
            } else {
                let mag: u64 = if v < 0 {
                    (-v) as u64
                } else {
                    v as u64
                };
                if mag % SCALE != 0 {
                    Err(DecodeReason::LoanTermNotInteger)
                } else {
                    let y = (mag / SCALE) as i64;
                    let mut b = a;
                    b.loan_term_years = Some(if v < 0 { -y } else { y });
                    Ok(b)
                }
            }
        },
        InputField::MonthlyRent => {
            if a.monthly_rent.is_some() {
                Err(DecodeReason::DuplicateField)
            } else {
                let mut b = a;
                b.monthly_rent = Some(v);
                Ok(b)
            }
        },
        InputField::MonthlyExpenses => {
            if a.monthly_expenses.is_some() {
                Err(DecodeReason::DuplicateField)
            } else {
                let mut b = a;
                b.monthly_expenses = Some(v);
                Ok(b)
            }
        },
        InputField::ClosingCosts => {
            if a.closing_costs.is_some() {
                Err(DecodeReason::DuplicateField)
            } else {
                let mut b = a;
                b.closing_costs = Some(v);
                Ok(b)
            }
        },
        InputField::RehabCosts => {
            if a.rehab_costs.is_some() {
                Err(DecodeReason::DuplicateField)
            } else {
                let mut b = a;
                b.rehab_costs = Some(v);
                Ok(b)
            }
        },
    }
}

/// Assemble the snapshot once the object is closed.
fn finish_partial(a: PartialInputs) -> (r: Result<RentalInputs, DecodeReason>)
    ensures
        r == spec_finish(a),
{
    if a.purchase_price.is_some() && a.down_payment_pct.is_some() && a.interest_rate_pct.is_some()
        && a.loan_term_years.is_some() && a.monthly_rent.is_some() && a.monthly_expenses.is_some()
        && a.closing_costs.is_some() && a.rehab_costs.is_some() {
        Ok(
            RentalInputs {
                purchase_price: a.purchase_price.unwrap(),
                down_payment_pct: a.down_payment_pct.unwrap(),
                interest_rate_pct: a.interest_rate_pct.unwrap(),
                loan_term_years: a.loan_term_years.unwrap(),
                monthly_rent: a.monthly_rent.unwrap(),
                monthly_expenses: a.monthly_expenses.unwrap(),
                closing_costs: a.closing_costs.unwrap(),
                rehab_costs: a.rehab_costs.unwrap(),
            },
        )
    } else {
        Err(DecodeReason::MissingField)
    }
}

/// Parse the object's members from index `i` onward.
fn parse_pairs(s: &str, i: usize, acc: PartialInputs, fuel: u64) -> (r: Result<
    RentalInputs,
    DecodeReason,
>)
    requires
        i <= s@.len(),
    ensures
        r == spec_parse_pairs(s@, i as int, acc, fuel as nat),
    decreases fuel,
{
    if fuel == 0 {
        return Err(DecodeReason::Syntax);
    }
    let n = s.unicode_len();
    if i >= n {
        return Err(DecodeReason::Syntax);
    }
    if s.get_char(i) != '"' {
        return Err(DecodeReason::Syntax);
    }
    match parse_key(s, i + 1) {
        None => Err(DecodeReason::UnknownField),
        Some((f, k1)) => {
            let k2 = skip_ws(s, k1);
            if k2 >= n {
                return Err(DecodeReason::Syntax);
            }
            if s.get_char(k2) != ':' {
                return Err(DecodeReason::Syntax);
            }
            let k3 = skip_ws(s, k2 + 1);
            match parse_number(s, k3) {
                Err(e) => Err(e),
                Ok((v, k4)) => {
                    match set_field(acc, f, v) {
                        Err(e) => Err(e),
                        Ok(acc2) => {
                            if k4 > n {
                                return Err(DecodeReason::Syntax);
                            }
                            let k5 = skip_ws(s, k4);
                            if k5 >= n {
                                return Err(DecodeReason::Syntax);
                            }
                            let c = s.get_char(k5);
                            if c == ',' {
                                let i2 = skip_ws(s, k5 + 1);
                                parse_pairs(s, i2, acc2, fuel - 1)
                            } else if c == '}' {
                                let t = skip_ws(s, k5 + 1);
                                if t == n {
                                    finish_partial(acc2)
                                } else {
                                    Err(DecodeReason::Syntax)
                                }
                            } else {
                                Err(DecodeReason::Syntax)
                            }
                        },
                    }
                },
            }
        },
    }
}

/// Decode a whole request into a snapshot, or say why it was rejected.
pub fn decode_request(s: &str) -> (r: Result<RentalInputs, DecodeReason>)
    ensures
        r == spec_decode(s@),
{
    let n = s.unicode_len();
    let i0 = skip_ws(s, 0);
    if i0 >= n {
        return Err(DecodeReason::Syntax);
    }
    if s.get_char(i0) != '{' {
        return Err(DecodeReason::Syntax);
    }
    let i1 = skip_ws(s, i0 + 1);
    if i1 < n {
        let c = s.get_char(i1);
        if c == '}' {
            let t = skip_ws(s, i1 + 1);
            if t == n {
                Err(DecodeReason::MissingField)
            } else {
                Err(DecodeReason::Syntax)
            }
        } else {
            parse_pairs(s, i1, empty_partial(), 9)
        }
    } else {
        parse_pairs(s, i1, empty_partial(), 9)
    }
}

} // verus!
