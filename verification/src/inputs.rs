//! The deal snapshot, its validity rules, and the validation step.
//!
//! All currency amounts and percentages are fixed-point values scaled by
//! [`crate::fixed::SCALE`]; `loan_term_years` is a plain integer count of
//! years.  Validation checks the fields in one fixed order and reports the
//! first offending field, so the outcome is deterministic.

use vstd::prelude::*;
use crate::fixed::SCALE;

verus! {

/// One rental-deal snapshot, as handed in by the caller.  Currency and
/// percentage fields carry fixed-point values; `loan_term_years` is a plain
/// year count.
#[derive(Clone, Copy, Debug, PartialEq, Eq, Structural)]
pub struct RentalInputs {
    pub purchase_price: i64,
    pub down_payment_pct: i64,
    pub interest_rate_pct: i64,
    pub loan_term_years: i64,
    pub monthly_rent: i64,
    pub monthly_expenses: i64,
    pub closing_costs: i64,
    pub rehab_costs: i64,
}

/// Which input field a validation failure is about.
#[derive(Clone, Copy, Debug, PartialEq, Eq, Structural)]
pub enum InputField {
    PurchasePrice,
    DownPaymentPct,
    InterestRatePct,
    LoanTermYears,
    MonthlyRent,
    MonthlyExpenses,
    ClosingCosts,
    RehabCosts,
}

/// Why a field was rejected.
#[derive(Clone, Copy, Debug, PartialEq, Eq, Structural)]
pub enum InputFault {
    MustBePositive,
    MustBeUnitInterval,
    MustBeNonNegative,
}

/// A rejected input: the first offending field, with the rule it broke.
#[derive(Clone, Copy, Debug, PartialEq, Eq, Structural)]
pub struct ValidationError {
    pub field: InputField,
    pub reason: InputFault,
}

/// The validity rules: a positive price, both percentages within one whole
/// unit, a positive loan term, and no negative amounts.
pub open spec fn valid_inputs(i: RentalInputs) -> bool {
    &&& i.purchase_price > 0
    &&& 0 <= i.down_payment_pct <= SCALE
    &&& 0 <= i.interest_rate_pct <= SCALE
    &&& i.loan_term_years > 0
    &&& i.monthly_rent >= 0
    &&& i.monthly_expenses >= 0
    &&& i.closing_costs >= 0
    &&& i.rehab_costs >= 0
}

/// The first violated rule, walking the fields in declaration order;
/// `None` when the snapshot is valid.
pub open spec fn first_violation(i: RentalInputs) -> Option<ValidationError> {
    if !(i.purchase_price > 0) {
        Some(ValidationError { field: InputField::PurchasePrice, reason: InputFault::MustBePositive })
    } else if !(0 <= i.down_payment_pct <= SCALE) {
        Some(ValidationError { field: InputField::DownPaymentPct, reason: InputFault::MustBeUnitInterval })
    } else if !(0 <= i.interest_rate_pct <= SCALE) {
        Some(ValidationError { field: InputField::InterestRatePct, reason: InputFault::MustBeUnitInterval })
    } else if !(i.loan_term_years > 0) {
        Some(ValidationError { field: InputField::LoanTermYears, reason: InputFault::MustBePositive })
    } else if !(i.monthly_rent >= 0) {
        Some(ValidationError { field: InputField::MonthlyRent, reason: InputFault::MustBeNonNegative })
    } else if !(i.monthly_expenses >= 0) {
        Some(ValidationError { field: InputField::MonthlyExpenses, reason: InputFault::MustBeNonNegative })
    } else if !(i.closing_costs >= 0) {
        Some(ValidationError { field: InputField::ClosingCosts, reason: InputFault::MustBeNonNegative })
    } else if !(i.rehab_costs >= 0) {
        Some(ValidationError { field: InputField::RehabCosts, reason: InputFault::MustBeNonNegative })
    } else {
        None
    }
}

/// A snapshot that has passed validation.  The field is private and the only
/// constructor is [`validate`], so holding a value of this type is itself
/// the proof that the rules were checked.
#[derive(Clone, Copy, Debug)]
pub struct ValidatedInputs {
    inputs: RentalInputs,
}

impl ValidatedInputs {
    /// The snapshot carried inside.
    pub closed spec fn inputs(&self) -> RentalInputs {
        self.inputs
    }

    /// A validated snapshot always satisfies the validity rules.
    pub open spec fn wf(&self) -> bool {
        valid_inputs(self.inputs())
    }

    /// Read the snapshot back out.
    pub fn get(&self) -> (r: RentalInputs)
        ensures
            r == self.inputs(),
    {
        self.inputs
    }
}

/// Check a snapshot against the validity rules.  Succeeds exactly on valid
/// inputs; otherwise reports the first offending field in the fixed check
/// order.
pub fn validate(i: &RentalInputs) -> (r: Result<ValidatedInputs, ValidationError>)
    ensures
        r is Ok <==> valid_inputs(*i),
        r matches Ok(v) ==> v.inputs() == *i && v.wf(),
        r matches Err(e) ==> first_violation(*i) == Some(e),
{
    if !(i.purchase_price > 0) {
        Err(ValidationError { field: InputField::PurchasePrice, reason: InputFault::MustBePositive })
    } else if !(0 <= i.down_payment_pct && i.down_payment_pct <= SCALE as i64) {
        Err(ValidationError { field: InputField::DownPaymentPct, reason: InputFault::MustBeUnitInterval })
    } else if !(0 <= i.interest_rate_pct && i.interest_rate_pct <= SCALE as i64) {
        Err(ValidationError { field: InputField::InterestRatePct, reason: InputFault::MustBeUnitInterval })
    } else if !(i.loan_term_years > 0) {
        Err(ValidationError { field: InputField::LoanTermYears, reason: InputFault::MustBePositive })
    } else if !(i.monthly_rent >= 0) {
        Err(ValidationError { field: InputField::MonthlyRent, reason: InputFault::MustBeNonNegative })
    } else if !(i.monthly_expenses >= 0) {
        Err(ValidationError { field: InputField::MonthlyExpenses, reason: InputFault::MustBeNonNegative })
    } else if !(i.closing_costs >= 0) {
        Err(ValidationError { field: InputField::ClosingCosts, reason: InputFault::MustBeNonNegative })
    } else if !(i.rehab_costs >= 0) {
        Err(ValidationError { field: InputField::RehabCosts, reason: InputFault::MustBeNonNegative })
    } else {
        Ok(ValidatedInputs { inputs: *i })
    }
}

} // verus!
