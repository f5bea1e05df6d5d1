//! The host-facing boundary: one JSON request in, one JSON response out.
//!
//! A request is decoded, validated and calculated; the answer is either a
//! result envelope with the seven metrics, or an error envelope naming the
//! kind of failure.  Every textual input gets an answer: nothing a caller
//! sends can make the handler fail.

use vstd::prelude::*;

verus! {

use crate::inputs::InputField;
use crate::inputs::InputFault;
use crate::inputs::ValidationError;
use crate::inputs::first_violation;
use crate::inputs::validate;
use crate::engine::RentalResults;
use crate::engine::spec_results;
use crate::engine::calculate;
use crate::engine::lemma_results_in_range;
use crate::codec::DecodeReason;
use crate::codec::spec_format_scaled;
use crate::codec::push_scaled;
use crate::decode::spec_decode;
use crate::decode::decode_request;

/// The JSON name of each input field.
pub open spec fn spec_field_name(f: InputField) -> Seq<char> {
    match f {
        InputField::PurchasePrice => "purchase_price"@,
        InputField::DownPaymentPct => "down_payment_pct"@,
        InputField::InterestRatePct => "interest_rate_pct"@,
        InputField::LoanTermYears => "loan_term_years"@,
        InputField::MonthlyRent => "monthly_rent"@,
        InputField::MonthlyExpenses => "monthly_expenses"@,
        InputField::ClosingCosts => "closing_costs"@,
        InputField::RehabCosts => "rehab_costs"@,
    }
}

/// The reason text of each validation fault.
pub open spec fn spec_fault_text(r: InputFault) -> Seq<char> {
    match r {
        InputFault::MustBePositive => "must be positive"@,
        InputFault::MustBeUnitInterval => "must be between 0 and 1"@,
        InputFault::MustBeNonNegative => "must be non-negative"@,
    }
}

/// The message text of each decode failure.
pub open spec fn spec_reason_text(k: DecodeReason) -> Seq<char> {
    match k {
        DecodeReason::Syntax => "malformed request"@,
        DecodeReason::NumberTooLarge => "number out of range"@,
        DecodeReason::LoanTermNotInteger => "loan_term_years must be an integer"@,
        DecodeReason::UnknownField => "unknown field"@,
        DecodeReason::DuplicateField => "duplicate field"@,
        DecodeReason::MissingField => "missing field"@,
    }
}

/// The success envelope: the seven metrics under a `result` member.
pub open spec fn spec_encode_results(r: RentalResults) -> Seq<char> {
    "{\"result\":{\"monthly_mortgage_payment\":"@ + spec_format_scaled(
        r.monthly_mortgage_payment as int,
    ) + ",\"monthly_cash_flow\":"@ + spec_format_scaled(r.monthly_cash_flow as int)
        + ",\"annual_cash_flow\":"@ + spec_format_scaled(r.annual_cash_flow as int)
        + ",\"total_cash_invested\":"@ + spec_format_scaled(r.total_cash_invested as int)
        + ",\"cash_on_cash_return\":"@ + spec_format_scaled(r.cash_on_cash_return as int)
        + ",\"cap_rate\":"@ + spec_format_scaled(r.cap_rate as int) + ",\"noi\":"@
        + spec_format_scaled(r.noi as int) + "}}"@
}

/// The error envelope for a rejected input field.
pub open spec fn spec_encode_validation_error(e: ValidationError) -> Seq<char> {
    "{\"error\":{\"kind\":\"ValidationError\",\"field\":\""@ + spec_field_name(e.field)
        + "\",\"reason\":\""@ + spec_fault_text(e.reason) + "\"}}"@
}

/// The error envelope for an undecodable request.
pub open spec fn spec_encode_decode_error(k: DecodeReason) -> Seq<char> {
    "{\"error\":{\"kind\":\"DecodeError\",\"message\":\""@ + spec_reason_text(k) + "\"}}"@
}

/// The whole request/response contract: decode, validate, calculate, and
/// encode whichever of the three envelopes applies.
pub open spec fn spec_handle_request(s: Seq<char>) -> Seq<char> {
    match spec_decode(s) {
        Err(k) => spec_encode_decode_error(k),
        Ok(i) => match first_violation(i) {
            Some(e) => spec_encode_validation_error(e),
            None => spec_encode_results(spec_results(i)),
        },
    }
}

/// Append the JSON name of an input field.
fn append_field_name(out: &mut String, f: InputField)
    ensures
        final(out)@ == old(out)@ + spec_field_name(f),
{
    match f {
        InputField::PurchasePrice => out.append("purchase_price"),
        InputField::DownPaymentPct => out.append("down_payment_pct"),
        InputField::InterestRatePct => out.append("interest_rate_pct"),
        InputField::LoanTermYears => out.append("loan_term_years"),
        InputField::MonthlyRent => out.append("monthly_rent"),
        InputField::MonthlyExpenses => out.append("monthly_expenses"),
        InputField::ClosingCosts => out.append("closing_costs"),
        InputField::RehabCosts => out.append("rehab_costs"),
    }
}

/// Append the reason text of a validation fault.
fn append_fault_text(out: &mut String, r: InputFault)
    ensures
        final(out)@ == old(out)@ + spec_fault_text(r),
{
    match r {
        InputFault::MustBePositive => out.append("must be positive"),
        InputFault::MustBeUnitInterval => out.append("must be between 0 and 1"),
        InputFault::MustBeNonNegative => out.append("must be non-negative"),
    }
}

/// Append the message text of a decode failure.
fn append_reason_text(out: &mut String, k: DecodeReason)
    ensures
        final(out)@ == old(out)@ + spec_reason_text(k),
{
    match k {
        DecodeReason::Syntax => out.append("malformed request"),
        DecodeReason::NumberTooLarge => out.append("number out of range"),
        DecodeReason::LoanTermNotInteger => out.append("loan_term_years must be an integer"),
        DecodeReason::UnknownField => out.append("unknown field"),
        DecodeReason::DuplicateField => out.append("duplicate field"),
        DecodeReason::MissingField => out.append("missing field"),
    }
}

/// Encode the success envelope.
pub fn encode_results(r: &RentalResults) -> (out: String)
    requires
        -(i128::MAX as int) <= r.monthly_mortgage_payment as int,
        -(i128::MAX as int) <= r.monthly_cash_flow as int,
        -(i128::MAX as int) <= r.annual_cash_flow as int,
        -(i128::MAX as int) <= r.total_cash_invested as int,
        -(i128::MAX as int) <= r.cash_on_cash_return as int,
        -(i128::MAX as int) <= r.cap_rate as int,
        -(i128::MAX as int) <= r.noi as int,
    ensures
        out@ == spec_encode_results(*r),
{
    let mut out = String::new();
    out.append("{\"result\":{\"monthly_mortgage_payment\":");
    push_scaled(&mut out, r.monthly_mortgage_payment);
    out.append(",\"monthly_cash_flow\":");
    push_scaled(&mut out, r.monthly_cash_flow);
    out.append(",\"annual_cash_flow\":");
    push_scaled(&mut out, r.annual_cash_flow);
    out.append(",\"total_cash_invested\":");
    push_scaled(&mut out, r.total_cash_invested);
    out.append(",\"cash_on_cash_return\":");
    push_scaled(&mut out, r.cash_on_cash_return);
    out.append(",\"cap_rate\":");
    push_scaled(&mut out, r.cap_rate);
    out.append(",\"noi\":");
    push_scaled(&mut out, r.noi);
    out.append("}}");
    proof {
        assert(out@ =~= spec_encode_results(*r));
    }
    out
}

/// Encode the error envelope for a rejected input field.
pub fn encode_validation_error(e: &ValidationError) -> (out: String)
    ensures
        out@ == spec_encode_validation_error(*e),
{
    let mut out = String::new();
    out.append("{\"error\":{\"kind\":\"ValidationError\",\"field\":\"");
    append_field_name(&mut out, e.field);
    out.append("\",\"reason\":\"");
    append_fault_text(&mut out, e.reason);
    out.append("\"}}");
    proof {
        assert(out@ =~= spec_encode_validation_error(*e));
    }
    out
}

/// Encode the error envelope for an undecodable request.
pub fn encode_decode_error(k: DecodeReason) -> (out: String)
    ensures
        out@ == spec_encode_decode_error(k),
{
    let mut out = String::new();
    out.append("{\"error\":{\"kind\":\"DecodeError\",\"message\":\"");
    append_reason_text(&mut out, k);
    out.append("\"}}");
    proof {
        assert(out@ =~= spec_encode_decode_error(k));
    }
    out
}

/// Answer one request.  Decode failures and validation failures come back
/// as error envelopes; valid requests come back as the encoded metrics.
/// The handler returns a value for every possible input text.
pub fn handle_request(s: &str) -> (out: String)
    ensures
        out@ == spec_handle_request(s@),
{
    match decode_request(s) {
        Err(k) => encode_decode_error(k),
        Ok(inp) => {
            match validate(&inp) {
                Err(e) => encode_validation_error(&e),
                Ok(v) => {
                    proof {
                        lemma_results_in_range(inp);
                    }
                    let res = calculate(&v);
                    encode_results(&res)
                },
            }
        },
    }
}

} // verus!
