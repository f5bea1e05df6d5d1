use calc_engine::adapter::handle_request;
use calc_engine::codec::parse_number;
use calc_engine::codec::push_scaled;
use calc_engine::engine::calculate;
use calc_engine::engine::RentalResults;
use calc_engine::fixed::SCALE;
use calc_engine::inputs::validate;
use calc_engine::inputs::InputFault;
use calc_engine::inputs::InputField;
use calc_engine::inputs::RentalInputs;

const S: i64 = SCALE as i64;

fn dollars(v: i64) -> i64 {
    v * S
}

/// Pull one numeric field out of a JSON response, as a float.
fn field_value(json: &str, name: &str) -> f64 {
    let key = format!("\"{}\":", name);
    let start = json.find(&key).expect("field present") + key.len();
    let rest = &json[start..];
    let end = rest
        .find(|c: char| c == ',' || c == '}')
        .expect("field terminated");
    rest[..end].parse::<f64>().expect("field is a number")
}

fn scenario_one_inputs() -> RentalInputs {
    RentalInputs {
        purchase_price: dollars(200_000),
        down_payment_pct: 200_000_000,
        interest_rate_pct: 60_000_000,
        loan_term_years: 30,
        monthly_rent: dollars(1_800),
        monthly_expenses: dollars(600),
        closing_costs: dollars(5_000),
        rehab_costs: 0,
    }
}

fn scenario_two_inputs() -> RentalInputs {
    RentalInputs {
        purchase_price: dollars(100_000),
        down_payment_pct: S,
        interest_rate_pct: 50_000_000,
        loan_term_years: 15,
        monthly_rent: dollars(1_000),
        monthly_expenses: dollars(300),
        closing_costs: 0,
        rehab_costs: 0,
    }
}

fn as_dollars(scaled: i128) -> f64 {
    scaled as f64 / SCALE as f64
}

#[test]
fn it_works() {
    let result = calc_engine::add(2, 2);
    assert_eq!(result, 4);
}

#[test]
fn thirty_year_loan_metrics() {
    let v = validate(&scenario_one_inputs()).expect("valid inputs");
    let r = calculate(&v);
    assert!((as_dollars(r.monthly_mortgage_payment) - 959.28).abs() < 0.01);
    assert!((as_dollars(r.monthly_cash_flow) - 240.72).abs() < 0.01);
    assert_eq!(r.total_cash_invested, 45_000 * S as i128);
}

#[test]
fn full_down_payment_has_no_mortgage() {
    let v = validate(&scenario_two_inputs()).expect("valid inputs");
    let r = calculate(&v);
    assert_eq!(r.monthly_mortgage_payment, 0);
    assert_eq!(r.cash_on_cash_return, 8_400_000_000);
    assert_eq!(r.cap_rate, 8_400_000_000);
    assert_eq!(r.noi, 8_400 * S as i128);
}

#[test]
fn zero_interest_is_straight_line() {
    let mut i = scenario_one_inputs();
    i.interest_rate_pct = 0;
    let v = validate(&i).expect("valid inputs");
    let r = calculate(&v);
    // principal 160000 over 360 payments: 444.44... dollars each month
    let principal: i128 = 160_000 * S as i128;
    assert_eq!(r.monthly_mortgage_payment, principal / 360);
}

#[test]
fn calculate_is_idempotent() {
    let v1 = validate(&scenario_one_inputs()).expect("valid inputs");
    let v2 = validate(&scenario_one_inputs()).expect("valid inputs");
    let r1 = calculate(&v1);
    let r2 = calculate(&v1);
    let r3 = calculate(&v2);
    assert_eq!(r1, r2);
    assert_eq!(r1, r3);
}

#[test]
fn results_are_finite_numbers() {
    let v = validate(&scenario_one_inputs()).expect("valid inputs");
    let r = calculate(&v);
    for x in [
        r.monthly_mortgage_payment,
        r.monthly_cash_flow,
        r.annual_cash_flow,
        r.total_cash_invested,
        r.cash_on_cash_return,
        r.cap_rate,
        r.noi,
    ] {
        assert!(as_dollars(x).is_finite());
    }
}

#[test]
fn validation_checks_fields_in_order() {
    let mut i = scenario_one_inputs();
    i.purchase_price = 0;
    i.down_payment_pct = 2 * S;
    let e = validate(&i).expect_err("invalid");
    assert_eq!(e.field, InputField::PurchasePrice);
    assert_eq!(e.reason, InputFault::MustBePositive);
}

#[test]
fn validation_rejects_large_down_payment() {
    let mut i = scenario_one_inputs();
    i.down_payment_pct = S + S / 2;
    let e = validate(&i).expect_err("invalid");
    assert_eq!(e.field, InputField::DownPaymentPct);
    assert_eq!(e.reason, InputFault::MustBeUnitInterval);
}

#[test]
fn validation_rejects_negative_rent() {
    let mut i = scenario_one_inputs();
    i.monthly_rent = -1;
    let e = validate(&i).expect_err("invalid");
    assert_eq!(e.field, InputField::MonthlyRent);
    assert_eq!(e.reason, InputFault::MustBeNonNegative);
}

#[test]
fn validation_rejects_zero_loan_term() {
    let mut i = scenario_one_inputs();
    i.loan_term_years = 0;
    let e = validate(&i).expect_err("invalid");
    assert_eq!(e.field, InputField::LoanTermYears);
    assert_eq!(e.reason, InputFault::MustBePositive);
}

#[test]
fn request_round_trip_scenario_one() {
    let payload = r#"{
        "purchase_price": 200000,
        "down_payment_pct": 0.2,
        "interest_rate_pct": 0.06,
        "loan_term_years": 30,
        "monthly_rent": 1800,
        "monthly_expenses": 600,
        "closing_costs": 5000,
        "rehab_costs": 0
    }"#;
    let out = handle_request(payload);
    assert!(out.starts_with("{\"result\":{"));
    assert!((field_value(&out, "monthly_mortgage_payment") - 959.28).abs() < 0.01);
    assert!((field_value(&out, "monthly_cash_flow") - 240.72).abs() < 0.01);
    assert_eq!(field_value(&out, "total_cash_invested"), 45_000.0);
}

#[test]
fn response_matches_direct_calculation() {
    let payload = r#"{"purchase_price":100000,"down_payment_pct":1.0,"interest_rate_pct":0.05,"loan_term_years":15,"monthly_rent":1000,"monthly_expenses":300,"closing_costs":0,"rehab_costs":0}"#;
    let out = handle_request(payload);
    let v = validate(&scenario_two_inputs()).expect("valid inputs");
    let r = calculate(&v);
    for (name, scaled) in [
        ("monthly_mortgage_payment", r.monthly_mortgage_payment),
        ("monthly_cash_flow", r.monthly_cash_flow),
        ("annual_cash_flow", r.annual_cash_flow),
        ("total_cash_invested", r.total_cash_invested),
        ("cash_on_cash_return", r.cash_on_cash_return),
        ("cap_rate", r.cap_rate),
        ("noi", r.noi),
    ] {
        assert!((field_value(&out, name) - as_dollars(scaled)).abs() < 1e-9);
    }
}

#[test]
fn fields_accepted_in_any_order() {
    let payload = r#"{"rehab_costs":0,"closing_costs":0,"monthly_expenses":300,"monthly_rent":1000,"loan_term_years":15,"interest_rate_pct":0.05,"down_payment_pct":1.0,"purchase_price":100000}"#;
    let out = handle_request(payload);
    assert!(out.starts_with("{\"result\":{"));
    assert_eq!(field_value(&out, "cash_on_cash_return"), 8.4);
}

#[test]
fn invalid_down_payment_yields_validation_error() {
    let payload = r#"{"purchase_price":200000,"down_payment_pct":1.5,"interest_rate_pct":0.06,"loan_term_years":30,"monthly_rent":1800,"monthly_expenses":600,"closing_costs":5000,"rehab_costs":0}"#;
    let out = handle_request(payload);
    assert_eq!(
        out,
        "{\"error\":{\"kind\":\"ValidationError\",\"field\":\"down_payment_pct\",\"reason\":\"must be between 0 and 1\"}}"
    );
}

#[test]
fn malformed_payload_yields_decode_error_and_engine_continues() {
    let out = handle_request("this is not json");
    assert_eq!(
        out,
        "{\"error\":{\"kind\":\"DecodeError\",\"message\":\"malformed request\"}}"
    );
    // the engine keeps answering after a bad request
    let payload = r#"{"purchase_price":100000,"down_payment_pct":1.0,"interest_rate_pct":0.05,"loan_term_years":15,"monthly_rent":1000,"monthly_expenses":300,"closing_costs":0,"rehab_costs":0}"#;
    let again = handle_request(payload);
    assert!(again.starts_with("{\"result\":{"));
}

#[test]
fn empty_object_is_missing_fields() {
    let out = handle_request("{}");
    assert!(out.contains("\"kind\":\"DecodeError\""));
    assert!(out.contains("missing field"));
}

#[test]
fn unknown_field_is_rejected() {
    let payload = r#"{"purchase_price":100000,"surprise":1}"#;
    let out = handle_request(payload);
    assert!(out.contains("unknown field"));
}

#[test]
fn duplicate_field_is_rejected() {
    let payload = r#"{"purchase_price":100000,"purchase_price":200000}"#;
    let out = handle_request(payload);
    assert!(out.contains("duplicate field"));
}

#[test]
fn fractional_loan_term_is_rejected() {
    let payload = r#"{"purchase_price":100000,"down_payment_pct":1.0,"interest_rate_pct":0.05,"loan_term_years":15.5,"monthly_rent":1000,"monthly_expenses":300,"closing_costs":0,"rehab_costs":0}"#;
    let out = handle_request(payload);
    assert!(out.contains("loan_term_years must be an integer"));
}

#[test]
fn oversized_number_is_rejected() {
    let payload = r#"{"purchase_price":99999999999999999999999}"#;
    let out = handle_request(payload);
    assert!(out.contains("number out of range"));
}

#[test]
fn zero_investment_yields_zero_return() {
    let i = RentalInputs {
        purchase_price: dollars(100_000),
        down_payment_pct: 0,
        interest_rate_pct: 50_000_000,
        loan_term_years: 30,
        monthly_rent: dollars(500),
        monthly_expenses: dollars(100),
        closing_costs: 0,
        rehab_costs: 0,
    };
    let v = validate(&i).expect("valid inputs");
    let r = calculate(&v);
    assert_eq!(r.total_cash_invested, 0);
    assert_eq!(r.cash_on_cash_return, 0);
    assert_eq!(r.noi, 4_800 * S as i128);
}

#[test]
fn whitespace_around_tokens_is_accepted() {
    let payload = "  {\n\t\"purchase_price\" : 100000 ,\r\n \"down_payment_pct\": 1.0,\
        \"interest_rate_pct\": 0.05, \"loan_term_years\": 15,\
        \"monthly_rent\": 1000, \"monthly_expenses\": 300,\
        \"closing_costs\": 0, \"rehab_costs\": 0\n}  ";
    let out = handle_request(payload);
    assert!(out.starts_with("{\"result\":{"));
    assert_eq!(field_value(&out, "monthly_mortgage_payment"), 0.0);
}

#[test]
fn empty_input_is_decode_error() {
    let out = handle_request("");
    assert!(out.contains("\"kind\":\"DecodeError\""));
}

#[test]
fn trailing_text_is_rejected() {
    let payload = r#"{"purchase_price":100000,"down_payment_pct":1.0,"interest_rate_pct":0.05,"loan_term_years":15,"monthly_rent":1000,"monthly_expenses":300,"closing_costs":0,"rehab_costs":0} extra"#;
    let out = handle_request(payload);
    assert!(out.contains("malformed request"));
}

#[test]
fn parse_number_reads_scaled_decimals() {
    assert_eq!(parse_number("12.5", 0), Ok((12_500_000_000, 4)));
    assert_eq!(parse_number("-0.25", 0), Ok((-250_000_000, 5)));
    assert_eq!(parse_number("0.0000000001", 0), Ok((0, 12)));
}

#[test]
fn printed_values_parse_back_exactly() {
    for v in [0i128, 1, -1, 959_280_000_000, -45_000_000_000_000, 7] {
        let mut s = String::new();
        push_scaled(&mut s, v);
        let (parsed, used) = parse_number(&s, 0).expect("canonical text parses");
        assert_eq!(parsed as i128, v);
        assert_eq!(used, s.chars().count());
    }
}

#[test]
fn encoded_results_are_canonical_json() {
    let r = RentalResults {
        monthly_mortgage_payment: 0,
        monthly_cash_flow: 700 * S as i128,
        annual_cash_flow: 8_400 * S as i128,
        total_cash_invested: 100_000 * S as i128,
        cash_on_cash_return: 8_400_000_000,
        cap_rate: 8_400_000_000,
        noi: 8_400 * S as i128,
    };
    let out = calc_engine::adapter::encode_results(&r);
    assert_eq!(
        out,
        "{\"result\":{\"monthly_mortgage_payment\":0.000000000,\"monthly_cash_flow\":700.000000000,\"annual_cash_flow\":8400.000000000,\"total_cash_invested\":100000.000000000,\"cash_on_cash_return\":8.400000000,\"cap_rate\":8.400000000,\"noi\":8400.000000000}}"
    );
}
