use fdw_bridge::cell::{Cell, Real32, Real64};
use fdw_bridge::datetime::{Date, Timestamp};
use fdw_bridge::error::{FdwError, ParseKind};
use fdw_bridge::literal::without_quotes;
use fdw_bridge::numeric::Numeric;
use fdw_bridge::text::{chars_of, push_digits, push_int, same_text, string_of};

fn real32(v: f32) -> Real32 {
    Real32 { bits: v.to_bits(), text: v.to_string() }
}

fn real64(v: f64) -> Real64 {
    Real64 { bits: v.to_bits(), text: v.to_string() }
}

fn int_to_string(v: i128) -> String {
    let mut buf = Vec::new();
    push_int(&mut buf, v);
    string_of(&buf)
}

fn nat_to_string(v: u128) -> String {
    let mut buf = Vec::new();
    push_digits(&mut buf, v);
    string_of(&buf)
}

#[test]
fn integers_as_text() {
    assert_eq!(int_to_string(0), "0");
    assert_eq!(int_to_string(-1), "-1");
    assert_eq!(int_to_string(42), "42");
    assert_eq!(int_to_string(i128::MIN), i128::MIN.to_string());
    assert_eq!(int_to_string(i128::MAX), i128::MAX.to_string());
    assert_eq!(nat_to_string(u128::MAX), u128::MAX.to_string());
    assert_eq!(nat_to_string(10), "10");
}

#[test]
fn characters_and_back() {
    let chars = chars_of("aé'z");
    assert_eq!(chars, vec!['a', 'é', '\'', 'z']);
    assert_eq!(string_of(&chars), "aé'z");
    assert!(same_text("ab", "ab"));
    assert!(!same_text("ab", "aB"));
}

#[test]
fn scalars_as_literals() {
    assert_eq!(Cell::Bool(true).to_text().unwrap(), "true");
    assert_eq!(Cell::Bool(false).to_text().unwrap(), "false");
    assert_eq!(Cell::I8(-128).to_text().unwrap(), "-128");
    assert_eq!(Cell::I16(255).to_text().unwrap(), "255");
    assert_eq!(Cell::I32(i32::MIN).to_text().unwrap(), "-2147483648");
    assert_eq!(Cell::I64(42).to_text().unwrap(), "42");
    assert_eq!(Cell::F32(real32(1.5)).to_text().unwrap(), "1.5");
    assert_eq!(Cell::F64(real64(-0.25)).to_text().unwrap(), "-0.25");
}

#[test]
fn texts_are_quoted_and_escaped() {
    assert_eq!(Cell::String("abc".to_string()).to_text().unwrap(), "'abc'");
    assert_eq!(Cell::String("it's".to_string()).to_text().unwrap(), "'it''s'");
    assert_eq!(Cell::String(String::new()).to_text().unwrap(), "''");
    assert_eq!(Cell::Json("{\"a\":\"b'c\"}".to_string()).to_text().unwrap(), "'{\"a\":\"b''c\"}'");
    assert_eq!(without_quotes("'2000-01-01'"), "2000-01-01");
    assert_eq!(without_quotes("a''b'"), "ab");
}

#[test]
fn uuid_as_literal() {
    let id: u128 = 0x550e8400_e29b_41d4_a716_446655440000;
    assert_eq!(Cell::Uuid(id).to_text().unwrap(), "'550e8400-e29b-41d4-a716-446655440000'");
    assert_eq!(Cell::Uuid(0).to_text().unwrap(), "'00000000-0000-0000-0000-000000000000'");
    assert_eq!(Cell::Uuid(u128::MAX).to_text().unwrap(), "'ffffffff-ffff-ffff-ffff-ffffffffffff'");
    assert_eq!(
        Cell::Uuid(0x0123456789abcdef_fedcba9876543210).to_text().unwrap(),
        "'01234567-89ab-cdef-fedc-ba9876543210'"
    );
}

#[test]
fn dates_and_instants_as_literals() {
    assert_eq!(Cell::Date(Date { days: 0 }).to_text().unwrap(), "'2000-01-01'");
    assert_eq!(Cell::Date(Date { days: 1 }).to_text().unwrap(), "'2000-01-02'");
    assert_eq!(Cell::Date(Date { days: -10957 }).to_text().unwrap(), "'1970-01-01'");
    assert_eq!(Cell::Date(Date { days: 8766 }).to_text().unwrap(), "'2024-01-01'");
    assert_eq!(
        Cell::Timestamp(Timestamp { micros: 0 }).to_text().unwrap(),
        "'2000-01-01 00:00:00'"
    );
    assert_eq!(
        Cell::Timestamp(Timestamp { micros: 86_400_000_000 }).to_text().unwrap(),
        "'2000-01-02 00:00:00'"
    );
    assert_eq!(
        Cell::Timestamptz(Timestamp { micros: 1_500_000 }).to_text().unwrap(),
        "'2000-01-01 00:00:01.500000'"
    );
    assert_eq!(
        Cell::Timestamp(Timestamp { micros: -1 }).to_text().unwrap(),
        "'1999-12-31 23:59:59.999999'"
    );
}

#[test]
fn dates_and_instants_out_of_the_calendar() {
    assert_eq!(
        Cell::Date(Date { days: i32::MAX }).to_text(),
        Err(FdwError::ValueParse(ParseKind::Date))
    );
    assert_eq!(
        Cell::Timestamp(Timestamp { micros: i64::MAX }).to_text(),
        Err(FdwError::ValueParse(ParseKind::Timestamp))
    );
}

#[test]
fn instant_parts() {
    assert_eq!(Timestamp { micros: 0 }.unix_parts(), Some((946_684_800, 0)));
    assert_eq!(
        Timestamp { micros: -946_684_800_000_001 }.unix_parts(),
        Some((-1, 999_999))
    );
    assert_eq!(Timestamp { micros: i64::MAX }.unix_parts(), None);
    assert!(Timestamp { micros: i64::MAX }.is_valid());
    assert!(Timestamp { micros: i64::MIN }.is_valid());
    assert!(Timestamp { micros: 0 }.is_valid());
    assert!(!Timestamp { micros: i64::MAX - 1 }.is_valid());
}

#[test]
fn lists_as_literals() {
    assert_eq!(Cell::BoolArray(vec![Some(true), None, Some(false)]).to_text().unwrap(), "[true,null,false]");
    assert_eq!(Cell::I16Array(vec![]).to_text().unwrap(), "[]");
    assert_eq!(Cell::I32Array(vec![Some(-1)]).to_text().unwrap(), "[-1]");
    assert_eq!(Cell::I64Array(vec![Some(1), Some(2)]).to_text().unwrap(), "[1,2]");
    assert_eq!(Cell::F32Array(vec![Some(real32(0.5)), None]).to_text().unwrap(), "[0.5,null]");
    assert_eq!(Cell::F64Array(vec![Some(real64(2.0))]).to_text().unwrap(), "[2]");
    assert_eq!(
        Cell::StringArray(vec![Some("a'b".to_string()), None]).to_text().unwrap(),
        "['a''b',null]"
    );
}

#[test]
fn decimals_as_text() {
    assert_eq!(Numeric::from_i128(-5).to_text(), "-5");
    assert_eq!(Numeric::from_u128(u128::MAX).to_text(), u128::MAX.to_string());
    assert_eq!(Numeric::from_scaled(-5, 2).unwrap().to_text(), "-0.05");
    assert_eq!(Numeric::from_scaled(20000, 4).unwrap().to_text(), "2.0000");
    assert_eq!(Numeric::from_scaled(12345, 2).unwrap().to_text(), "123.45");
    assert_eq!(Numeric::from_scaled(0, 3).unwrap().to_text(), "0.000");
    assert_eq!(Numeric::from_scaled(1, 39), None);
    assert_eq!(Cell::Numeric(Numeric::from_scaled(15, 1).unwrap()).to_text().unwrap(), "1.5");
    assert_eq!(
        Cell::Numeric(Numeric { negative: false, magnitude: 1, scale: 200 }).to_text(),
        Err(FdwError::ValueParse(ParseKind::Decimal))
    );
}

#[test]
fn decimals_from_text() {
    assert_eq!(Numeric::parse("0"), Some(Numeric { negative: false, magnitude: 0, scale: 0 }));
    assert_eq!(Numeric::parse("-0"), Some(Numeric { negative: false, magnitude: 0, scale: 0 }));
    assert_eq!(Numeric::parse("-12.50"), Some(Numeric { negative: true, magnitude: 1250, scale: 2 }));
    assert_eq!(Numeric::parse("+7"), Some(Numeric { negative: false, magnitude: 7, scale: 0 }));
    assert_eq!(Numeric::parse("007.1"), Some(Numeric { negative: false, magnitude: 71, scale: 1 }));
    assert_eq!(Numeric::parse(""), None);
    assert_eq!(Numeric::parse("-"), None);
    assert_eq!(Numeric::parse("1."), None);
    assert_eq!(Numeric::parse(".5"), None);
    assert_eq!(Numeric::parse("1.2.3"), None);
    assert_eq!(Numeric::parse("1e5"), None);
    assert_eq!(Numeric::parse("0.-5"), None);
    assert_eq!(
        Numeric::parse("340282366920938463463374607431768211455"),
        Some(Numeric { negative: false, magnitude: u128::MAX, scale: 0 })
    );
    assert_eq!(Numeric::parse("340282366920938463463374607431768211456"), None);
    assert_eq!(Numeric::parse("0.000000000000000000000000000000000000001"), None);
}

#[test]
fn decimals_at_another_scale() {
    let n = Numeric::parse("2.50").unwrap();
    assert_eq!(n.rescale(2), Some(250));
    assert_eq!(n.rescale(4), Some(25000));
    assert_eq!(n.rescale(1), Some(25));
    assert_eq!(n.rescale(0), None);
    assert_eq!(Numeric::from_i128(-3).rescale(1), Some(-30));
    assert_eq!(Numeric::from_i128(i64::MIN as i128).rescale(0), Some(i64::MIN));
    assert_eq!(Numeric::from_i128(i64::MAX as i128 + 1).rescale(0), None);
    assert_eq!(Numeric::from_i128(1).rescale(19), None);
    assert_eq!(Numeric::from_u128(u128::MAX).rescale(38), None);
}
