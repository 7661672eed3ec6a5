use fdw_bridge::cell::{Cell, Real32, Real64};
use fdw_bridge::datetime::{Date, Timestamp};
use fdw_bridge::error::{FdwError, ParseKind};
use fdw_bridge::numeric::Numeric;
use fdw_bridge::remote::{
    cell_to_remote, date_from_parsed, field_to_cell, instant_from_parsed, RemoteDecimal,
    RemoteField, RemoteType, RemoteValue,
};

fn nullable(ty: RemoteType) -> RemoteType {
    RemoteType::Nullable(Box::new(ty))
}

fn array(ty: RemoteType) -> RemoteType {
    RemoteType::Array(Box::new(ty))
}

fn read(ty: RemoteType, v: RemoteValue) -> Result<Option<Cell>, FdwError> {
    field_to_cell(&ty, &Some(v))
}

fn write(cell: Cell, ty: RemoteType) -> Result<RemoteField, FdwError> {
    cell_to_remote(&cell, &ty)
}

fn plain(value: RemoteValue) -> Result<RemoteField, FdwError> {
    Ok(RemoteField { value, nullable: false })
}

#[test]
fn unsigned_integers_widen_on_read() {
    assert_eq!(read(RemoteType::UInt8, RemoteValue::UInt8(255)), Ok(Some(Cell::I16(255))));
    assert_eq!(read(RemoteType::UInt16, RemoteValue::UInt16(65535)), Ok(Some(Cell::I32(65535))));
    assert_eq!(
        read(RemoteType::UInt32, RemoteValue::UInt32(4294967295)),
        Ok(Some(Cell::I64(4294967295)))
    );
    assert_eq!(read(RemoteType::UInt64, RemoteValue::UInt64(7)), Ok(Some(Cell::I64(7))));
    assert_eq!(read(RemoteType::UInt64, RemoteValue::UInt64(u64::MAX)), Ok(Some(Cell::I64(-1))));
}

#[test]
fn signed_integers_and_truth_values_read_as_they_are() {
    assert_eq!(read(RemoteType::Bool, RemoteValue::Bool(true)), Ok(Some(Cell::Bool(true))));
    assert_eq!(read(RemoteType::Int8, RemoteValue::Int8(-8)), Ok(Some(Cell::I8(-8))));
    assert_eq!(read(RemoteType::Int16, RemoteValue::Int16(-16)), Ok(Some(Cell::I16(-16))));
    assert_eq!(read(RemoteType::Int32, RemoteValue::Int32(-32)), Ok(Some(Cell::I32(-32))));
    assert_eq!(read(RemoteType::Int64, RemoteValue::Int64(-64)), Ok(Some(Cell::I64(-64))));
}

#[test]
fn wide_integers_read_as_decimals_and_texts() {
    assert_eq!(
        read(RemoteType::Int128, RemoteValue::Int128(-5)),
        Ok(Some(Cell::Numeric(Numeric { negative: true, magnitude: 5, scale: 0 })))
    );
    assert_eq!(
        read(RemoteType::UInt128, RemoteValue::UInt128(u128::MAX)),
        Ok(Some(Cell::Numeric(Numeric { negative: false, magnitude: u128::MAX, scale: 0 })))
    );
    assert_eq!(
        read(RemoteType::Int256, RemoteValue::Int256("-123".to_string())),
        Ok(Some(Cell::String("-123".to_string())))
    );
    assert_eq!(
        read(RemoteType::UInt256, RemoteValue::UInt256("99".to_string())),
        Ok(Some(Cell::String("99".to_string())))
    );
}

#[test]
fn decimals_texts_dates_and_uuids_read() {
    assert_eq!(
        read(
            RemoteType::Decimal(9, 2),
            RemoteValue::Decimal(RemoteDecimal { underlying: -5, scale: 2 })
        ),
        Ok(Some(Cell::Numeric(Numeric { negative: true, magnitude: 5, scale: 2 })))
    );
    assert_eq!(
        read(
            RemoteType::Decimal(9, 2),
            RemoteValue::Decimal(RemoteDecimal { underlying: 1, scale: 99 })
        ),
        Err(FdwError::ValueParse(ParseKind::Decimal))
    );
    assert_eq!(
        read(RemoteType::String, RemoteValue::String("x".to_string())),
        Ok(Some(Cell::String("x".to_string())))
    );
    assert_eq!(
        read(RemoteType::FixedString(3), RemoteValue::String("xyz".to_string())),
        Ok(Some(Cell::String("xyz".to_string())))
    );
    assert_eq!(read(RemoteType::Date, RemoteValue::Date(10957)), Ok(Some(Cell::Date(Date { days: 0 }))));
    assert_eq!(
        read(RemoteType::Date, RemoteValue::Date(0)),
        Ok(Some(Cell::Date(Date { days: -10957 })))
    );
    assert_eq!(
        read(RemoteType::DateTime, RemoteValue::DateTime(946_684_800)),
        Ok(Some(Cell::Timestamp(Timestamp { micros: 0 })))
    );
    assert_eq!(
        read(RemoteType::DateTime, RemoteValue::DateTime(946_684_801)),
        Ok(Some(Cell::Timestamp(Timestamp { micros: 1_000_000 })))
    );
    assert_eq!(
        read(RemoteType::DateTime, RemoteValue::DateTime(0)),
        Ok(Some(Cell::Timestamp(Timestamp { micros: -946_684_800_000_000 })))
    );
    assert_eq!(read(RemoteType::Uuid, RemoteValue::Uuid(77)), Ok(Some(Cell::Uuid(77))));
}

#[test]
fn floating_point_numbers_keep_their_bits() {
    let x = Real32 { bits: 1.5f32.to_bits(), text: "1.5".to_string() };
    let y = Real64 { bits: f64::NAN.to_bits(), text: "NaN".to_string() };
    assert_eq!(read(RemoteType::Float32, RemoteValue::Float32(x.clone())), Ok(Some(Cell::F32(x.clone()))));
    assert_eq!(read(RemoteType::Float64, RemoteValue::Float64(y.clone())), Ok(Some(Cell::F64(y.clone()))));
    assert_eq!(write(Cell::F32(x.clone()), RemoteType::Float32), plain(RemoteValue::Float32(x)));
    assert_eq!(write(Cell::F64(y.clone()), RemoteType::Float64), plain(RemoteValue::Float64(y)));
}

#[test]
fn nullable_columns_read() {
    assert_eq!(field_to_cell(&nullable(RemoteType::Int32), &None), Ok(None));
    assert_eq!(
        field_to_cell(&nullable(RemoteType::UInt8), &Some(RemoteValue::UInt8(9))),
        Ok(Some(Cell::I16(9)))
    );
    assert_eq!(field_to_cell(&RemoteType::Int32, &None), Err(FdwError::RemoteProtocol));
}

#[test]
fn lists_read_one_level_deep() {
    assert_eq!(
        read(array(RemoteType::Bool), RemoteValue::BoolArray(vec![true, false])),
        Ok(Some(Cell::BoolArray(vec![Some(true), Some(false)])))
    );
    assert_eq!(
        read(array(RemoteType::Int16), RemoteValue::Int16Array(vec![1])),
        Ok(Some(Cell::I16Array(vec![Some(1)])))
    );
    assert_eq!(
        read(array(RemoteType::Int32), RemoteValue::Int32Array(vec![])),
        Ok(Some(Cell::I32Array(vec![])))
    );
    assert_eq!(
        read(array(RemoteType::Int64), RemoteValue::Int64Array(vec![-1, 1])),
        Ok(Some(Cell::I64Array(vec![Some(-1), Some(1)])))
    );
    assert_eq!(
        read(array(RemoteType::String), RemoteValue::StringArray(vec!["a".to_string()])),
        Ok(Some(Cell::StringArray(vec![Some("a".to_string())])))
    );
    let x = Real32 { bits: 0, text: "0".to_string() };
    assert_eq!(
        read(array(RemoteType::Float32), RemoteValue::Float32Array(vec![x.clone()])),
        Ok(Some(Cell::F32Array(vec![Some(x)])))
    );
    let y = Real64 { bits: 0, text: "0".to_string() };
    assert_eq!(
        read(array(RemoteType::Float64), RemoteValue::Float64Array(vec![y.clone()])),
        Ok(Some(Cell::F64Array(vec![Some(y)])))
    );
}

#[test]
fn unsupported_types_are_named() {
    assert_eq!(
        read(array(RemoteType::Date), RemoteValue::Date(1)),
        Err(FdwError::UnsupportedColumnType("Array(Date)".to_string()))
    );
    assert_eq!(
        read(array(RemoteType::Decimal(9, 2)), RemoteValue::Date(1)),
        Err(FdwError::UnsupportedColumnType("Array(Decimal(9, 2))".to_string()))
    );
    assert_eq!(
        read(array(array(RemoteType::Int32)), RemoteValue::Int32Array(vec![])),
        Err(FdwError::UnsupportedColumnType("Array(Array(Int32))".to_string()))
    );
    assert_eq!(
        read(nullable(array(RemoteType::Int32)), RemoteValue::Int32Array(vec![])),
        Err(FdwError::UnsupportedColumnType("Nullable(Array(Int32))".to_string()))
    );
    assert_eq!(
        read(RemoteType::Other("IPv4".to_string()), RemoteValue::UInt32(1)),
        Err(FdwError::UnsupportedColumnType("IPv4".to_string()))
    );
    assert_eq!(
        write(Cell::I16(1), RemoteType::FixedString(16)),
        Err(FdwError::UnsupportedColumnType("FixedString(16)".to_string()))
    );
    assert_eq!(
        write(Cell::I32(1), nullable(RemoteType::Uuid)),
        Err(FdwError::UnsupportedColumnType("Nullable(UUID)".to_string()))
    );
    assert_eq!(
        write(Cell::I64(1), RemoteType::UInt64),
        Err(FdwError::UnsupportedColumnType("UInt64".to_string()))
    );
    assert_eq!(
        write(Cell::Json("{}".to_string()), RemoteType::String),
        Err(FdwError::UnsupportedColumnType("String".to_string()))
    );
    assert_eq!(
        write(Cell::Timestamptz(Timestamp { micros: 0 }), RemoteType::DateTime),
        Err(FdwError::UnsupportedColumnType("DateTime".to_string()))
    );
    assert_eq!(
        write(Cell::Numeric(Numeric::from_i128(1)), RemoteType::Int128),
        Err(FdwError::UnsupportedColumnType("Int128".to_string()))
    );
    assert_eq!(RemoteType::Bool.name(), "Bool");
    assert_eq!(RemoteType::DateTime.name(), "DateTime");
}

#[test]
fn value_of_another_kind_is_a_breach() {
    assert_eq!(read(RemoteType::Int32, RemoteValue::Int64(1)), Err(FdwError::RemoteProtocol));
    assert_eq!(
        read(array(RemoteType::Int32), RemoteValue::Int64Array(vec![])),
        Err(FdwError::RemoteProtocol)
    );
    assert_eq!(field_to_cell(&array(RemoteType::Int32), &None), Err(FdwError::RemoteProtocol));
}

#[test]
fn narrowing_at_the_boundaries() {
    assert_eq!(write(Cell::I16(0), RemoteType::UInt8), plain(RemoteValue::UInt8(0)));
    assert_eq!(write(Cell::I16(255), RemoteType::UInt8), plain(RemoteValue::UInt8(255)));
    assert_eq!(write(Cell::I32(0), RemoteType::UInt16), plain(RemoteValue::UInt16(0)));
    assert_eq!(write(Cell::I32(65535), RemoteType::UInt16), plain(RemoteValue::UInt16(65535)));
    assert_eq!(write(Cell::I64(0), RemoteType::UInt32), plain(RemoteValue::UInt32(0)));
    assert_eq!(
        write(Cell::I64(4294967295), RemoteType::UInt32),
        plain(RemoteValue::UInt32(4294967295))
    );
    for v in [0i16, 255] {
        let f = write(Cell::I16(v), RemoteType::UInt8).unwrap();
        assert_eq!(field_to_cell(&RemoteType::UInt8, &Some(f.value)), Ok(Some(Cell::I16(v))));
    }
    for v in [0i32, 65535] {
        let f = write(Cell::I32(v), RemoteType::UInt16).unwrap();
        assert_eq!(field_to_cell(&RemoteType::UInt16, &Some(f.value)), Ok(Some(Cell::I32(v))));
    }
    for v in [0i64, 4294967295] {
        let f = write(Cell::I64(v), RemoteType::UInt32).unwrap();
        assert_eq!(field_to_cell(&RemoteType::UInt32, &Some(f.value)), Ok(Some(Cell::I64(v))));
    }
}

#[test]
fn narrowing_cuts_the_high_bits() {
    assert_eq!(write(Cell::I16(256), RemoteType::UInt8), plain(RemoteValue::UInt8(0)));
    assert_eq!(write(Cell::I16(-1), RemoteType::UInt8), plain(RemoteValue::UInt8(255)));
    assert_eq!(write(Cell::I32(-1), RemoteType::UInt16), plain(RemoteValue::UInt16(65535)));
    assert_eq!(write(Cell::I64(-1), RemoteType::UInt32), plain(RemoteValue::UInt32(u32::MAX)));
}

#[test]
fn integers_to_their_own_width() {
    assert_eq!(write(Cell::I8(-1), RemoteType::Int8), plain(RemoteValue::Int8(-1)));
    assert_eq!(write(Cell::I16(-1), RemoteType::Int16), plain(RemoteValue::Int16(-1)));
    assert_eq!(write(Cell::I32(-1), RemoteType::Int32), plain(RemoteValue::Int32(-1)));
    assert_eq!(write(Cell::I64(-1), RemoteType::Int64), plain(RemoteValue::Int64(-1)));
    assert_eq!(
        write(Cell::I64(5), nullable(RemoteType::Int64)),
        Ok(RemoteField { value: RemoteValue::Int64(5), nullable: true })
    );
    assert_eq!(
        write(Cell::Bool(true), nullable(RemoteType::Bool)),
        Ok(RemoteField { value: RemoteValue::Bool(true), nullable: true })
    );
}

#[test]
fn texts_for_wide_integer_columns_are_checked() {
    assert_eq!(
        write(Cell::String("-12".to_string()), RemoteType::Int256),
        plain(RemoteValue::Int256("-12".to_string()))
    );
    assert_eq!(
        write(Cell::String("12".to_string()), nullable(RemoteType::UInt256)),
        Ok(RemoteField { value: RemoteValue::UInt256("12".to_string()), nullable: true })
    );
    assert_eq!(
        write(Cell::String("-12".to_string()), RemoteType::UInt256),
        Err(FdwError::ValueParse(ParseKind::Int256))
    );
    assert_eq!(
        write(Cell::String("12x".to_string()), RemoteType::Int256),
        Err(FdwError::ValueParse(ParseKind::Int256))
    );
    assert_eq!(
        write(Cell::String(String::new()), RemoteType::Int256),
        Err(FdwError::ValueParse(ParseKind::Int256))
    );
    assert_eq!(
        write(Cell::String("1".repeat(79)), RemoteType::Int256),
        Err(FdwError::ValueParse(ParseKind::Int256))
    );
    assert_eq!(
        write(Cell::String("12x".to_string()), RemoteType::String),
        plain(RemoteValue::String("12x".to_string()))
    );
}

#[test]
fn wide_integers_at_the_ends_of_their_range() {
    let top_signed = "57896044618658097711785492504343953926634992332820282019728792003956564819967";
    let past_signed = "57896044618658097711785492504343953926634992332820282019728792003956564819968";
    let top_unsigned = "115792089237316195423570985008687907853269984665640564039457584007913129639935";
    let past_unsigned = "115792089237316195423570985008687907853269984665640564039457584007913129639936";
    assert!(write(Cell::String(top_signed.to_string()), RemoteType::Int256).is_ok());
    assert_eq!(
        write(Cell::String(past_signed.to_string()), RemoteType::Int256),
        Err(FdwError::ValueParse(ParseKind::Int256))
    );
    assert!(write(Cell::String(format!("-{}", past_signed)), RemoteType::Int256).is_ok());
    assert_eq!(
        write(Cell::String(format!("-{}", top_unsigned)), RemoteType::Int256),
        Err(FdwError::ValueParse(ParseKind::Int256))
    );
    assert!(write(Cell::String(past_signed.to_string()), RemoteType::UInt256).is_ok());
    assert!(write(Cell::String(top_unsigned.to_string()), RemoteType::UInt256).is_ok());
    assert_eq!(
        write(Cell::String(past_unsigned.to_string()), RemoteType::UInt256),
        Err(FdwError::ValueParse(ParseKind::Int256))
    );
    assert!(write(Cell::String(format!("000{}", top_unsigned)), RemoteType::UInt256).is_ok());
    assert!(write(Cell::String("-0".to_string()), RemoteType::Int256).is_ok());
    assert_eq!(
        write(Cell::String("+1".to_string()), RemoteType::Int256),
        Err(FdwError::ValueParse(ParseKind::Int256))
    );
}

#[test]
fn decimals_are_brought_to_the_column_scale() {
    let n = Numeric::parse("2.5000").unwrap();
    assert_eq!(
        write(Cell::Numeric(n), RemoteType::Decimal(9, 2)),
        plain(RemoteValue::Decimal(RemoteDecimal { underlying: 250, scale: 2 }))
    );
    assert_eq!(
        write(Cell::Numeric(Numeric::parse("2.55").unwrap()), RemoteType::Decimal(9, 1)),
        Err(FdwError::ValueParse(ParseKind::Decimal))
    );
    assert_eq!(
        write(Cell::Numeric(Numeric::from_u128(u128::MAX)), RemoteType::Decimal(18, 0)),
        Err(FdwError::ValueParse(ParseKind::Decimal))
    );
}

#[test]
fn scalars_round_trip() {
    let cases: Vec<(RemoteType, RemoteValue)> = vec![
        (RemoteType::String, RemoteValue::String("it's".to_string())),
        (RemoteType::FixedString(2), RemoteValue::String("ab".to_string())),
        (RemoteType::Date, RemoteValue::Date(0)),
        (RemoteType::Date, RemoteValue::Date(19723)),
        (RemoteType::Date, RemoteValue::Date(u16::MAX)),
        (RemoteType::DateTime, RemoteValue::DateTime(0)),
        (RemoteType::DateTime, RemoteValue::DateTime(1_700_000_000)),
        (RemoteType::DateTime, RemoteValue::DateTime(u32::MAX)),
        (RemoteType::Uuid, RemoteValue::Uuid(0x550e8400_e29b_41d4_a716_446655440000)),
        (RemoteType::Decimal(9, 4), RemoteValue::Decimal(RemoteDecimal { underlying: 20000, scale: 4 })),
        (RemoteType::Decimal(18, 2), RemoteValue::Decimal(RemoteDecimal { underlying: -5, scale: 2 })),
        (RemoteType::Decimal(18, 0), RemoteValue::Decimal(RemoteDecimal { underlying: i64::MIN, scale: 0 })),
        (RemoteType::Int256, RemoteValue::Int256("-170141183460469231731687303715884105729".to_string())),
        (RemoteType::UInt8, RemoteValue::UInt8(200)),
        (RemoteType::Int64, RemoteValue::Int64(i64::MIN)),
    ];
    for (ty, value) in cases {
        let cell = field_to_cell(&ty, &Some(value.clone())).unwrap().unwrap();
        let back = cell_to_remote(&cell, &ty).unwrap();
        assert_eq!(back, RemoteField { value, nullable: false });
    }
}

#[test]
fn dates_and_instants_are_written_through_their_text() {
    assert_eq!(write(Cell::Date(Date { days: 0 }), RemoteType::Date), plain(RemoteValue::Date(10957)));
    assert_eq!(
        write(Cell::Date(Date { days: -10958 }), RemoteType::Date),
        plain(RemoteValue::Date(65535))
    );
    assert_eq!(
        write(Cell::Date(Date { days: i32::MAX }), RemoteType::Date),
        Err(FdwError::ValueParse(ParseKind::Date))
    );
    assert_eq!(
        write(Cell::Timestamp(Timestamp { micros: 0 }), RemoteType::DateTime),
        plain(RemoteValue::DateTime(946_684_800))
    );
    assert_eq!(
        write(Cell::Timestamp(Timestamp { micros: 1_500_000 }), nullable(RemoteType::DateTime)),
        Ok(RemoteField { value: RemoteValue::DateTime(946_684_801), nullable: true })
    );
    assert_eq!(
        write(Cell::Timestamp(Timestamp { micros: i64::MAX }), RemoteType::DateTime),
        Err(FdwError::ValueParse(ParseKind::Timestamp))
    );
}

#[test]
fn parsed_days_and_seconds() {
    assert_eq!(date_from_parsed(Some(719_163)), Ok(RemoteValue::Date(0)));
    assert_eq!(date_from_parsed(Some(719_162)), Ok(RemoteValue::Date(65535)));
    assert_eq!(date_from_parsed(None), Err(FdwError::ValueParse(ParseKind::Date)));
    assert_eq!(instant_from_parsed(Some(5), Some(9)), Ok(RemoteValue::DateTime(5)));
    assert_eq!(instant_from_parsed(None, Some(9)), Ok(RemoteValue::DateTime(9)));
    assert_eq!(instant_from_parsed(Some(-1), None), Ok(RemoteValue::DateTime(u32::MAX)));
    assert_eq!(instant_from_parsed(None, None), Err(FdwError::ValueParse(ParseKind::Timestamp)));
}

#[test]
fn lists_are_written_without_their_nulls() {
    assert_eq!(
        write(Cell::BoolArray(vec![Some(true), None]), array(RemoteType::Bool)),
        plain(RemoteValue::BoolArray(vec![true]))
    );
    assert_eq!(
        write(Cell::I16Array(vec![None, Some(2)]), array(RemoteType::Int16)),
        plain(RemoteValue::Int16Array(vec![2]))
    );
    assert_eq!(
        write(Cell::I32Array(vec![]), array(RemoteType::Int32)),
        plain(RemoteValue::Int32Array(vec![]))
    );
    assert_eq!(
        write(Cell::I64Array(vec![Some(1), None, Some(3)]), array(RemoteType::Int64)),
        plain(RemoteValue::Int64Array(vec![1, 3]))
    );
    assert_eq!(
        write(
            Cell::StringArray(vec![Some("a".to_string()), None]),
            nullable(array(RemoteType::String))
        ),
        Ok(RemoteField { value: RemoteValue::StringArray(vec!["a".to_string()]), nullable: true })
    );
    let x = Real32 { bits: 7, text: "x".to_string() };
    assert_eq!(
        write(Cell::F32Array(vec![None, Some(x.clone())]), array(RemoteType::Float32)),
        plain(RemoteValue::Float32Array(vec![x]))
    );
    let y = Real64 { bits: 7, text: "y".to_string() };
    assert_eq!(
        write(Cell::F64Array(vec![Some(y.clone()), None]), array(RemoteType::Float64)),
        plain(RemoteValue::Float64Array(vec![y]))
    );
}
