use fdw_bridge::cell::{Cell, Param, Real32, Real64, Value};
use fdw_bridge::datetime::{Date, Timestamp, PG_EPOCH_MS, PG_EPOCH_SEC};
use fdw_bridge::error::{FdwError, ParseKind};
use fdw_bridge::import_schema::{ImportForeignSchemaStmt, ImportSchemaType};
use fdw_bridge::numeric::Numeric;
use fdw_bridge::options::Options;
use fdw_bridge::plugin::{
    host_cell_from_parts, instant_from_guest, instant_to_guest, GuestCell,
    GuestImportForeignSchemaStmt, GuestImportSchemaType, GuestMetric, GuestParam, GuestValue,
    HostMetric,
};

#[test]
fn epoch_zero_there_and_back() {
    let zero = Cell::Timestamp(Timestamp { micros: 0 });
    let guest = GuestCell::from_host(&zero).unwrap();
    assert_eq!(guest, GuestCell::Timestamp(946_684_800_000_000));
    assert_eq!(Cell::try_from_guest(guest), Ok(zero));
}

#[test]
fn epoch_zero_plus_one_day_there_and_back() {
    let day = Cell::Timestamp(Timestamp { micros: 86_400_000_000 });
    let guest = GuestCell::from_host(&day).unwrap();
    assert_eq!(guest, GuestCell::Timestamp(946_771_200_000_000));
    assert_eq!(Cell::try_from_guest(guest), Ok(day));
    let tz = Cell::Timestamptz(Timestamp { micros: 86_400_000_000 });
    let guest = GuestCell::from_host(&tz).unwrap();
    assert_eq!(guest, GuestCell::Timestamptz(946_771_200_000_000));
    assert_eq!(Cell::try_from_guest(guest), Ok(tz));
}

#[test]
fn epoch_offsets() {
    assert_eq!(PG_EPOCH_SEC, 946_684_800);
    assert_eq!(PG_EPOCH_MS, 946_684_800_000_000);
    assert_eq!(instant_to_guest(Timestamp { micros: -1 }), Some(946_684_799_999_999));
    assert_eq!(instant_from_guest(946_684_799_999_999), Some(Timestamp { micros: -1 }));
    assert_eq!(instant_to_guest(Timestamp { micros: i64::MAX }), None);
    assert_eq!(instant_from_guest(i64::MIN), None);
    assert_eq!(
        instant_from_guest(i64::MAX),
        Some(Timestamp { micros: 9_222_425_352_054_775_807 })
    );
    assert_eq!(instant_from_guest(-300_000_000_000_000_000), None);
    assert_eq!(
        instant_from_guest(i64::MIN + 946_684_800_000_000),
        Some(Timestamp { micros: i64::MIN })
    );
    assert_eq!(instant_from_guest(0), Some(Timestamp { micros: -946_684_800_000_000 }));
}

#[test]
fn instants_out_of_range_are_refused() {
    assert_eq!(
        GuestCell::from_host(&Cell::Timestamp(Timestamp { micros: i64::MAX })),
        Err(FdwError::ValueParse(ParseKind::Timestamp))
    );
    assert_eq!(
        Cell::try_from_guest(GuestCell::Timestamp(i64::MIN)),
        Err(FdwError::ValueParse(ParseKind::Timestamp))
    );
    assert_eq!(
        Cell::try_from_guest(GuestCell::Timestamptz(-300_000_000_000_000_000)),
        Err(FdwError::ValueParse(ParseKind::Timestamp))
    );
}

#[test]
fn dates_cross_as_seconds() {
    assert_eq!(GuestCell::from_host(&Cell::Date(Date { days: 0 })), Ok(GuestCell::Date(946_684_800)));
    assert_eq!(GuestCell::from_host(&Cell::Date(Date { days: 1 })), Ok(GuestCell::Date(946_771_200)));
    assert_eq!(
        GuestCell::from_host(&Cell::Date(Date { days: -10957 })),
        Ok(GuestCell::Date(0))
    );
    assert_eq!(Cell::try_from_guest(GuestCell::Date(946_684_800)), Ok(Cell::Date(Date { days: 0 })));
    assert_eq!(Cell::try_from_guest(GuestCell::Date(946_684_799)), Ok(Cell::Date(Date { days: -1 })));
    assert_eq!(Cell::try_from_guest(GuestCell::Date(946_771_199)), Ok(Cell::Date(Date { days: 0 })));
    assert_eq!(Cell::try_from_guest(GuestCell::Date(0)), Ok(Cell::Date(Date { days: -10957 })));
    assert_eq!(
        Cell::try_from_guest(GuestCell::Date(i64::MAX)),
        Err(FdwError::ValueParse(ParseKind::Date))
    );
    assert_eq!(
        Cell::try_from_guest(GuestCell::Date(i64::MIN)),
        Err(FdwError::ValueParse(ParseKind::Date))
    );
}

#[test]
fn plain_cells_cross_unchanged() {
    let x = Real32 { bits: 2.5f32.to_bits(), text: "2.5".to_string() };
    let y = Real64 { bits: 2.5f64.to_bits(), text: "2.5".to_string() };
    let pairs = vec![
        (Cell::Bool(true), GuestCell::Bool(true)),
        (Cell::I8(1), GuestCell::I8(1)),
        (Cell::I16(2), GuestCell::I16(2)),
        (Cell::I32(3), GuestCell::I32(3)),
        (Cell::I64(4), GuestCell::I64(4)),
        (Cell::F32(x.clone()), GuestCell::F32(x)),
        (Cell::F64(y.clone()), GuestCell::F64(y)),
        (Cell::String("s".to_string()), GuestCell::String("s".to_string())),
    ];
    for (host, guest) in pairs {
        assert_eq!(GuestCell::from_host(&host), Ok(guest.clone()));
        assert_eq!(Cell::try_from_guest(guest), Ok(host));
    }
}

#[test]
fn decimals_cross_as_text() {
    let n = Numeric::from_scaled(-12345, 3).unwrap();
    assert_eq!(GuestCell::from_host(&Cell::Numeric(n)), Ok(GuestCell::Numeric("-12.345".to_string())));
    assert_eq!(Cell::try_from_guest(GuestCell::Numeric("-12.345".to_string())), Ok(Cell::Numeric(n)));
    assert_eq!(
        Cell::try_from_guest(GuestCell::Numeric("12,5".to_string())),
        Err(FdwError::ValueParse(ParseKind::Decimal))
    );
    assert_eq!(
        GuestCell::from_host(&Cell::Numeric(Numeric { negative: true, magnitude: 0, scale: 0 })),
        Err(FdwError::ValueParse(ParseKind::Decimal))
    );
}

#[test]
fn uuids_cross_as_text() {
    let id: u128 = 0x550e8400_e29b_41d4_a716_446655440000;
    let text = "550e8400-e29b-41d4-a716-446655440000".to_string();
    assert_eq!(GuestCell::from_host(&Cell::Uuid(id)), Ok(GuestCell::Uuid(text.clone())));
    assert_eq!(Cell::try_from_guest(GuestCell::Uuid(text)), Ok(Cell::Uuid(id)));
    assert_eq!(
        Cell::try_from_guest(GuestCell::Uuid("550E8400E29B41D4A716446655440000".to_string())),
        Ok(Cell::Uuid(id))
    );
    assert_eq!(
        Cell::try_from_guest(GuestCell::Uuid("not a uuid".to_string())),
        Err(FdwError::ValueParse(ParseKind::Uuid))
    );
}

#[test]
fn documents_are_parsed_and_written_again() {
    assert_eq!(
        Cell::try_from_guest(GuestCell::Json("{ \"b\" : [1, 2] , \"a\":null }".to_string())),
        Ok(Cell::Json("{\"a\":null,\"b\":[1,2]}".to_string()))
    );
    assert_eq!(
        Cell::try_from_guest(GuestCell::Json("{".to_string())),
        Err(FdwError::ValueParse(ParseKind::Json))
    );
    assert_eq!(
        GuestCell::from_host(&Cell::Json("{\"a\":1}".to_string())),
        Ok(GuestCell::Json("{\"a\":1}".to_string()))
    );
}

#[test]
fn given_readings_decide_for_uuid_and_document_cells() {
    assert_eq!(
        host_cell_from_parts(GuestCell::Uuid("x".to_string()), Some(5), None),
        Ok(Cell::Uuid(5))
    );
    assert_eq!(
        host_cell_from_parts(GuestCell::Uuid("x".to_string()), None, Some("1".to_string())),
        Err(FdwError::ValueParse(ParseKind::Uuid))
    );
    assert_eq!(
        host_cell_from_parts(GuestCell::Json("x".to_string()), Some(5), Some("1".to_string())),
        Ok(Cell::Json("1".to_string()))
    );
    assert_eq!(host_cell_from_parts(GuestCell::I8(3), Some(5), None), Ok(Cell::I8(3)));
}

#[test]
fn cells_that_are_not_carried_fail() {
    assert_eq!(Cell::try_from_guest(GuestCell::Other("bytea".to_string())), Err(FdwError::PluginFault));
    assert_eq!(GuestCell::from_host(&Cell::BoolArray(vec![])), Err(FdwError::PluginFault));
    assert_eq!(GuestCell::from_host(&Cell::StringArray(vec![None])), Err(FdwError::PluginFault));
}

#[test]
fn operands_cross_cell_by_cell() {
    assert_eq!(
        GuestValue::from_host(&Value::Cell(Cell::I32(1))),
        Ok(GuestValue::Cell(GuestCell::I32(1)))
    );
    assert_eq!(
        GuestValue::from_host(&Value::Array(vec![Cell::I32(1), Cell::Bool(false)])),
        Ok(GuestValue::Array(vec![GuestCell::I32(1), GuestCell::Bool(false)]))
    );
    assert_eq!(GuestValue::from_host(&Value::Array(vec![])), Ok(GuestValue::Array(vec![])));
    assert_eq!(
        GuestValue::from_host(&Value::Array(vec![Cell::I32(1), Cell::I16Array(vec![])])),
        Err(FdwError::PluginFault)
    );
}

#[test]
fn parameters_metrics_and_modes() {
    assert_eq!(
        GuestParam::from(Param { id: 3, type_oid: 23 }),
        GuestParam { id: 3, type_oid: 23 }
    );
    assert_eq!(HostMetric::from(GuestMetric::CreateTimes), HostMetric::CreateTimes);
    assert_eq!(HostMetric::from(GuestMetric::RowsIn), HostMetric::RowsIn);
    assert_eq!(HostMetric::from(GuestMetric::RowsOut), HostMetric::RowsOut);
    assert_eq!(HostMetric::from(GuestMetric::BytesIn), HostMetric::BytesIn);
    assert_eq!(HostMetric::from(GuestMetric::BytesOut), HostMetric::BytesOut);
    assert_eq!(
        GuestImportSchemaType::from(ImportSchemaType::FdwImportSchemaAll),
        GuestImportSchemaType::All
    );
    assert_eq!(
        GuestImportSchemaType::from(ImportSchemaType::FdwImportSchemaLimitTo),
        GuestImportSchemaType::LimitTo
    );
    assert_eq!(
        GuestImportSchemaType::from(ImportSchemaType::FdwImportSchemaExcept),
        GuestImportSchemaType::Except
    );
}

#[test]
fn schema_import_request_crosses_field_for_field() {
    let mut options = Options::new();
    options.insert("k", "v");
    let stmt = ImportForeignSchemaStmt::from_parts(
        "srv".to_string(),
        "remote".to_string(),
        "local".to_string(),
        1,
        vec!["t1".to_string(), "t2".to_string()],
        options,
    );
    let guest = GuestImportForeignSchemaStmt::from(stmt);
    assert_eq!(
        guest,
        GuestImportForeignSchemaStmt {
            server_name: "srv".to_string(),
            remote_schema: "remote".to_string(),
            local_schema: "local".to_string(),
            list_type: GuestImportSchemaType::LimitTo,
            table_list: vec!["t1".to_string(), "t2".to_string()],
        }
    );
}
