use fdw_bridge::cell::{Cell, Column, Limit, Qual, Row, Value};
use fdw_bridge::datetime::Date;
use fdw_bridge::error::{FdwError, ParseKind};
use fdw_bridge::fdw::{ClickHouseFdw, Phase, RemoteBlock, RemoteColumn};
use fdw_bridge::options::{
    conn_string_source, require_option, resolve_conn_string, ConnStringSource, Options,
};
use fdw_bridge::remote::{RemoteField, RemoteType, RemoteValue};

fn options(pairs: &[(&str, &str)]) -> Options {
    let mut o = Options::new();
    for (k, v) in pairs {
        o.insert(k, v);
    }
    o
}

fn col(name: &str) -> Column {
    Column { name: name.to_string(), type_oid: 0 }
}

fn rcol(name: &str, ty: RemoteType) -> RemoteColumn {
    RemoteColumn { name: name.to_string(), ty }
}

#[test]
fn options_are_a_map() {
    let mut o = options(&[("a", "1"), ("b", "2")]);
    assert_eq!(o.get("a").map(|s| s.as_str()), Some("1"));
    assert_eq!(o.get("b").map(|s| s.as_str()), Some("2"));
    assert_eq!(o.get("A"), None);
    o.insert("a", "3");
    assert_eq!(o.get("a").map(|s| s.as_str()), Some("3"));
    assert_eq!(require_option("b", &o).map(|s| s.as_str()), Ok("2"));
    assert_eq!(require_option("c", &o), Err(FdwError::OptionMissing("c".to_string())));
}

#[test]
fn connection_string_sources() {
    let direct = options(&[("conn_string", "tcp://x"), ("conn_string_id", "7")]);
    assert_eq!(
        conn_string_source(&direct),
        Ok(ConnStringSource::Direct("tcp://x".to_string()))
    );
    let vault = options(&[("conn_string_id", "7")]);
    assert_eq!(conn_string_source(&vault), Ok(ConnStringSource::Vault("7".to_string())));
    assert_eq!(
        conn_string_source(&Options::new()),
        Err(FdwError::OptionMissing("conn_string_id".to_string()))
    );
    assert_eq!(
        resolve_conn_string(ConnStringSource::Direct("a".to_string()), Some("b".to_string())),
        "a"
    );
    assert_eq!(
        resolve_conn_string(ConnStringSource::Vault("7".to_string()), Some("b".to_string())),
        "b"
    );
    assert_eq!(resolve_conn_string(ConnStringSource::Vault("7".to_string()), None), "");
}

#[test]
fn scan_of_an_empty_result() {
    let mut fdw = ClickHouseFdw::new("tcp://x".to_string());
    assert_eq!(fdw.phase, Phase::Created);
    let sql = fdw
        .begin_scan(&[], &[col("a")], &[], &None, &options(&[("table", "t")]))
        .unwrap();
    assert_eq!(sql, "select a from t");
    assert_eq!(fdw.phase, Phase::Scanning);
    fdw.load_block(RemoteBlock { columns: vec![rcol("a", RemoteType::Int32)], rows: vec![] });
    let mut row = Row::new();
    assert_eq!(fdw.iter_scan(&mut row), Ok(None));
    assert_eq!(fdw.iter_scan(&mut row), Ok(None));
    assert_eq!(fdw.iter_scan(&mut row), Ok(None));
    assert_eq!(row.len(), 0);
    fdw.end_scan();
    assert_eq!(fdw.phase, Phase::Created);
    assert_eq!(fdw.scan_blk, None);
    fdw.end_scan();
    assert_eq!(fdw.phase, Phase::Created);
    assert_eq!(fdw.scan_blk, None);
    assert_eq!(fdw.iter_scan(&mut row), Ok(None));
}

#[test]
fn scan_before_any_result() {
    let mut fdw = ClickHouseFdw::new(String::new());
    let mut row = Row::new();
    assert_eq!(fdw.iter_scan(&mut row), Ok(None));
    assert_eq!(row, Row::new());
}

#[test]
fn scan_hands_out_rows_in_target_order() {
    let mut fdw = ClickHouseFdw::new(String::new());
    let quals = vec![Qual {
        field: "id".to_string(),
        operator: "=".to_string(),
        value: Value::Cell(Cell::I64(42)),
    }];
    let sql = fdw
        .begin_scan(
            &quals,
            &[col("name"), col("id"), col("missing"), col("n")],
            &[],
            &Some(Limit { count: 10, offset: 5 }),
            &options(&[("table", "(select * from t where id = ${id})")]),
        )
        .unwrap();
    assert_eq!(sql, "select name, missing, n from (select * from t where id = 42) limit 15");
    fdw.load_block(RemoteBlock {
        columns: vec![
            rcol("n", RemoteType::Nullable(Box::new(RemoteType::UInt8))),
            rcol("name", RemoteType::String),
        ],
        rows: vec![
            vec![Some(RemoteValue::UInt8(200)), Some(RemoteValue::String("x".to_string()))],
            vec![None, Some(RemoteValue::String("y".to_string()))],
        ],
    });
    let mut row = Row::new();
    assert_eq!(fdw.iter_scan(&mut row), Ok(Some(())));
    let mut want = Row::new();
    want.push("name", Some(Cell::String("x".to_string())));
    want.push("id", Some(Cell::I64(42)));
    want.push("missing", None);
    want.push("n", Some(Cell::I16(200)));
    assert_eq!(row, want);
    let mut row = Row::new();
    assert_eq!(fdw.iter_scan(&mut row), Ok(Some(())));
    assert_eq!(row.cell(3), &None);
    assert_eq!(row.name(3), "n");
    let mut row = Row::new();
    assert_eq!(fdw.iter_scan(&mut row), Ok(None));
    assert_eq!(fdw.iter_scan(&mut row), Ok(None));
    assert_eq!(row.len(), 0);
}

#[test]
fn scan_errors() {
    let mut fdw = ClickHouseFdw::new(String::new());
    assert_eq!(
        fdw.begin_scan(&[], &[], &[], &None, &Options::new()),
        Err(FdwError::OptionMissing("table".to_string()))
    );
    fdw.begin_scan(&[], &[col("a")], &[], &None, &options(&[("table", "t")])).unwrap();
    fdw.load_block(RemoteBlock {
        columns: vec![rcol("a", RemoteType::Other("IPv6".to_string()))],
        rows: vec![vec![Some(RemoteValue::UInt8(1))]],
    });
    let mut row = Row::new();
    assert_eq!(
        fdw.iter_scan(&mut row),
        Err(FdwError::UnsupportedColumnType("IPv6".to_string()))
    );
    fdw.load_block(RemoteBlock { columns: vec![rcol("a", RemoteType::Int8)], rows: vec![vec![]] });
    assert_eq!(fdw.iter_scan(&mut row), Err(FdwError::RemoteProtocol));
}

#[test]
fn modify_needs_table_and_rowid_column() {
    let mut fdw = ClickHouseFdw::new(String::new());
    assert_eq!(
        fdw.begin_modify(&options(&[("rowid_column", "id")])),
        Err(FdwError::OptionMissing("table".to_string()))
    );
    assert_eq!(
        fdw.begin_modify(&options(&[("table", "t")])),
        Err(FdwError::OptionMissing("rowid_column".to_string()))
    );
    assert_eq!(fdw.phase, Phase::Created);
    assert_eq!(fdw.begin_modify(&options(&[("table", "t"), ("rowid_column", "id")])), Ok(()));
    assert_eq!(fdw.phase, Phase::Modifying);
    fdw.end_scan();
    assert_eq!(fdw.phase, Phase::Modifying);
    assert_eq!(fdw.table, "t");
    assert_eq!(fdw.rowid_col, "id");
    assert_eq!(fdw.probe_query(), "select * from t where false");
}

#[test]
fn insert_writes_each_cell_for_its_column() {
    let mut fdw = ClickHouseFdw::new(String::new());
    fdw.begin_modify(&options(&[("table", "t"), ("rowid_column", "id")])).unwrap();
    let probe = vec![
        rcol("id", RemoteType::UInt32),
        rcol("name", RemoteType::Nullable(Box::new(RemoteType::String))),
        rcol("d", RemoteType::Date),
    ];
    let mut row = Row::new();
    row.push("name", Some(Cell::String("x".to_string())));
    row.push("d", None);
    row.push("id", Some(Cell::I64(7)));
    assert_eq!(
        fdw.insert(&row, &probe),
        Ok(vec![
            (
                "name".to_string(),
                RemoteField { value: RemoteValue::String("x".to_string()), nullable: true }
            ),
            ("id".to_string(), RemoteField { value: RemoteValue::UInt32(7), nullable: false }),
        ])
    );
    let mut row = Row::new();
    row.push("nope", None);
    assert_eq!(fdw.insert(&row, &probe), Err(FdwError::RemoteProtocol));
    let mut row = Row::new();
    row.push("d", Some(Cell::I16(1)));
    assert_eq!(
        fdw.insert(&row, &probe),
        Err(FdwError::UnsupportedColumnType("Date".to_string()))
    );
    assert_eq!(fdw.insert(&Row::new(), &probe), Ok(vec![]));
}

#[test]
fn update_and_delete_statements() {
    let mut fdw = ClickHouseFdw::new(String::new());
    fdw.begin_modify(&options(&[("table", "t"), ("rowid_column", "id")])).unwrap();
    let mut row = Row::new();
    row.push("id", Some(Cell::I64(1)));
    row.push("name", Some(Cell::String("o'k".to_string())));
    row.push("gone", None);
    row.push("u", Some(Cell::Uuid(1)));
    row.push("d", Some(Cell::Date(Date { days: 0 })));
    assert_eq!(
        fdw.update(&Cell::I64(1), &row).unwrap(),
        "alter table t update name = 'o''k', gone = null, u = '00000000-0000-0000-0000-000000000001', d = '2000-01-01' where id = 1"
    );
    assert_eq!(
        fdw.update(&Cell::String("k".to_string()), &Row::new()).unwrap(),
        "alter table t update  where id = 'k'"
    );
    assert_eq!(fdw.delete(&Cell::I32(-3)).unwrap(), "alter table t delete where id = -3");
    assert_eq!(
        fdw.delete(&Cell::Uuid(0)).unwrap(),
        "alter table t delete where id = '00000000-0000-0000-0000-000000000000'"
    );
    assert_eq!(
        fdw.delete(&Cell::Date(Date { days: i32::MAX })),
        Err(FdwError::ValueParse(ParseKind::Date))
    );
    let mut bad = Row::new();
    bad.push("d", Some(Cell::Date(Date { days: i32::MAX })));
    assert_eq!(fdw.update(&Cell::I64(1), &bad), Err(FdwError::ValueParse(ParseKind::Date)));
}

#[test]
fn error_reports() {
    assert_eq!(
        FdwError::OptionMissing("table".to_string()).message(),
        "required option 'table' is not specified"
    );
    assert_eq!(
        FdwError::UnsupportedColumnType("Array(Date)".to_string()).message(),
        "column type Array(Date) is not supported"
    );
    assert_eq!(
        FdwError::UnmatchedParameter("id".to_string()).message(),
        "parameter 'id' matches no qualifier"
    );
    assert_eq!(
        FdwError::NoArrayParameter("id".to_string()).message(),
        "parameter 'id' cannot take a list of values"
    );
    assert_eq!(FdwError::ValueParse(ParseKind::Decimal).message(), "value is not a valid decimal");
    assert_eq!(FdwError::ValueParse(ParseKind::Date).message(), "value is not a valid date");
    assert_eq!(
        FdwError::ValueParse(ParseKind::Timestamp).message(),
        "value is not a valid timestamp"
    );
    assert_eq!(FdwError::ValueParse(ParseKind::Uuid).message(), "value is not a valid uuid");
    assert_eq!(
        FdwError::ValueParse(ParseKind::Int256).message(),
        "value is not a valid 256-bit integer"
    );
    assert_eq!(FdwError::ValueParse(ParseKind::Json).message(), "value is not a valid json");
    assert_eq!(FdwError::RemoteProtocol.message(), "remote system broke its protocol");
    assert_eq!(
        FdwError::PluginFault.message(),
        "plugin handed over a value that cannot be carried"
    );
}
