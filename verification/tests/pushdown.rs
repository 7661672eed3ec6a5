use fdw_bridge::cell::{Cell, Column, Limit, Qual, Sort, Value};
use fdw_bridge::error::FdwError;
use fdw_bridge::pushdown::{
    byte_offsets, char_len_utf8, compile_query, compile_with_spans, replace_all_params,
    spans_in_chars,
};

fn col(name: &str) -> Column {
    Column { name: name.to_string(), type_oid: 25 }
}

fn qual(field: &str, op: &str, cell: Cell) -> Qual {
    Qual { field: field.to_string(), operator: op.to_string(), value: Value::Cell(cell) }
}

#[test]
fn template_parameter_is_consumed() {
    let quals = vec![qual("id", "=", Cell::I64(42))];
    let (sql, params) = compile_query(
        "(select * from t where id = ${id})",
        &quals,
        &[col("name")],
        &[],
        &None,
    )
    .unwrap();
    assert_eq!(sql, "select name from (select * from t where id = 42)");
    assert_eq!(params.len(), 1);
    assert_eq!(params[0].field, "id");
    assert!(matches!(params[0].cell, Cell::I64(42)));
}

#[test]
fn template_with_given_spans() {
    let quals = vec![qual("id", "=", Cell::I64(42))];
    let spans = vec![(28usize, 33usize)];
    let (sql, _) = compile_with_spans(
        "(select * from t where id = ${id})",
        &spans,
        &quals,
        &[col("id"), col("name")],
        &[],
        &None,
    )
    .unwrap();
    assert_eq!(sql, "select name from (select * from t where id = 42)");
}

#[test]
fn limit_adds_offset_and_count() {
    let (sql, params) = compile_query(
        "t",
        &[],
        &[],
        &[],
        &Some(Limit { count: 10, offset: 5 }),
    )
    .unwrap();
    assert_eq!(sql, "select * from t limit 15");
    assert!(sql.ends_with("limit 15"));
    assert!(!sql.contains("offset"));
    assert!(params.is_empty());
}

#[test]
fn limit_near_the_top_of_the_range() {
    let (sql, _) = compile_query(
        "t",
        &[],
        &[],
        &[],
        &Some(Limit { count: i64::MAX, offset: i64::MAX }),
    )
    .unwrap();
    assert_eq!(sql, "select * from t limit 18446744073709551614");
}

#[test]
fn where_order_and_limit() {
    let quals = vec![
        qual("a", ">", Cell::I32(-7)),
        qual("b", "~~", Cell::String("x'y%".to_string())),
        qual("c", "is", Cell::String("null".to_string())),
    ];
    let sorts = vec![
        Sort { field: "a".to_string(), ascending: true, nulls_first: false },
        Sort { field: "b".to_string(), ascending: false, nulls_first: true },
    ];
    let (sql, _) = compile_query(
        "t",
        &quals,
        &[col("a"), col("b")],
        &sorts,
        &Some(Limit { count: 1, offset: 0 }),
    )
    .unwrap();
    assert_eq!(
        sql,
        "select a, b from t where a > -7 and b like 'x''y%' and c is null order by a asc nulls last, b desc nulls first limit 1"
    );
}

#[test]
fn list_valued_qualifier_in_where() {
    let quals = vec![Qual {
        field: "k".to_string(),
        operator: "in".to_string(),
        value: Value::Array(vec![Cell::I16(1), Cell::I16(2)]),
    }];
    let (sql, _) = compile_query("t", &quals, &[], &[], &None).unwrap();
    assert_eq!(sql, "select * from t where k in (1, 2)");
}

#[test]
fn list_valued_parameter_is_refused() {
    let quals = vec![Qual {
        field: "id".to_string(),
        operator: "=".to_string(),
        value: Value::Array(vec![Cell::I64(1)]),
    }];
    let r = compile_query("(select * from t where id = ${id})", &quals, &[], &[], &None);
    match r {
        Err(FdwError::NoArrayParameter(name)) => assert_eq!(name, "id"),
        other => panic!("unexpected: {:?}", other),
    }
}

#[test]
fn unmatched_parameter_is_refused() {
    let r = compile_query("(select * from t where id = ${id})", &[], &[], &[], &None);
    match r {
        Err(FdwError::UnmatchedParameter(name)) => assert_eq!(name, "id"),
        other => panic!("unexpected: {:?}", other),
    }
}

#[test]
fn two_placeholders_and_text_between() {
    let quals = vec![qual("a", "=", Cell::I8(1)), qual("b", "=", Cell::Bool(true))];
    let (sql, params) = compile_query(
        "(select ${a}, é, ${b} from u)",
        &quals,
        &[col("a"), col("z")],
        &[],
        &None,
    )
    .unwrap();
    assert_eq!(sql, "select z from (select 1, é, true from u)");
    assert_eq!(params.len(), 2);
}

#[test]
fn spans_out_of_order_are_a_breach() {
    let spans = vec![(5usize, 3usize)];
    let r = replace_all_params("(abcdefgh)", &spans, &[]);
    assert!(matches!(r, Err(FdwError::RemoteProtocol)));
}

#[test]
fn byte_offsets_become_character_counts() {
    assert_eq!(char_len_utf8('a'), 1);
    assert_eq!(char_len_utf8('é'), 2);
    assert_eq!(char_len_utf8('€'), 3);
    assert_eq!(char_len_utf8('😀'), 4);
    for c in ['\0', '\u{7f}', '\u{80}', '\u{7ff}', '\u{800}', '\u{ffff}', '\u{10000}', '\u{10ffff}'] {
        assert_eq!(char_len_utf8(c) as usize, c.len_utf8());
    }
    assert_eq!(byte_offsets(&vec!['a', 'é', '€', '😀']), vec![0, 1, 3, 6, 10]);
    assert_eq!(spans_in_chars("é${a}", &vec![(2, 6)]), Some(vec![(1, 5)]));
    assert_eq!(spans_in_chars("é${a}", &vec![(0, 0), (6, 6)]), Some(vec![(0, 0), (5, 5)]));
    assert_eq!(spans_in_chars("é${a}", &vec![(1, 6)]), None);
    assert_eq!(spans_in_chars("é${a}", &vec![(2, 7)]), None);
    assert_eq!(spans_in_chars("", &vec![]), Some(vec![]));
}
