use cyphr::bolt::{clone_value, Node, StringMap, Value};
use cyphr::error::CyphrError;
use cyphr::macros::cypher::{expand as cypher_expand, Piece};
use cyphr::macros::meta::{applied_count, prop_key, Attr, MetaItem, MetaValue, Reader};
use cyphr::macros::node::get_label;
use cyphr::macros::relation::get_rel_meta;
use cyphr::macros::to_cyphr_params::parse_field;
use cyphr::mapping::{record_field, record_optional_field};
use cyphr::query::{one_row, optional_row, push_row, query, CyphrQuery};
use cyphr::record::{get_value, has_key, Row};
use cyphr::stream::next_item;
use cyphr::text::{chars_of, is_white_char, replace_pair, string_of, trim_chars};
use cyphr::traits::{FromCyphr, FromCyphrValue, IntoCyphrValue, ToCyphrParams};
use cyphr::value::{
    date_time_error, date_time_source, float_bits, value_type_name, CyphrBytes, DateTimeSource,
    Point2D,
};

fn s(x: &str) -> Value {
    Value::String(x.to_string())
}

fn item(path: &str, value: MetaValue) -> MetaItem {
    MetaItem { path: path.to_string(), value }
}

fn attr(path: &str, items: Vec<MetaItem>) -> Attr {
    Attr { path: path.to_string(), items }
}

struct Pair {
    a: i64,
    b: Option<String>,
}

impl FromCyphr for Pair {
    fn from_record(record: &Row) -> Result<Self, CyphrError> {
        Ok(Pair {
            a: record_field(record, "Pair", "a")?,
            b: record_optional_field(record, "Pair", "b")?,
        })
    }
}

struct Named {
    name: String,
    age: i64,
}

impl ToCyphrParams for Named {
    fn to_params(self) -> StringMap<Value> {
        let mut m = StringMap::new();
        m.put_value("name".to_string(), self.name.into_value());
        m.put_value("age".to_string(), self.age.into_value());
        m
    }
}

// --- StringMap: a read gives back the last write, other keys untouched ---

#[test]
fn string_map_put_then_get() {
    let mut m: StringMap<i64> = StringMap::new();
    m.put("a".to_string(), 1);
    m.put("b".to_string(), 2);
    m.put("a".to_string(), 3);
    assert_eq!(m.len(), 2);
    assert_eq!(m.get("a"), Some(&3));
    assert_eq!(m.get("b"), Some(&2));
    assert_eq!(m.get("c"), None);
    let keys: Vec<&str> = m.entries().iter().map(|(k, _)| k.as_str()).collect();
    assert_eq!(keys, vec!["a", "b"]);
}

#[test]
fn string_map_value_put_get_round_trip() {
    let mut m: StringMap<Value> = StringMap::new();
    m.put_value("k".to_string(), Value::Integer(5));
    m.put_value("k".to_string(), s("v"));
    assert!(matches!(m.get_value("k"), Some(Value::String(x)) if x == "v"));
    assert!(m.get_value("missing").is_none());
    let entries = m.into_entries();
    assert_eq!(entries.len(), 1);
}

// --- Rows ---

#[test]
fn row_pairs_fields_with_values_by_position() {
    let row = Row::new(vec![s("a"), s("b"), s("c")], vec![Value::Integer(1), Value::Null]);
    assert!(has_key(&row, "a"));
    assert!(has_key(&row, "b"));
    assert!(!has_key(&row, "c"));
    assert!(matches!(get_value(&row, "a"), Some(Value::Integer(1))));
    assert!(matches!(get_value(&row, "b"), Some(Value::Null)));
}

#[test]
fn row_later_duplicate_column_wins_and_non_string_names_are_dropped() {
    let row = Row::new(
        vec![s("x"), Value::Integer(9), s("x")],
        vec![Value::Integer(1), Value::Integer(2), Value::Integer(3)],
    );
    assert!(matches!(get_value(&row, "x"), Some(Value::Integer(3))));
    assert!(get_value(&row, "9").is_none());
}

#[test]
fn optional_field_missing_or_null_is_none() {
    let row = Row::new(vec![s("a")], vec![Value::Integer(4)]);
    let p = Pair::from_record(&row).unwrap_or_else(|e| panic!("{}", e.message()));
    assert_eq!(p.a, 4);
    assert!(p.b.is_none());

    let row = Row::new(vec![s("a"), s("b")], vec![Value::Integer(4), Value::Null]);
    let p = Pair::from_record(&row).unwrap_or_else(|e| panic!("{}", e.message()));
    assert!(p.b.is_none());

    let row = Row::new(vec![s("a"), s("b")], vec![Value::Integer(4), s("hi")]);
    let p = Pair::from_record(&row).unwrap_or_else(|e| panic!("{}", e.message()));
    assert_eq!(p.b.as_deref(), Some("hi"));

    let row = Row::new(vec![s("a"), s("b")], vec![Value::Integer(4), Value::Integer(5)]);
    let e = Pair::from_record(&row).err().unwrap();
    assert_eq!(e.message(), "Pair::b: type mismatch: expected String, got Integer (String)");
}

// --- Fetch decisions ---

#[test]
fn one_row_without_row_is_missing_field() {
    let r: Result<Pair, CyphrError> = one_row(None, "fetch_one");
    let e = r.err().unwrap();
    assert!(matches!(&e, CyphrError::MissingField { field, struct_name }
        if field == "row" && struct_name == "fetch_one"));
}

#[test]
fn one_row_and_optional_row_read_the_row() {
    let row = Row::new(vec![s("a")], vec![Value::Integer(8)]);
    let p: Pair = one_row(Some(row), "fetch_one").unwrap_or_else(|e| panic!("{}", e.message()));
    assert_eq!(p.a, 8);

    let r: Result<Option<Pair>, CyphrError> = optional_row(None);
    assert!(matches!(r, Ok(None)));

    let row = Row::new(vec![s("a")], vec![Value::Integer(9)]);
    let r: Result<Option<Pair>, CyphrError> = optional_row(Some(row));
    assert_eq!(r.unwrap_or_else(|e| panic!("{}", e.message())).unwrap().a, 9);
}

#[test]
fn push_row_appends_or_leaves_untouched() {
    let mut out: Vec<Pair> = Vec::new();
    let good = Row::new(vec![s("a")], vec![Value::Integer(1)]);
    assert!(push_row(&mut out, &good).is_ok());
    let bad = Row::new(vec![s("z")], vec![Value::Integer(1)]);
    let e = push_row(&mut out, &bad).err().unwrap();
    assert_eq!(e.message(), "missing field 'a' on Pair");
    assert_eq!(out.len(), 1);
}

#[test]
fn stream_item_decisions() {
    let r: Option<Result<Pair, CyphrError>> = next_item(None);
    assert!(r.is_none());
    let r: Option<Result<Pair, CyphrError>> = next_item(Some(Err(neo4rs::Error::ConversionError)));
    assert!(matches!(r, Some(Err(CyphrError::Neo4j(_)))));
    let row = Row::new(vec![s("a")], vec![Value::Integer(2)]);
    let r: Option<Result<Pair, CyphrError>> = next_item(Some(Ok(row)));
    assert_eq!(r.unwrap().unwrap_or_else(|e| panic!("{}", e.message())).a, 2);
}

// --- Queries ---

#[test]
fn query_starts_empty_and_binds_from_struct() {
    let q = query("CREATE (u:User {name: $name, age: $age})");
    assert_eq!(q.text(), "CREATE (u:User {name: $name, age: $age})");
    let q = q.param("age", 1i64).params_from(Named { name: "Ann".to_string(), age: 41 });
    let (text, params) = q.into_parts();
    assert_eq!(text, "CREATE (u:User {name: $name, age: $age})");
    let keys: Vec<&str> = params.entries().iter().map(|(k, _)| k.as_str()).collect();
    assert_eq!(keys, vec!["age", "name"]);
    assert!(matches!(params.get("age"), Some(Value::Integer(41))));
    assert!(matches!(params.get("name"), Some(Value::String(x)) if x == "Ann"));
}

#[test]
fn optional_and_list_parameters_encode() {
    let q = CyphrQuery::new("RETURN $a, $b, $c")
        .param("a", None::<i64>)
        .param("b", Some(3i32))
        .param("c", vec!["x", "y"]);
    let (_, params) = q.into_parts();
    assert!(matches!(params.get("a"), Some(Value::Null)));
    assert!(matches!(params.get("b"), Some(Value::Integer(3))));
    match params.get("c") {
        Some(Value::List(xs)) => {
            assert_eq!(xs.len(), 2);
            assert!(matches!(&xs[1], Value::String(x) if x == "y"));
        }
        other => panic!("expected List, got: {other:?}"),
    }
}

// --- Errors ---

#[test]
fn error_messages_for_each_variant() {
    assert_eq!(CyphrError::Mapping("bad".to_string()).message(), "mapping error: bad");
    assert_eq!(
        CyphrError::missing_property("name", "User").message(),
        "missing property 'name' on User"
    );
    assert_eq!(
        CyphrError::missing_field("age", "UserResult").message(),
        "missing field 'age' on UserResult"
    );
    assert_eq!(
        CyphrError::type_mismatch("Integer", "String", "i64").message(),
        "type mismatch: expected Integer, got String (i64)"
    );
    let driver = CyphrError::from(neo4rs::Error::ConversionError);
    assert!(matches!(driver, CyphrError::Neo4j(_)));
    assert_eq!(driver.message(), "neo4j error: conversion error");
}

#[test]
fn context_message_is_context_then_inner() {
    let inner = CyphrError::type_mismatch("Integer", "String", "i64");
    let outer = inner.with_context("User::age (prop 'age')").with_context("loading");
    assert_eq!(
        outer.message(),
        "loading: User::age (prop 'age'): type mismatch: expected Integer, got String (i64)"
    );
}

// --- Values ---

#[test]
fn scalars_round_trip_through_values() {
    assert_eq!(i64::from_value((-7i64).into_value()).unwrap(), -7);
    assert_eq!(i32::from_value(i32::MIN.into_value()).unwrap(), i32::MIN);
    assert_eq!(i16::from_value((-300i16).into_value()).unwrap(), -300);
    assert_eq!(i8::from_value((-128i8).into_value()).unwrap(), -128);
    assert_eq!(u32::from_value(u32::MAX.into_value()).unwrap(), u32::MAX);
    assert_eq!(u16::from_value(65535u16.into_value()).unwrap(), 65535);
    assert!(!bool::from_value(false.into_value()).unwrap());
    assert_eq!(String::from_value("héllo".into_value()).unwrap(), "héllo");
    assert_eq!(CyphrBytes::from_value(CyphrBytes(vec![0, 255]).into_value()).unwrap().0, vec![0, 255]);
    let p = Point2D { sr_id: 7, x: 0.5f64.to_bits(), y: (-1.0f64).to_bits() };
    assert_eq!(Point2D::from_value(p.into_value()).unwrap(), p);
}

#[test]
fn lists_round_trip_and_report_element_errors() {
    let back = Vec::<i16>::from_value(vec![1i16, -2, 3].into_value()).unwrap();
    assert_eq!(back, vec![1, -2, 3]);
    let e = Vec::<i64>::from_value(Value::List(vec![Value::Integer(1), Value::Boolean(true)]))
        .unwrap_err();
    assert!(matches!(&e, CyphrError::TypeMismatch { expected, got, .. }
        if expected == "Integer" && got == "Boolean"));
    let e = Vec::<i64>::from_value(Value::Integer(1)).unwrap_err();
    assert!(matches!(&e, CyphrError::TypeMismatch { expected, context, .. }
        if expected == "List" && context == "Vec<T>"));
}

#[test]
fn integers_convert_by_truncation() {
    assert_eq!(u8::from_value(Value::Integer(256)).unwrap(), 0);
    assert_eq!(i8::from_value(Value::Integer(200)).unwrap(), -56);
    assert_eq!(u64::from_value(Value::Integer(-1)).unwrap(), u64::MAX);
}

#[test]
fn option_of_wrong_type_is_an_error() {
    let e = Option::<bool>::from_value(Value::Integer(1)).unwrap_err();
    assert!(matches!(&e, CyphrError::TypeMismatch { expected, .. } if expected == "Boolean"));
}

#[test]
fn tuples_read_lists_of_exact_length() {
    let (a, b) = <(i64, String)>::from_value(Value::List(vec![Value::Integer(1), s("x")])).unwrap();
    assert_eq!((a, b.as_str()), (1, "x"));
    let e = <(i64, String)>::from_value(Value::List(vec![Value::Integer(1)])).unwrap_err();
    assert!(matches!(&e, CyphrError::TypeMismatch { expected, got, context }
        if expected == "List[2]" && got == "List" && context == "tuple(A, B)"));
    let (x, y, z) = <(bool, i64, Option<i64>)>::from_value(Value::List(vec![
        Value::Boolean(true),
        Value::Integer(2),
        Value::Null,
    ]))
    .unwrap();
    assert!(x && y == 2 && z.is_none());
}

#[test]
fn float_bits_read_floats_only() {
    assert_eq!(float_bits(Value::Float(2.5f64.to_bits()), "f64").unwrap(), 2.5f64.to_bits());
    let e = float_bits(Value::Integer(1), "f32").unwrap_err();
    assert_eq!(e.message(), "type mismatch: expected Float, got Integer (f32)");
}

#[test]
fn value_type_names() {
    assert_eq!(value_type_name(&Value::Null), "Null");
    assert_eq!(value_type_name(&Value::Dict(StringMap::new())), "Map");
    assert_eq!(value_type_name(&Value::List(vec![])), "List");
    assert_eq!(value_type_name(&Value::Float(0)), "Float");
}

#[test]
fn clone_value_copies_nested_content() {
    let node = Node { id: 3, labels: vec!["L".to_string()], properties: StringMap::new() };
    let v = Value::List(vec![Value::Node(node), s("t")]);
    let c = clone_value(&v);
    match c {
        Value::List(xs) => {
            assert!(matches!(&xs[0], Value::Node(n) if n.id == 3 && n.labels == vec!["L".to_string()]));
            assert!(matches!(&xs[1], Value::String(x) if x == "t"));
        }
        other => panic!("expected List, got: {other:?}"),
    }
}

#[test]
fn clone_value_keeps_temporal_values() {
    let d = neo4rs::BoltDate::from(chrono::NaiveDate::from_ymd_opt(1999, 12, 31).unwrap());
    let v = Value::Date(d.clone());
    match clone_value(&v) {
        Value::Date(c) => assert_eq!(c, d),
        other => panic!("expected Date, got: {other:?}"),
    }
    let mut props = StringMap::new();
    props.put_value("when".to_string(), v);
    assert!(matches!(props.get_value("when"), Some(Value::Date(c)) if c == d));
}

#[test]
fn dates_convert_through_the_driver() {
    let d = chrono::NaiveDate::from_ymd_opt(2021, 3, 14).unwrap();
    let back = chrono::NaiveDate::from_value(Value::Date(neo4rs::BoltDate::from(d))).unwrap();
    assert_eq!(back, d);
    let dt = d.and_hms_opt(1, 2, 3).unwrap();
    let back =
        chrono::NaiveDateTime::from_value(Value::LocalDateTime(neo4rs::BoltLocalDateTime::from(dt)))
            .unwrap();
    assert_eq!(back, dt);
    let e = chrono::NaiveDate::from_value(Value::Integer(1)).unwrap_err();
    assert_eq!(e.message(), "type mismatch: expected Date, got Integer (NaiveDate)");
}

#[test]
fn date_time_sources_and_errors() {
    let e = date_time_source(Value::Boolean(true)).err().unwrap();
    assert_eq!(e.message(), "type mismatch: expected DateTime, got Boolean (DateTime<FixedOffset>)");
    let fixed = chrono::DateTime::parse_from_rfc3339("2020-01-01T00:00:00+02:00").unwrap();
    let src = date_time_source(Value::DateTime(neo4rs::BoltDateTime::from(fixed))).ok().unwrap();
    assert!(matches!(src, DateTimeSource::Fixed(_)));
    let err = date_time_error(&src, &neo4rs::Error::ConversionError);
    assert_eq!(err.message(), "mapping error: BoltDateTime -> DateTime<FixedOffset>: conversion error");
}

// --- Text and macro helpers ---

#[test]
fn cypher_normalization() {
    assert_eq!(cypher_expand(&vec![Piece::Code("  MATCH ( n : L ) , ( m ) RETURN [ n ] , { a : 1 }  ".to_string())]),
        "MATCH (n:L), (m) RETURN [n], {a:1}");
    assert_eq!(string_of(&trim_chars(&chars_of("\t x \n"))), "x");
    assert_eq!(string_of(&replace_pair(&chars_of("a  b   c"), ' ', ' ', ' ')), "a b  c");
    assert!(is_white_char('\u{3000}'));
    assert!(!is_white_char('x'));
}

#[test]
fn attribute_reading() {
    let attrs = vec![
        attr("doc", vec![item("label", MetaValue::Str("Ignored".to_string()))]),
        attr("cyphr", vec![
            item("id", MetaValue::Absent),
            item("prop", MetaValue::Str("first".to_string())),
        ]),
        attr("cyphr", vec![item("prop", MetaValue::Str("second".to_string()))]),
    ];
    assert_eq!(prop_key(&attrs, "f"), "second");
    assert_eq!(prop_key(&Vec::new(), "f"), "f");
    let info = parse_field(&attrs, "f");
    assert!(info.skip);
    assert_eq!(info.prop_key, "second");
    assert_eq!(get_label(&attrs, "S"), "S");
    let label_attrs = vec![
        attr("cyphr", vec![item("label", MetaValue::Str("A".to_string()))]),
        attr("cyphr", vec![item("label", MetaValue::Str("B".to_string()))]),
    ];
    assert_eq!(get_label(&label_attrs, "S"), "A");
    let (t, f, to) = get_rel_meta(&vec![attr("cyphr", vec![item("from", MetaValue::Str("X".to_string()))])], "R");
    assert_eq!(t, "R");
    assert_eq!(f.as_deref(), Some("X"));
    assert!(to.is_none());
}

#[test]
fn reading_stops_at_a_key_without_value() {
    let items = vec![
        item("prop", MetaValue::Absent),
        item("prop", MetaValue::Str("late".to_string())),
    ];
    assert_eq!(applied_count(&items, &Reader::Prop), 0);
    assert_eq!(prop_key(&vec![attr("cyphr", items)], "f"), "f");
    let items = vec![item("other", MetaValue::Other), item("prop", MetaValue::Str("p".to_string()))];
    assert_eq!(applied_count(&items, &Reader::Prop), 1);
}

#[test]
fn maps_round_trip_through_values() {
    let mut m: StringMap<i64> = StringMap::new();
    m.put("b".to_string(), 2);
    m.put("a".to_string(), 1);
    let v = m.into_value();
    match &v {
        Value::Dict(d) => {
            let keys: Vec<&str> = d.entries().iter().map(|(k, _)| k.as_str()).collect();
            assert_eq!(keys, vec!["b", "a"]);
        }
        other => panic!("expected Map, got: {other:?}"),
    }
    let back = StringMap::<i64>::from_value(v).unwrap();
    assert_eq!(back.get("a"), Some(&1));
    assert_eq!(back.get("b"), Some(&2));
    assert_eq!(back.len(), 2);
}

#[test]
fn map_value_errors_name_the_first_bad_entry() {
    let mut m: StringMap<Value> = StringMap::new();
    m.put_value("ok".to_string(), Value::Integer(1));
    m.put_value("bad".to_string(), s("x"));
    let e = StringMap::<i64>::from_value(Value::Dict(m)).unwrap_err();
    assert_eq!(e.message(), "type mismatch: expected Integer, got String (i64)");
}

#[test]
fn dates_become_date_parameters() {
    let d = chrono::NaiveDate::from_ymd_opt(2000, 2, 29).unwrap();
    let v = d.into_value();
    assert!(matches!(&v, Value::Date(_)));
    assert_eq!(chrono::NaiveDate::from_value(v).unwrap(), d);
    let dt = d.and_hms_opt(23, 59, 59).unwrap();
    let v = dt.into_value();
    assert_eq!(chrono::NaiveDateTime::from_value(v).unwrap(), dt);
}

#[test]
fn driver_errors_render_inside_contexts() {
    let e = CyphrError::from(neo4rs::Error::ConversionError).with_context("User::born");
    assert_eq!(e.message(), "User::born: neo4j error: conversion error");
}

#[test]
fn rows_have_distinct_columns_and_fetch_all_stops_at_first_bad_row() {
    let rows = vec![
        Row::new(vec![s("a")], vec![Value::Integer(1)]),
        Row::new(vec![s("a")], vec![Value::Integer(2)]),
        Row::new(vec![s("b")], vec![Value::Integer(3)]),
        Row::new(vec![s("a")], vec![Value::Integer(4)]),
    ];
    rows[0].columns_distinct();
    let mut out: Vec<Pair> = Vec::new();
    let mut err = None;
    for row in &rows {
        if let Err(e) = push_row(&mut out, row) {
            err = Some(e);
            break;
        }
    }
    assert_eq!(out.iter().map(|p| p.a).collect::<Vec<_>>(), vec![1, 2]);
    assert_eq!(err.unwrap().message(), "missing field 'a' on Pair");
}

#[test]
fn a_bad_row_does_not_end_the_stream() {
    let items = vec![
        Some(Ok(Row::new(vec![s("a")], vec![Value::Integer(1)]))),
        Some(Ok(Row::new(vec![s("a")], vec![s("x")]))),
        Some(Ok(Row::new(vec![s("a")], vec![Value::Integer(3)]))),
        None,
    ];
    let outs: Vec<Option<Result<Pair, CyphrError>>> = items.into_iter().map(next_item).collect();
    assert_eq!(outs[0].as_ref().unwrap().as_ref().ok().unwrap().a, 1);
    assert!(outs[1].as_ref().unwrap().is_err());
    assert_eq!(outs[2].as_ref().unwrap().as_ref().ok().unwrap().a, 3);
    assert!(outs[3].is_none());
}

#[test]
fn params_from_reads_back_and_keeps_other_keys() {
    let q = CyphrQuery::new("X").param("keep", true).param("age", 1i64);
    let (_, params) = q.params_from(Named { name: "Zed".to_string(), age: 9 }).into_parts();
    assert!(matches!(params.get("keep"), Some(Value::Boolean(true))));
    assert!(matches!(params.get("age"), Some(Value::Integer(9))));
    assert!(matches!(params.get("name"), Some(Value::String(x)) if x == "Zed"));
    assert_eq!(params.len(), 3);
}
