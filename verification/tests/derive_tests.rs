use cyphr::bolt::{Node, Relation, StringMap, Value};
use cyphr::error::CyphrError;
use cyphr::macros::cypher::Piece;
use cyphr::macros::from_cyphr::RowFieldKind;
use cyphr::macros::meta::{Attr, DeriveInput, Field, MetaItem, MetaValue, Shape};
use cyphr::macros::{cypher, cyphr_node, cyphr_relation, from_cyphr, to_cyphr_params};
use cyphr::mapping::{node_field, node_from_value, record_field, rel_field, rel_from_value};
use cyphr::record::Row;
use cyphr::traits::{
    CyphrNode, CyphrRelation, FromCyphr, FromCyphrValue, IntoCyphrValue, NodeWrapper, ToCyphrParams,
};

fn cyphr_attr(items: Vec<(&str, MetaValue)>) -> Attr {
    Attr {
        path: "cyphr".to_string(),
        items: items
            .into_iter()
            .map(|(p, v)| MetaItem { path: p.to_string(), value: v })
            .collect(),
    }
}

fn field(name: &str, type_head: &str, attrs: Vec<Attr>) -> Field {
    Field { name: name.to_string(), type_head: type_head.to_string(), attrs }
}

fn props(entries: Vec<(&str, Value)>) -> StringMap<Value> {
    let mut m = StringMap::new();
    for (k, v) in entries {
        m.put(k.to_string(), v);
    }
    m
}

// `#[derive(Debug, CyphrNode)] #[cyphr(label = "User")] struct User { id: i64, name: String }`
#[derive(Debug)]
#[allow(dead_code)]
struct User {
    id: i64,
    name: String,
}

impl CyphrNode for User {
    const LABEL: &'static str = "User";

    fn from_node(node: &Node) -> Result<Self, CyphrError> {
        Ok(User {
            id: node_field(node, "User", Self::LABEL, "id", "id")?,
            name: node_field(node, "User", Self::LABEL, "name", "name")?,
        })
    }
}

impl FromCyphrValue for User {
    fn from_value(value: Value) -> Result<Self, CyphrError> {
        node_from_value(value)
    }
}

fn user_input() -> DeriveInput {
    DeriveInput {
        ident: "User".to_string(),
        attrs: vec![cyphr_attr(vec![("label", MetaValue::Str("User".to_string()))])],
        shape: Shape::Named(vec![field("id", "i64", vec![]), field("name", "String", vec![])]),
    }
}

// `#[derive(Debug, CyphrRelation)] #[cyphr(type = "FRIEND")] struct Friend { since: i64 }`
#[derive(Debug)]
#[allow(dead_code)]
struct Friend {
    since: i64,
}

impl CyphrRelation for Friend {
    const TYPE: &'static str = "FRIEND";
    const FROM_LABEL: Option<&'static str> = None;
    const TO_LABEL: Option<&'static str> = None;

    fn from_rel(rel: &Relation) -> Result<Self, CyphrError> {
        Ok(Friend { since: rel_field(rel, "Friend", Self::TYPE, "since", "since")? })
    }
}

impl FromCyphrValue for Friend {
    fn from_value(value: Value) -> Result<Self, CyphrError> {
        rel_from_value(value)
    }
}

fn friend_input() -> DeriveInput {
    DeriveInput {
        ident: "Friend".to_string(),
        attrs: vec![cyphr_attr(vec![("type", MetaValue::Str("FRIEND".to_string()))])],
        shape: Shape::Named(vec![field("since", "i64", vec![])]),
    }
}

// `#[derive(FromCyphr)] struct UserResult { u: NodeWrapper<User> }`
#[allow(dead_code)]
struct UserResult {
    u: NodeWrapper<User>,
}

impl FromCyphr for UserResult {
    fn from_record(record: &Row) -> Result<Self, CyphrError> {
        Ok(UserResult { u: record_field(record, "UserResult", "u")? })
    }
}

#[test]
fn test_cypher_macro() {
    let query = cypher(&vec![Piece::Code("MATCH (u : User) RETURN u".to_string())]);
    assert!(query.contains("MATCH") && query.contains("(u:User)") && query.contains("RETURN u"));
}

#[test]
fn test_node_trait_impl() {
    assert_eq!(User::LABEL, "User");
    let plan = cyphr_node(&user_input()).unwrap();
    assert_eq!(plan.label, User::LABEL);
}

#[test]
fn test_relation_trait_impl() {
    assert_eq!(Friend::TYPE, "FRIEND");
    let plan = cyphr_relation(&friend_input()).unwrap();
    assert_eq!(plan.rel_type, Friend::TYPE);
    assert!(plan.from_label.is_none() && plan.to_label.is_none());
}

#[test]
fn test_user_from_value_node() {
    let node = Node {
        id: 1,
        labels: vec!["User".to_string()],
        properties: props(vec![
            ("id", Value::Integer(42)),
            ("name", Value::String("Alice".to_string())),
        ]),
    };
    let val = Value::Node(node);
    let user = User::from_value(val).unwrap();
    assert_eq!(user.id, 42);
    assert_eq!(user.name, "Alice");
}

#[test]
fn test_user_from_value_wrong_type() {
    let val = Value::Integer(1);
    let err = User::from_value(val).unwrap_err();
    match &err {
        CyphrError::TypeMismatch { expected, got, .. } => {
            assert_eq!(expected, "Node");
            assert_eq!(got, "Integer");
        }
        other => panic!("expected TypeMismatch, got: {}", other.message()),
    }
}

#[test]
fn test_friend_from_value_relation() {
    let rel = Relation {
        id: 10,
        start_node_id: 1,
        end_node_id: 2,
        typ: "FRIEND".to_string(),
        properties: props(vec![("since", Value::Integer(2020))]),
    };
    let val = Value::Relation(rel);
    let friend = Friend::from_value(val).unwrap();
    assert_eq!(friend.since, 2020);
}

#[test]
fn test_friend_from_value_wrong_type() {
    let val = Value::String("oops".to_string());
    let err = Friend::from_value(val).unwrap_err();
    match &err {
        CyphrError::TypeMismatch { expected, got, .. } => {
            assert_eq!(expected, "Relationship");
            assert_eq!(got, "String");
        }
        other => panic!("expected TypeMismatch, got: {}", other.message()),
    }
}

// `#[derive(FromCyphr)] struct InnerResult { name: String }`
#[allow(dead_code)]
struct InnerResult {
    name: String,
}

impl FromCyphr for InnerResult {
    fn from_record(record: &Row) -> Result<Self, CyphrError> {
        Ok(InnerResult { name: record_field(record, "InnerResult", "name")? })
    }
}

// `#[derive(FromCyphr)] struct OuterResult { age: i64, #[cyphr(flatten)] inner: InnerResult }`
#[allow(dead_code)]
struct OuterResult {
    age: i64,
    inner: InnerResult,
}

impl FromCyphr for OuterResult {
    fn from_record(record: &Row) -> Result<Self, CyphrError> {
        Ok(OuterResult {
            age: record_field(record, "OuterResult", "age")?,
            inner: InnerResult::from_record(record)?,
        })
    }
}

#[test]
fn test_flatten_from_record() {
    let fields = vec![Value::String("name".to_string()), Value::String("age".to_string())];
    let data = vec![Value::String("Alice".to_string()), Value::Integer(30)];
    let row = Row::new(fields, data);

    let outer = OuterResult::from_record(&row).unwrap_or_else(|e| panic!("{}", e.message()));
    assert_eq!(outer.age, 30);
    assert_eq!(outer.inner.name, "Alice");

    let input = DeriveInput {
        ident: "OuterResult".to_string(),
        attrs: vec![],
        shape: Shape::Named(vec![
            field("age", "i64", vec![]),
            field("inner", "InnerResult", vec![cyphr_attr(vec![("flatten", MetaValue::Absent)])]),
        ]),
    };
    let plan = from_cyphr(&input).unwrap();
    assert!(matches!(plan.fields[0].kind, RowFieldKind::Required));
    assert!(matches!(plan.fields[1].kind, RowFieldKind::Flatten));
}

// `#[derive(ToCyphrParams)] struct CreateUser { #[cyphr(id)] internal_id: i64, name: String, age: i64 }`
#[allow(dead_code)]
struct CreateUser {
    internal_id: i64,
    name: String,
    age: i64,
}

impl ToCyphrParams for CreateUser {
    fn to_params(self) -> StringMap<Value> {
        let mut map = StringMap::new();
        map.put_value("name".to_string(), self.name.into_value());
        map.put_value("age".to_string(), self.age.into_value());
        map
    }
}

#[test]
fn test_to_cyphr_params_basic() {
    let params = CreateUser { internal_id: 999, name: "Alice".into(), age: 30 };
    let map = params.to_params();
    // id field should be skipped
    assert!(map.get("internal_id").is_none());
    assert!(map.get("name").is_some());
    assert!(map.get("age").is_some());
    match map.get("name").unwrap() {
        Value::String(s) => assert_eq!(s, "Alice"),
        other => panic!("expected String, got: {other:?}"),
    }
    match map.get("age").unwrap() {
        Value::Integer(i) => assert_eq!(*i, 30),
        other => panic!("expected Integer, got: {other:?}"),
    }

    let input = DeriveInput {
        ident: "CreateUser".to_string(),
        attrs: vec![],
        shape: Shape::Named(vec![
            field("internal_id", "i64", vec![cyphr_attr(vec![("id", MetaValue::Absent)])]),
            field("name", "String", vec![]),
            field("age", "i64", vec![]),
        ]),
    };
    let kept = to_cyphr_params(&input).unwrap();
    let keys: Vec<&str> = kept.iter().map(|p| p.key.as_str()).collect();
    assert_eq!(keys, vec!["name", "age"]);
}

// `#[derive(ToCyphrParams)] struct UpdateUser { #[cyphr(skip)] _ignored: bool, #[cyphr(prop = "user_name")] name: String }`
#[allow(dead_code)]
struct UpdateUser {
    _ignored: bool,
    name: String,
}

impl ToCyphrParams for UpdateUser {
    fn to_params(self) -> StringMap<Value> {
        let mut map = StringMap::new();
        map.put_value("user_name".to_string(), self.name.into_value());
        map
    }
}

#[test]
fn test_to_cyphr_params_prop_override() {
    let params = UpdateUser { _ignored: true, name: "Bob".into() };
    let map = params.to_params();
    assert!(map.get("_ignored").is_none());
    assert!(map.get("name").is_none());
    assert!(map.get("user_name").is_some());
    match map.get("user_name").unwrap() {
        Value::String(s) => assert_eq!(s, "Bob"),
        other => panic!("expected String, got: {other:?}"),
    }

    let input = DeriveInput {
        ident: "UpdateUser".to_string(),
        attrs: vec![],
        shape: Shape::Named(vec![
            field("_ignored", "bool", vec![cyphr_attr(vec![("skip", MetaValue::Absent)])]),
            field(
                "name",
                "String",
                vec![cyphr_attr(vec![("prop", MetaValue::Str("user_name".to_string()))])],
            ),
        ]),
    };
    let kept = to_cyphr_params(&input).unwrap();
    assert_eq!(kept.len(), 1);
    assert_eq!(kept[0].field, "name");
    assert_eq!(kept[0].key, "user_name");
}

#[test]
fn user_result_reads_node_column() {
    let node = Node {
        id: 7,
        labels: vec!["User".to_string()],
        properties: props(vec![
            ("id", Value::Integer(7)),
            ("name", Value::String("Carol".to_string())),
        ]),
    };
    let row = Row::new(vec![Value::String("u".to_string())], vec![Value::Node(node)]);
    let res = UserResult::from_record(&row).unwrap_or_else(|e| panic!("{}", e.message()));
    assert_eq!(res.u.0.name, "Carol");
    assert_eq!(res.u.0.id, 7);
}

#[test]
fn user_missing_property_is_reported_with_label() {
    let node = Node {
        id: 1,
        labels: vec!["User".to_string()],
        properties: props(vec![("id", Value::Integer(1))]),
    };
    let err = User::from_value(Value::Node(node)).unwrap_err();
    match &err {
        CyphrError::MissingProperty { property, label } => {
            assert_eq!(property, "name");
            assert_eq!(label, "User");
        }
        other => panic!("expected MissingProperty, got: {}", other.message()),
    }
}

#[test]
fn user_wrong_property_type_is_wrapped_in_field_context() {
    let node = Node {
        id: 1,
        labels: vec!["User".to_string()],
        properties: props(vec![
            ("id", Value::String("x".to_string())),
            ("name", Value::String("Alice".to_string())),
        ]),
    };
    let err = User::from_value(Value::Node(node)).unwrap_err();
    assert_eq!(
        err.message(),
        "User::id (prop 'id'): type mismatch: expected Integer, got String (i64)"
    );
}

#[test]
fn missing_row_column_is_missing_field() {
    let row = Row::new(vec![Value::String("age".to_string())], vec![Value::Integer(3)]);
    let err = InnerResult::from_record(&row).err().unwrap();
    assert_eq!(err.message(), "missing field 'name' on InnerResult");
}

#[test]
fn node_label_defaults_to_struct_name() {
    let input = DeriveInput {
        ident: "Person".to_string(),
        attrs: vec![],
        shape: Shape::Named(vec![field(
            "email",
            "String",
            vec![cyphr_attr(vec![("prop", MetaValue::Str("email_address".to_string()))])],
        )]),
    };
    let plan = cyphr_node(&input).unwrap();
    assert_eq!(plan.label, "Person");
    assert_eq!(plan.fields[0].field, "email");
    assert_eq!(plan.fields[0].prop, "email_address");
}

#[test]
fn derives_refuse_tuple_structs_and_enums() {
    let tuple = DeriveInput { ident: "T".to_string(), attrs: vec![], shape: Shape::Unnamed };
    let e = cyphr_node(&tuple).err().unwrap();
    assert_eq!(e, "CyphrNode only supports structs with named fields");
    let en = DeriveInput { ident: "E".to_string(), attrs: vec![], shape: Shape::NotStruct };
    let e = from_cyphr(&en).err().unwrap();
    assert_eq!(e, "FromCyphr only supports structs");
    let e = cyphr_relation(&en).err().unwrap();
    assert_eq!(e, "CyphrRelation only supports structs");
    let e = to_cyphr_params(&tuple).err().unwrap();
    assert_eq!(e, "ToCyphrParams only supports structs with named fields");
}

#[test]
fn relation_meta_reads_type_from_and_to() {
    let input = DeriveInput {
        ident: "Follows".to_string(),
        attrs: vec![cyphr_attr(vec![
            ("type", MetaValue::Str("FOLLOWS".to_string())),
            ("from", MetaValue::Str("User".to_string())),
            ("to", MetaValue::Str("User".to_string())),
        ])],
        shape: Shape::Named(vec![field("since", "i64", vec![])]),
    };
    let plan = cyphr_relation(&input).unwrap();
    assert_eq!(plan.rel_type, "FOLLOWS");
    assert_eq!(plan.from_label.as_deref(), Some("User"));
    assert_eq!(plan.to_label.as_deref(), Some("User"));
}

#[test]
fn option_field_is_optional_in_row_plan() {
    let input = DeriveInput {
        ident: "R".to_string(),
        attrs: vec![],
        shape: Shape::Named(vec![field("tags", "Option", vec![])]),
    };
    let plan = from_cyphr(&input).unwrap();
    assert_eq!(plan.struct_name, "R");
    assert!(matches!(plan.fields[0].kind, RowFieldKind::Optional));
}
