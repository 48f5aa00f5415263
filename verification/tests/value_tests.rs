use cyphr::bolt::{Node, Path, StringMap, UnboundedRelation, Value};
use cyphr::error::CyphrError;
use cyphr::props::node_prop;
use cyphr::traits::{CyphrNode, FromCyphrValue, IntoCyphrValue};
use cyphr::value::{CyphrBytes, CyphrPath, Point2D, Point3D};

fn props(entries: Vec<(&str, Value)>) -> StringMap<Value> {
    let mut m = StringMap::new();
    for (k, v) in entries {
        m.put(k.to_string(), v);
    }
    m
}

#[test]
fn test_from_value_integer() {
    let val = Value::Integer(42);
    let res = i64::from_value(val).unwrap();
    assert_eq!(res, 42);
}

#[test]
fn test_from_value_string() {
    let val = Value::String("hello".to_string());
    let res = String::from_value(val).unwrap();
    assert_eq!(res, "hello");
}

#[test]
fn test_from_value_bool() {
    let val = Value::Boolean(true);
    let res = bool::from_value(val).unwrap();
    assert!(res);
}

#[test]
fn test_from_value_list() {
    let val = Value::List(vec![Value::Integer(1), Value::Integer(2)]);
    let res = Vec::<i64>::from_value(val).unwrap();
    assert_eq!(res, vec![1, 2]);
}

#[test]
fn test_from_value_option() {
    let val = Value::Null;
    let res = Option::<i64>::from_value(val).unwrap();
    assert_eq!(res, None);

    let val = Value::Integer(42);
    let res = Option::<i64>::from_value(val).unwrap();
    assert_eq!(res, Some(42));
}

#[test]
fn test_type_mismatch_error() {
    let val = Value::String("oops".to_string());
    let err = i64::from_value(val).unwrap_err();
    match &err {
        CyphrError::TypeMismatch { expected, got, .. } => {
            assert_eq!(expected, "Integer");
            assert_eq!(got, "String");
        }
        other => panic!("expected TypeMismatch, got: {}", other.message()),
    }
}

#[test]
fn test_missing_property_error() {
    let err = CyphrError::missing_property("name", "User");
    let msg = err.message();
    assert!(msg.contains("name"));
    assert!(msg.contains("User"));
}

#[test]
fn test_missing_field_error() {
    let err = CyphrError::missing_field("age", "UserResult");
    let msg = err.message();
    assert!(msg.contains("age"));
    assert!(msg.contains("UserResult"));
}

#[test]
fn test_hashmap_from_value() {
    let mut map = StringMap::new();
    map.put("a".to_string(), Value::Integer(1));
    map.put("b".to_string(), Value::Integer(2));

    let val = Value::Dict(map);
    let res = StringMap::<i64>::from_value(val).unwrap();
    assert_eq!(res.get("a"), Some(&1));
    assert_eq!(res.get("b"), Some(&2));
}

#[test]
fn test_hashmap_type_mismatch() {
    let val = Value::Integer(42);
    let err = StringMap::<i64>::from_value(val).unwrap_err();
    match &err {
        CyphrError::TypeMismatch { expected, got, .. } => {
            assert_eq!(expected, "Map");
            assert_eq!(got, "Integer");
        }
        other => panic!("expected TypeMismatch, got: {}", other.message()),
    }
}

#[test]
fn test_from_value_u32() {
    let val = Value::Integer(100);
    let res = u32::from_value(val).unwrap();
    assert_eq!(res, 100u32);
}

#[test]
fn test_from_value_i16() {
    let val = Value::Integer(-300);
    let res = i16::from_value(val).unwrap();
    assert_eq!(res, -300i16);
}

#[test]
fn test_from_value_u8() {
    let val = Value::Integer(255);
    let res = u8::from_value(val).unwrap();
    assert_eq!(res, 255u8);
}

#[test]
fn test_point2d_from_value() {
    let val = Value::Point2D(Point2D { sr_id: 4326, x: 1.0f64.to_bits(), y: 2.0f64.to_bits() });
    let p = Point2D::from_value(val).unwrap();
    assert_eq!(p.sr_id, 4326);
    assert_eq!(f64::from_bits(p.x), 1.0);
    assert_eq!(f64::from_bits(p.y), 2.0);
}

#[test]
fn test_point3d_from_value() {
    let val = Value::Point3D(Point3D {
        sr_id: 4979,
        x: 1.0f64.to_bits(),
        y: 2.0f64.to_bits(),
        z: 3.0f64.to_bits(),
    });
    let p = Point3D::from_value(val).unwrap();
    assert_eq!(p.sr_id, 4979);
    assert_eq!(f64::from_bits(p.x), 1.0);
    assert_eq!(f64::from_bits(p.y), 2.0);
    assert_eq!(f64::from_bits(p.z), 3.0);
}

#[test]
fn test_point2d_type_mismatch() {
    let val = Value::Integer(1);
    let err = Point2D::from_value(val).unwrap_err();
    match &err {
        CyphrError::TypeMismatch { expected, got, .. } => {
            assert_eq!(expected, "Point2D");
            assert_eq!(got, "Integer");
        }
        other => panic!("expected TypeMismatch, got: {}", other.message()),
    }
}

#[test]
fn test_cyphr_bytes_from_value() {
    let val = Value::Bytes(b"hello".to_vec());
    let b = CyphrBytes::from_value(val).unwrap();
    assert_eq!(b.0, b"hello");
}

#[test]
fn test_cyphr_bytes_type_mismatch() {
    let val = Value::Integer(1);
    let err = CyphrBytes::from_value(val).unwrap_err();
    match &err {
        CyphrError::TypeMismatch { expected, got, .. } => {
            assert_eq!(expected, "Bytes");
            assert_eq!(got, "Integer");
        }
        other => panic!("expected TypeMismatch, got: {}", other.message()),
    }
}

#[derive(Debug)]
struct TestPathNode {
    name: String,
}

impl CyphrNode for TestPathNode {
    const LABEL: &'static str = "TestPathNode";
    fn from_node(node: &Node) -> Result<Self, CyphrError> {
        let v = node_prop(node, "name")
            .ok_or_else(|| CyphrError::missing_property("name", "TestPathNode"))?;
        Ok(TestPathNode { name: String::from_value(v)? })
    }
}

fn path_node(id: i64, name: &str) -> Value {
    Value::Node(Node {
        id,
        labels: vec!["TestPathNode".to_string()],
        properties: props(vec![("name", Value::String(name.to_string()))]),
    })
}

#[test]
fn test_cyphr_path_from_value() {
    let mark = path_node(1, "Mark");
    let james = path_node(2, "James");
    let friend = UnboundedRelation {
        id: 10,
        typ: "KNOWS".to_string(),
        properties: props(vec![("since", Value::Integer(2020))]),
    };
    let path = Path {
        nodes: vec![mark, james],
        rels: vec![Value::UnboundedRelation(friend)],
        indices: vec![Value::Integer(1), Value::Integer(1)],
    };
    let val = Value::Path(path);
    let cp = CyphrPath::<TestPathNode>::from_value(val).unwrap();
    assert_eq!(cp.nodes.len(), 2);
    assert_eq!(cp.nodes[0].name, "Mark");
    assert_eq!(cp.nodes[1].name, "James");
    assert_eq!(cp.rels.len(), 1);
    assert_eq!(cp.indices.len(), 2);
}

#[test]
fn test_error_with_context() {
    let err = CyphrError::type_mismatch("Integer", "String", "age");
    let ctx = err.with_context("User::age");
    let msg = ctx.message();
    assert!(msg.contains("User::age"));
    assert!(msg.contains("type mismatch"));
}

#[test]
fn test_error_context_variant() {
    let inner = CyphrError::missing_property("name", "User");
    let outer = inner.with_context("parsing User");
    match &outer {
        CyphrError::Context { context, source } => {
            assert_eq!(context, "parsing User");
            assert!(matches!(source.as_ref(), CyphrError::MissingProperty { .. }));
        }
        other => panic!("expected Context, got: {}", other.message()),
    }
}

#[test]
fn test_into_value_string() {
    let val = String::from("hello").into_value();
    match val {
        Value::String(s) => assert_eq!(s, "hello"),
        other => panic!("expected String, got: {other:?}"),
    }
}

#[test]
fn test_into_value_i64() {
    let val = 42_i64.into_value();
    match val {
        Value::Integer(i) => assert_eq!(i, 42),
        other => panic!("expected Integer, got: {other:?}"),
    }
}

#[test]
fn test_into_value_point2d() {
    let p = Point2D { sr_id: 4326, x: 1.0f64.to_bits(), y: 2.0f64.to_bits() };
    let val = p.into_value();
    match val {
        Value::Point2D(p) => {
            assert_eq!(p.sr_id, 4326);
            assert_eq!(f64::from_bits(p.x), 1.0);
            assert_eq!(f64::from_bits(p.y), 2.0);
        }
        other => panic!("expected Point2D, got: {other:?}"),
    }
}

#[test]
fn test_into_value_point3d() {
    let p = Point3D { sr_id: 4979, x: 1.0f64.to_bits(), y: 2.0f64.to_bits(), z: 3.0f64.to_bits() };
    let val = p.into_value();
    match val {
        Value::Point3D(p) => {
            assert_eq!(p.sr_id, 4979);
            assert_eq!(f64::from_bits(p.x), 1.0);
            assert_eq!(f64::from_bits(p.y), 2.0);
            assert_eq!(f64::from_bits(p.z), 3.0);
        }
        other => panic!("expected Point3D, got: {other:?}"),
    }
}

#[test]
fn test_into_value_cyphr_bytes() {
    let b = CyphrBytes(vec![1, 2, 3]);
    let val = b.into_value();
    match val {
        Value::Bytes(b) => assert_eq!(&b[..], &[1, 2, 3]),
        other => panic!("expected Bytes, got: {other:?}"),
    }
}
