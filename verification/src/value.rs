use vstd::prelude::*;

use crate::bolt::{
    entry_models, keys_distinct, lemma_entry_models, lemma_models, models, Node, NodeModel,
    PathModel, Relation, StringMap, UnboundedRelation, UnboundedRelationModel, Value, ValueModel,
};
use crate::error::{driver_error_text, starts_with, CyphrError, is_type_mismatch};
use crate::traits::{
    CyphrNode, CyphrRelation, FromCyphrValue, IntoCyphrValue, NodeWrapper, RelationWrapper,
};

verus! {

/// The name of a value's variant, as used in error messages.
pub open spec fn type_name_of(v: ValueModel) -> Seq<char> {
    match v {
        ValueModel::Null => "Null"@,
        ValueModel::Boolean(_) => "Boolean"@,
        ValueModel::Integer(_) => "Integer"@,
        ValueModel::Float(_) => "Float"@,
        ValueModel::String(_) => "String"@,
        ValueModel::Bytes(_) => "Bytes"@,
        ValueModel::List(_) => "List"@,
        ValueModel::Dict(_) => "Map"@,
        ValueModel::Node(_) => "Node"@,
        ValueModel::Relation(_) => "Relationship"@,
        ValueModel::UnboundedRelation(_) => "UnboundedRelationship"@,
        ValueModel::Path(_) => "Path"@,
        ValueModel::Point2D(_) => "Point2D"@,
        ValueModel::Point3D(_) => "Point3D"@,
        ValueModel::Duration(_) => "Duration"@,
        ValueModel::Date(_) => "Date"@,
        ValueModel::Time(_) => "Time"@,
        ValueModel::LocalTime(_) => "LocalTime"@,
        ValueModel::LocalDateTime(_) => "LocalDateTime"@,
        ValueModel::DateTime(_) => "DateTime"@,
        ValueModel::DateTimeZoneId(_) => "DateTimeZoneId"@,
    }
}

/// A human-readable name for a value's variant, used in error messages to
/// describe the value actually received.
pub fn value_type_name(v: &Value) -> (r: &'static str)
    ensures
        r@ == type_name_of(v@),
{
    match v {
        Value::Null => "Null",
        Value::Boolean(_) => "Boolean",
        Value::Integer(_) => "Integer",
        Value::Float(_) => "Float",
        Value::String(_) => "String",
        Value::Bytes(_) => "Bytes",
        Value::List(_) => "List",
        Value::Dict(_) => "Map",
        Value::Node(_) => "Node",
        Value::Relation(_) => "Relationship",
        Value::UnboundedRelation(_) => "UnboundedRelationship",
        Value::Path(_) => "Path",
        Value::Point2D(_) => "Point2D",
        Value::Point3D(_) => "Point3D",
        Value::Duration(_) => "Duration",
        Value::Date(_) => "Date",
        Value::Time(_) => "Time",
        Value::LocalTime(_) => "LocalTime",
        Value::LocalDateTime(_) => "LocalDateTime",
        Value::DateTime(_) => "DateTime",
        Value::DateTimeZoneId(_) => "DateTimeZoneId",
    }
}

/// Raw bytes from a `Bytes` value.
#[derive(Debug, Clone, PartialEq, Eq)]
pub struct CyphrBytes(pub Vec<u8>);

/// A typed graph path: its nodes read as `N`, its relationships and indices.
#[derive(Debug)]
pub struct CyphrPath<N: CyphrNode> {
    /// Ordered nodes along the path.
    pub nodes: Vec<N>,
    /// Relationships connecting consecutive nodes.
    pub rels: Vec<UnboundedRelation>,
    /// Raw path indices.
    pub indices: Vec<i64>,
}

/// A 2-dimensional point; coordinates are IEEE-754 bit patterns of `f64`.
#[derive(Debug, Clone, Copy, PartialEq, Eq, Structural)]
pub struct Point2D {
    pub sr_id: i64,
    pub x: u64,
    pub y: u64,
}

/// A 3-dimensional point; coordinates are IEEE-754 bit patterns of `f64`.
#[derive(Debug, Clone, Copy, PartialEq, Eq, Structural)]
pub struct Point3D {
    pub sr_id: i64,
    pub x: u64,
    pub y: u64,
    pub z: u64,
}



/// `r` is the type mismatch that converting `value` into `context` reports
/// when `value` is not the `expected` variant.
pub open spec fn mismatch<T>(
    r: Result<T, CyphrError>,
    expected: Seq<char>,
    value: ValueModel,
    context: Seq<char>,
) -> bool {
    r matches Err(e) && is_type_mismatch(e, expected, type_name_of(value), context)
}

impl FromCyphrValue for String {
    open spec fn converts(value: ValueModel, r: Result<String, CyphrError>) -> bool {
        match value {
            ValueModel::String(s) => r matches Ok(x) && x@ == s,
            _ => mismatch(r, "String"@, value, "String"@),
        }
    }

    fn from_value(value: Value) -> (r: Result<String, CyphrError>) {
        match value {
            Value::String(s) => Ok(s),
            other => {
                proof { reveal_strlit("String"); }
                Err(CyphrError::type_mismatch("String", value_type_name(&other), "String"))
            },
        }
    }
}

impl FromCyphrValue for bool {
    open spec fn converts(value: ValueModel, r: Result<bool, CyphrError>) -> bool {
        match value {
            ValueModel::Boolean(b) => r == Ok::<bool, CyphrError>(b),
            _ => mismatch(r, "Boolean"@, value, "bool"@),
        }
    }

    fn from_value(value: Value) -> (r: Result<bool, CyphrError>) {
        match value {
            Value::Boolean(b) => Ok(b),
            other => {
                proof {
                    reveal_strlit("Boolean");
                    reveal_strlit("bool");
                }
                Err(CyphrError::type_mismatch("Boolean", value_type_name(&other), "bool"))
            },
        }
    }
}

/// An integer converts by `as` (truncating to the width of `i64`).
impl FromCyphrValue for i64 {
    open spec fn converts(value: ValueModel, r: Result<i64, CyphrError>) -> bool {
        match value {
            ValueModel::Integer(n) => r == Ok::<i64, CyphrError>(n),
            _ => mismatch(r, "Integer"@, value, "i64"@),
        }
    }

    fn from_value(value: Value) -> (r: Result<i64, CyphrError>) {
        match value {
            Value::Integer(n) => Ok(n),
            other => {
                proof {
                    reveal_strlit("Integer");
                    reveal_strlit("i64");
                }
                Err(CyphrError::type_mismatch("Integer", value_type_name(&other), "i64"))
            },
        }
    }
}

/// An integer converts by `as` (truncating to the width of `i32`).
impl FromCyphrValue for i32 {
    open spec fn converts(value: ValueModel, r: Result<i32, CyphrError>) -> bool {
        match value {
            ValueModel::Integer(n) => r == Ok::<i32, CyphrError>(n as i32),
            _ => mismatch(r, "Integer"@, value, "i32"@),
        }
    }

    fn from_value(value: Value) -> (r: Result<i32, CyphrError>) {
        match value {
            Value::Integer(n) => Ok(n as i32),
            other => {
                proof {
                    reveal_strlit("Integer");
                    reveal_strlit("i32");
                }
                Err(CyphrError::type_mismatch("Integer", value_type_name(&other), "i32"))
            },
        }
    }
}

/// An integer converts by `as` (truncating to the width of `u64`).
impl FromCyphrValue for u64 {
    open spec fn converts(value: ValueModel, r: Result<u64, CyphrError>) -> bool {
        match value {
            ValueModel::Integer(n) => r == Ok::<u64, CyphrError>(n as u64),
            _ => mismatch(r, "Integer"@, value, "u64"@),
        }
    }

    fn from_value(value: Value) -> (r: Result<u64, CyphrError>) {
        match value {
            Value::Integer(n) => Ok(n as u64),
            other => {
                proof {
                    reveal_strlit("Integer");
                    reveal_strlit("u64");
                }
                Err(CyphrError::type_mismatch("Integer", value_type_name(&other), "u64"))
            },
        }
    }
}

/// An integer converts by `as` (truncating to the width of `u32`).
impl FromCyphrValue for u32 {
    open spec fn converts(value: ValueModel, r: Result<u32, CyphrError>) -> bool {
        match value {
            ValueModel::Integer(n) => r == Ok::<u32, CyphrError>(n as u32),
            _ => mismatch(r, "Integer"@, value, "u32"@),
        }
    }

    fn from_value(value: Value) -> (r: Result<u32, CyphrError>) {
        match value {
            Value::Integer(n) => Ok(n as u32),
            other => {
                proof {
                    reveal_strlit("Integer");
                    reveal_strlit("u32");
                }
                Err(CyphrError::type_mismatch("Integer", value_type_name(&other), "u32"))
            },
        }
    }
}

/// An integer converts by `as` (truncating to the width of `i16`).
impl FromCyphrValue for i16 {
    open spec fn converts(value: ValueModel, r: Result<i16, CyphrError>) -> bool {
        match value {
            ValueModel::Integer(n) => r == Ok::<i16, CyphrError>(n as i16),
            _ => mismatch(r, "Integer"@, value, "i16"@),
        }
    }

    fn from_value(value: Value) -> (r: Result<i16, CyphrError>) {
        match value {
            Value::Integer(n) => Ok(n as i16),
            other => {
                proof {
                    reveal_strlit("Integer");
                    reveal_strlit("i16");
                }
                Err(CyphrError::type_mismatch("Integer", value_type_name(&other), "i16"))
            },
        }
    }
}

/// An integer converts by `as` (truncating to the width of `u16`).
impl FromCyphrValue for u16 {
    open spec fn converts(value: ValueModel, r: Result<u16, CyphrError>) -> bool {
        match value {
            ValueModel::Integer(n) => r == Ok::<u16, CyphrError>(n as u16),
            _ => mismatch(r, "Integer"@, value, "u16"@),
        }
    }

    fn from_value(value: Value) -> (r: Result<u16, CyphrError>) {
        match value {
            Value::Integer(n) => Ok(n as u16),
            other => {
                proof {
                    reveal_strlit("Integer");
                    reveal_strlit("u16");
                }
                Err(CyphrError::type_mismatch("Integer", value_type_name(&other), "u16"))
            },
        }
    }
}

/// An integer converts by `as` (truncating to the width of `i8`).
impl FromCyphrValue for i8 {
    open spec fn converts(value: ValueModel, r: Result<i8, CyphrError>) -> bool {
        match value {
            ValueModel::Integer(n) => r == Ok::<i8, CyphrError>(n as i8),
            _ => mismatch(r, "Integer"@, value, "i8"@),
        }
    }

    fn from_value(value: Value) -> (r: Result<i8, CyphrError>) {
        match value {
            Value::Integer(n) => Ok(n as i8),
            other => {
                proof {
                    reveal_strlit("Integer");
                    reveal_strlit("i8");
                }
                Err(CyphrError::type_mismatch("Integer", value_type_name(&other), "i8"))
            },
        }
    }
}

/// An integer converts by `as` (truncating to the width of `u8`).
impl FromCyphrValue for u8 {
    open spec fn converts(value: ValueModel, r: Result<u8, CyphrError>) -> bool {
        match value {
            ValueModel::Integer(n) => r == Ok::<u8, CyphrError>(n as u8),
            _ => mismatch(r, "Integer"@, value, "u8"@),
        }
    }

    fn from_value(value: Value) -> (r: Result<u8, CyphrError>) {
        match value {
            Value::Integer(n) => Ok(n as u8),
            other => {
                proof {
                    reveal_strlit("Integer");
                    reveal_strlit("u8");
                }
                Err(CyphrError::type_mismatch("Integer", value_type_name(&other), "u8"))
            },
        }
    }
}

/// The bit pattern of a float value; `context` names the target type
/// (`"f64"` or `"f32"`) in the mismatch error.
pub fn float_bits(value: Value, context: &str) -> (r: Result<u64, CyphrError>)
    ensures
        match value@ {
            ValueModel::Float(b) => r == Ok::<u64, CyphrError>(b),
            _ => mismatch(r, "Float"@, value@, context@),
        },
{
    match value {
        Value::Float(b) => Ok(b),
        other => {
            proof { reveal_strlit("Float"); }
            Err(CyphrError::type_mismatch("Float", value_type_name(&other), context))
        },
    }
}

/// `Null` maps to `None`; any other value converts as `T` and is wrapped in `Some`.
impl<T: FromCyphrValue> FromCyphrValue for Option<T> {
    open spec fn converts(value: ValueModel, r: Result<Option<T>, CyphrError>) -> bool {
        match value {
            ValueModel::Null => r == Ok::<Option<T>, CyphrError>(None),
            _ => match r {
                Ok(Some(x)) => T::converts(value, Ok(x)),
                Ok(None) => false,
                Err(e) => T::converts(value, Err(e)),
            },
        }
    }

    fn from_value(value: Value) -> (r: Result<Option<T>, CyphrError>) {
        match value {
            Value::Null => Ok(None),
            other => match T::from_value(other) {
                Ok(x) => Ok(Some(x)),
                Err(e) => Err(e),
            },
        }
    }
}

/// The first `ys.len()` of `xs` convert as `T` to `ys`.
pub open spec fn prefix_converts<T: FromCyphrValue>(xs: Seq<ValueModel>, ys: Seq<T>) -> bool {
    ys.len() <= xs.len() && forall|i: int|
        0 <= i < ys.len() ==> T::converts(xs[i], Ok(#[trigger] ys[i]))
}

/// `r` is what converting each of `xs` as `T` in order gives: all the
/// results when every element converts, else the first error.
pub open spec fn list_converts<T: FromCyphrValue>(
    xs: Seq<ValueModel>,
    r: Result<Vec<T>, CyphrError>,
) -> bool {
    match r {
        Ok(ys) => ys@.len() == xs.len() && forall|i: int|
            0 <= i < xs.len() ==> T::converts(xs[i], Ok(#[trigger] ys@[i])),
        Err(e) => exists|ys: Seq<T>|
            #[trigger] prefix_converts(xs, ys) && ys.len() < xs.len() && T::converts(
                xs[ys.len() as int],
                Err(e),
            ),
    }
}

/// Convert each element in order, stopping at the first error.
fn convert_list<T: FromCyphrValue>(xs: Vec<Value>) -> (r: Result<Vec<T>, CyphrError>)
    ensures
        list_converts(models(xs@), r),
{
    let ghost src = xs@;
    proof {
        lemma_models(src);
    }
    let mut out: Vec<T> = Vec::new();
    for x in it: xs
        invariant
            it.seq() == src,
            models(src).len() == src.len(),
            forall|i: int| 0 <= i < src.len() ==> #[trigger] models(src)[i] == src[i]@,
            out@.len() == it.index(),
            forall|i: int| 0 <= i < it.index() ==> T::converts(src[i]@, Ok(#[trigger] out@[i])),
    {
        let ghost k = it.index();
        match T::from_value(x) {
            Ok(y) => {
                out.push(y);
            },
            Err(e) => {
                assert(models(src)[k] == src[k]@);
                assert forall|i: int| 0 <= i < out@.len() implies T::converts(
                    models(src)[i],
                    Ok(#[trigger] out@[i]),
                ) by {
                    assert(models(src)[i] == src[i]@);
                }
                assert(prefix_converts(models(src), out@));
                return Err(e);
            },
        }
    }
    assert forall|i: int| 0 <= i < src.len() implies T::converts(
        models(src)[i],
        Ok(#[trigger] out@[i]),
    ) by {
        assert(models(src)[i] == src[i]@);
    }
    Ok(out)
}

impl<T: FromCyphrValue> FromCyphrValue for Vec<T> {
    open spec fn converts(value: ValueModel, r: Result<Vec<T>, CyphrError>) -> bool {
        match value {
            ValueModel::List(xs) => list_converts(xs, r),
            _ => mismatch(r, "List"@, value, "Vec<T>"@),
        }
    }

    fn from_value(value: Value) -> (r: Result<Vec<T>, CyphrError>) {
        match value {
            Value::List(xs) => convert_list(xs),
            other => {
                proof {
                    reveal_strlit("List");
                    reveal_strlit("Vec<T>");
                }
                Err(CyphrError::type_mismatch("List", value_type_name(&other), "Vec<T>"))
            },
        }
    }
}

impl<T: CyphrNode> FromCyphrValue for NodeWrapper<T> {
    open spec fn converts(value: ValueModel, r: Result<NodeWrapper<T>, CyphrError>) -> bool {
        match value {
            ValueModel::Node(n) => match r {
                Ok(w) => T::node_converts(n, Ok(w.0)),
                Err(e) => T::node_converts(n, Err(e)),
            },
            _ => mismatch(r, "Node"@, value, T::LABEL@),
        }
    }

    fn from_value(value: Value) -> (r: Result<NodeWrapper<T>, CyphrError>) {
        match value {
            Value::Node(n) => match T::from_node(&n) {
                Ok(x) => Ok(NodeWrapper(x)),
                Err(e) => Err(e),
            },
            other => {
                proof { reveal_strlit("Node"); }
                Err(CyphrError::type_mismatch("Node", value_type_name(&other), T::LABEL))
            },
        }
    }
}

impl<T: CyphrRelation> FromCyphrValue for RelationWrapper<T> {
    open spec fn converts(value: ValueModel, r: Result<RelationWrapper<T>, CyphrError>) -> bool {
        match value {
            ValueModel::Relation(x) => match r {
                Ok(w) => T::rel_converts(x, Ok(w.0)),
                Err(e) => T::rel_converts(x, Err(e)),
            },
            _ => mismatch(r, "Relationship"@, value, T::TYPE@),
        }
    }

    fn from_value(value: Value) -> (r: Result<RelationWrapper<T>, CyphrError>) {
        match value {
            Value::Relation(x) => match T::from_rel(&x) {
                Ok(t) => Ok(RelationWrapper(t)),
                Err(e) => Err(e),
            },
            other => {
                proof { reveal_strlit("Relationship"); }
                Err(CyphrError::type_mismatch("Relationship", value_type_name(&other), T::TYPE))
            },
        }
    }
}

/// A two-element list converts element-wise, the first element first.
impl<A: FromCyphrValue, B: FromCyphrValue> FromCyphrValue for (A, B) {
    open spec fn converts(value: ValueModel, r: Result<(A, B), CyphrError>) -> bool {
        match value {
            ValueModel::List(xs) => if xs.len() == 2 {
                match r {
                    Ok(p) => A::converts(xs[0], Ok(p.0)) && B::converts(xs[1], Ok(p.1)),
                    Err(e) => A::converts(xs[0], Err(e)) || exists|a: A|
                        A::converts(xs[0], Ok(a)) && B::converts(xs[1], Err(e)),
                }
            } else {
                mismatch(r, "List[2]"@, value, "tuple(A, B)"@)
            },
            _ => mismatch(r, "List[2]"@, value, "tuple(A, B)"@),
        }
    }

    fn from_value(value: Value) -> (r: Result<(A, B), CyphrError>) {
        proof {
            reveal_strlit("List[2]");
            reveal_strlit("tuple(A, B)");
        }
        match value {
            Value::List(mut xs) => {
                proof {
                    lemma_models(xs@);
                }
                if xs.len() == 2 {
                    let ghost src = xs@;
                    proof {
                        lemma_models(src);
                    }
                    let b = xs.pop().unwrap();
                    let a = xs.pop().unwrap();
                    assert(models(src)[0] == a@ && models(src)[1] == b@);
                    match A::from_value(a) {
                        Ok(x) => match B::from_value(b) {
                            Ok(y) => Ok((x, y)),
                            Err(e) => Err(e),
                        },
                        Err(e) => Err(e),
                    }
                } else {
                    let other = Value::List(xs);
                    Err(CyphrError::type_mismatch("List[2]", value_type_name(&other), "tuple(A, B)"))
                }
            },
            other => Err(
                CyphrError::type_mismatch("List[2]", value_type_name(&other), "tuple(A, B)"),
            ),
        }
    }
}

/// A three-element list converts element-wise, in order.
impl<A: FromCyphrValue, B: FromCyphrValue, C: FromCyphrValue> FromCyphrValue for (A, B, C) {
    open spec fn converts(value: ValueModel, r: Result<(A, B, C), CyphrError>) -> bool {
        match value {
            ValueModel::List(xs) => if xs.len() == 3 {
                match r {
                    Ok(t) => A::converts(xs[0], Ok(t.0)) && B::converts(xs[1], Ok(t.1))
                        && C::converts(xs[2], Ok(t.2)),
                    Err(e) => A::converts(xs[0], Err(e)) || (exists|a: A|
                        A::converts(xs[0], Ok(a)) && B::converts(xs[1], Err(e))) || (exists|
                        a: A,
                        b: B,
                    |
                        A::converts(xs[0], Ok(a)) && B::converts(xs[1], Ok(b)) && C::converts(
                            xs[2],
                            Err(e),
                        )),
                }
            } else {
                mismatch(r, "List[3]"@, value, "tuple(A, B, C)"@)
            },
            _ => mismatch(r, "List[3]"@, value, "tuple(A, B, C)"@),
        }
    }

    fn from_value(value: Value) -> (r: Result<(A, B, C), CyphrError>) {
        proof {
            reveal_strlit("List[3]");
            reveal_strlit("tuple(A, B, C)");
        }
        match value {
            Value::List(mut xs) => {
                proof {
                    lemma_models(xs@);
                }
                if xs.len() == 3 {
                    let ghost src = xs@;
                    proof {
                        lemma_models(src);
                    }
                    let c = xs.pop().unwrap();
                    let b = xs.pop().unwrap();
                    let a = xs.pop().unwrap();
                    assert(models(src)[0] == a@ && models(src)[1] == b@);
                    match A::from_value(a) {
                        Ok(x) => match B::from_value(b) {
                            Ok(y) => match C::from_value(c) {
                                Ok(z) => Ok((x, y, z)),
                                Err(e) => Err(e),
                            },
                            Err(e) => Err(e),
                        },
                        Err(e) => Err(e),
                    }
                } else {
                    let other = Value::List(xs);
                    Err(
                        CyphrError::type_mismatch(
                            "List[3]",
                            value_type_name(&other),
                            "tuple(A, B, C)",
                        ),
                    )
                }
            },
            other => Err(
                CyphrError::type_mismatch("List[3]", value_type_name(&other), "tuple(A, B, C)"),
            ),
        }
    }
}

impl FromCyphrValue for CyphrBytes {
    open spec fn converts(value: ValueModel, r: Result<CyphrBytes, CyphrError>) -> bool {
        match value {
            ValueModel::Bytes(b) => r matches Ok(x) && x.0@ == b,
            _ => mismatch(r, "Bytes"@, value, "CyphrBytes"@),
        }
    }

    fn from_value(value: Value) -> (r: Result<CyphrBytes, CyphrError>) {
        match value {
            Value::Bytes(b) => Ok(CyphrBytes(b)),
            other => {
                proof {
                    reveal_strlit("Bytes");
                    reveal_strlit("CyphrBytes");
                }
                Err(CyphrError::type_mismatch("Bytes", value_type_name(&other), "CyphrBytes"))
            },
        }
    }
}

impl FromCyphrValue for Point2D {
    open spec fn converts(value: ValueModel, r: Result<Point2D, CyphrError>) -> bool {
        match value {
            ValueModel::Point2D(p) => r == Ok::<Point2D, CyphrError>(p),
            _ => mismatch(r, "Point2D"@, value, "Point2D"@),
        }
    }

    fn from_value(value: Value) -> (r: Result<Point2D, CyphrError>) {
        match value {
            Value::Point2D(p) => Ok(p),
            other => {
                proof { reveal_strlit("Point2D"); }
                Err(CyphrError::type_mismatch("Point2D", value_type_name(&other), "Point2D"))
            },
        }
    }
}

impl FromCyphrValue for Point3D {
    open spec fn converts(value: ValueModel, r: Result<Point3D, CyphrError>) -> bool {
        match value {
            ValueModel::Point3D(p) => r == Ok::<Point3D, CyphrError>(p),
            _ => mismatch(r, "Point3D"@, value, "Point3D"@),
        }
    }

    fn from_value(value: Value) -> (r: Result<Point3D, CyphrError>) {
        match value {
            Value::Point3D(p) => Ok(p),
            other => {
                proof { reveal_strlit("Point3D"); }
                Err(CyphrError::type_mismatch("Point3D", value_type_name(&other), "Point3D"))
            },
        }
    }
}

/// The values of a sequence of entries.
pub open spec fn values_of<K, T>(m: Seq<(K, T)>) -> Seq<T> {
    m.map_values(|p: (K, T)| p.1)
}

/// `r` is what converting each entry's value of `m` as `V` in order gives:
/// the same keys with converted values, or the first error.
pub open spec fn map_converts<V: FromCyphrValue>(
    m: Seq<(Seq<char>, ValueModel)>,
    r: Result<StringMap<V>, CyphrError>,
) -> bool {
    match r {
        Ok(out) => out@.len() == m.len() && forall|i: int|
            #![trigger out@[i]]
            0 <= i < m.len() ==> out@[i].0@ == m[i].0 && V::converts(m[i].1, Ok(out@[i].1)),
        Err(e) => exists|ys: Seq<V>|
            #[trigger] prefix_converts(values_of(m), ys) && ys.len() < m.len() && V::converts(
                m[ys.len() as int].1,
                Err(e),
            ),
    }
}

/// Convert each entry's value in order, keeping the keys; stop at the first error.
fn convert_map<V: FromCyphrValue>(m: StringMap<Value>) -> (r: Result<StringMap<V>, CyphrError>)
    ensures
        map_converts(m.model(), r),
{
    let ghost mv = m@;
    let entries = m.into_entries();
    let ghost src = entries@;
    proof {
        lemma_entry_models(src);
    }
    let mut out: Vec<(String, V)> = Vec::new();
    for entry in it: entries
        invariant
            it.seq() == src,
            src == mv,
            mv == m@,
            keys_distinct(src),
            entry_models(src).len() == src.len(),
            forall|i: int|
                0 <= i < src.len() ==> #[trigger] entry_models(src)[i] == (src[i].0@, src[i].1@),
            out@.len() == it.index(),
            forall|i: int|
                #![trigger out@[i]]
                0 <= i < it.index() ==> out@[i].0 == src[i].0 && V::converts(src[i].1@, Ok(out@[i].1)),
    {
        let ghost k = it.index();
        let (key, v) = entry;
        match V::from_value(v) {
            Ok(y) => {
                out.push((key, y));
            },
            Err(e) => {
                let ghost ys = Seq::new(k as nat, |i: int| out@[i].1);
                let ghost vals = values_of(entry_models(src));
                assert forall|i: int| 0 <= i < ys.len() implies V::converts(
                    vals[i],
                    Ok(#[trigger] ys[i]),
                ) by {
                    assert(ys[i] == out@[i].1);
                    assert(entry_models(src)[i] == (src[i].0@, src[i].1@));
                }
                assert(prefix_converts(vals, ys));
                assert(entry_models(src)[k] == (src[k].0@, src[k].1@));
                assert(V::converts(entry_models(src)[k].1, Err(e)));
                assert(ys.len() == k);
                return Err(e);
            },
        }
    }
    assert forall|i: int| 0 <= i < out@.len() implies #[trigger] out@[i].0@ == entry_models(src)[i].0
        && V::converts(entry_models(src)[i].1, Ok(out@[i].1)) by {
        assert(entry_models(src)[i] == (src[i].0@, src[i].1@));
    }
    assert(keys_distinct(out@)) by {
        assert forall|i: int, j: int| 0 <= i < j < out@.len() implies #[trigger] out@[i].0@
            != #[trigger] out@[j].0@ by {
            assert(out@[i].0 == src[i].0);
            assert(out@[j].0 == src[j].0);
        }
    }
    Ok(StringMap::from_distinct(out))
}

/// A map converts value by value; keys are kept.
impl<V: FromCyphrValue> FromCyphrValue for StringMap<V> {
    open spec fn converts(value: ValueModel, r: Result<StringMap<V>, CyphrError>) -> bool {
        match value {
            ValueModel::Dict(m) => map_converts(m, r),
            _ => mismatch(r, "Map"@, value, "HashMap<String, V>"@),
        }
    }

    fn from_value(value: Value) -> (r: Result<StringMap<V>, CyphrError>) {
        match value {
            Value::Dict(m) => convert_map(m),
            other => {
                proof {
                    reveal_strlit("Map");
                    reveal_strlit("HashMap<String, V>");
                }
                Err(CyphrError::type_mismatch("Map", value_type_name(&other), "HashMap<String, V>"))
            },
        }
    }
}

/// The nodes among a path's node values, in order (other values are skipped).
pub open spec fn nodes_in(s: Seq<ValueModel>) -> Seq<NodeModel>
    decreases s.len(),
{
    if s.len() == 0 {
        Seq::empty()
    } else {
        let rest = nodes_in(s.drop_last());
        match s.last() {
            ValueModel::Node(n) => rest.push(n),
            _ => rest,
        }
    }
}

/// The unbounded relationships among a path's relationship values, in order.
pub open spec fn rels_in(s: Seq<ValueModel>) -> Seq<UnboundedRelationModel>
    decreases s.len(),
{
    if s.len() == 0 {
        Seq::empty()
    } else {
        let rest = rels_in(s.drop_last());
        match s.last() {
            ValueModel::UnboundedRelation(r) => rest.push(r),
            _ => rest,
        }
    }
}

/// The integers among a path's index values, in order.
pub open spec fn ints_in(s: Seq<ValueModel>) -> Seq<i64>
    decreases s.len(),
{
    if s.len() == 0 {
        Seq::empty()
    } else {
        let rest = ints_in(s.drop_last());
        match s.last() {
            ValueModel::Integer(i) => rest.push(i),
            _ => rest,
        }
    }
}

/// The models of a sequence of nodes.
pub open spec fn node_models(s: Seq<Node>) -> Seq<NodeModel> {
    s.map_values(|n: Node| n@)
}

/// The models of a sequence of unbounded relationships.
pub open spec fn unbounded_models(s: Seq<UnboundedRelation>) -> Seq<UnboundedRelationModel> {
    s.map_values(|r: UnboundedRelation| r@)
}

/// The nodes of a path's node list, skipping any other value.
fn take_nodes(values: Vec<Value>) -> (r: Vec<Node>)
    ensures
        node_models(r@) == nodes_in(models(values@)),
{
    let ghost src = values@;
    let mut out: Vec<Node> = Vec::new();
    for v in it: values
        invariant
            it.seq() == src,
            node_models(out@) == nodes_in(models(src.take(it.index() as int))),
    {
        let ghost k = it.index();
        assert(src.take(k + 1).drop_last() == src.take(k as int));
        assert(src.take(k + 1).last() == src[k]);
        assert(models(src.take(k + 1)).drop_last() == models(src.take(k as int)));
        assert(models(src.take(k + 1)).last() == src[k]@);
        match v {
            Value::Node(n) => {
                out.push(n);
                assert(node_models(out@) =~= node_models(out@.drop_last()).push(n@));
            },
            _ => {},
        }
    }
    assert(src.take(src.len() as int) == src);
    out
}

/// The unbounded relationships of a path's relationship list, skipping any other value.
fn take_rels(values: Vec<Value>) -> (r: Vec<UnboundedRelation>)
    ensures
        unbounded_models(r@) == rels_in(models(values@)),
{
    let ghost src = values@;
    let mut out: Vec<UnboundedRelation> = Vec::new();
    for v in it: values
        invariant
            it.seq() == src,
            unbounded_models(out@) == rels_in(models(src.take(it.index() as int))),
    {
        let ghost k = it.index();
        assert(src.take(k + 1).drop_last() == src.take(k as int));
        assert(src.take(k + 1).last() == src[k]);
        assert(models(src.take(k + 1)).drop_last() == models(src.take(k as int)));
        assert(models(src.take(k + 1)).last() == src[k]@);
        match v {
            Value::UnboundedRelation(x) => {
                out.push(x);
                assert(unbounded_models(out@) =~= unbounded_models(out@.drop_last()).push(x@));
            },
            _ => {},
        }
    }
    assert(src.take(src.len() as int) == src);
    out
}

/// The integers of a path's index list, skipping any other value.
fn take_ints(values: Vec<Value>) -> (r: Vec<i64>)
    ensures
        r@ == ints_in(models(values@)),
{
    let ghost src = values@;
    let mut out: Vec<i64> = Vec::new();
    for v in it: values
        invariant
            it.seq() == src,
            out@ == ints_in(models(src.take(it.index() as int))),
    {
        let ghost k = it.index();
        assert(src.take(k + 1).drop_last() == src.take(k as int));
        assert(src.take(k + 1).last() == src[k]);
        assert(models(src.take(k + 1)).drop_last() == models(src.take(k as int)));
        assert(models(src.take(k + 1)).last() == src[k]@);
        match v {
            Value::Integer(i) => {
                out.push(i);
            },
            _ => {},
        }
    }
    assert(src.take(src.len() as int) == src);
    out
}

/// The first `ys.len()` of `nodes` read as `N` give `ys`.
pub open spec fn prefix_reads<N: CyphrNode>(nodes: Seq<NodeModel>, ys: Seq<N>) -> bool {
    ys.len() <= nodes.len() && forall|i: int|
        0 <= i < ys.len() ==> N::node_converts(nodes[i], Ok(#[trigger] ys[i]))
}

/// `r` is what reading each of `nodes` as `N` in order gives: all of
/// them, or the first error.
pub open spec fn nodes_read<N: CyphrNode>(
    nodes: Seq<NodeModel>,
    r: Result<Vec<N>, CyphrError>,
) -> bool {
    match r {
        Ok(ys) => ys@.len() == nodes.len() && forall|i: int|
            0 <= i < nodes.len() ==> N::node_converts(nodes[i], Ok(#[trigger] ys@[i])),
        Err(e) => exists|ys: Seq<N>|
            #[trigger] prefix_reads(nodes, ys) && ys.len() < nodes.len() && N::node_converts(
                nodes[ys.len() as int],
                Err(e),
            ),
    }
}

/// Read each node in order, stopping at the first error.
fn read_nodes<N: CyphrNode>(nodes: Vec<Node>) -> (r: Result<Vec<N>, CyphrError>)
    ensures
        nodes_read(node_models(nodes@), r),
{
    let ghost src = nodes@;
    let mut out: Vec<N> = Vec::new();
    for n in it: nodes
        invariant
            it.seq() == src,
            out@.len() == it.index(),
            forall|i: int| 0 <= i < it.index() ==> N::node_converts(src[i]@, Ok(#[trigger] out@[i])),
    {
        let ghost k = it.index();
        match N::from_node(&n) {
            Ok(y) => {
                out.push(y);
            },
            Err(e) => {
                assert(prefix_reads(node_models(src), out@));
                return Err(e);
            },
        }
    }
    Ok(out)
}

/// A path reads its nodes as `N` (stopping at the first error) and keeps
/// its relationships and integer indices.
impl<N: CyphrNode> FromCyphrValue for CyphrPath<N> {
    open spec fn converts(value: ValueModel, r: Result<CyphrPath<N>, CyphrError>) -> bool {
        match value {
            ValueModel::Path(p) => match r {
                Ok(cp) => nodes_read(nodes_in(p.nodes), Ok::<Vec<N>, CyphrError>(cp.nodes))
                    && unbounded_models(cp.rels@) == rels_in(p.rels) && cp.indices@ == ints_in(
                    p.indices,
                ),
                Err(e) => nodes_read::<N>(nodes_in(p.nodes), Err(e)),
            },
            _ => mismatch(r, "Path"@, value, "CyphrPath"@),
        }
    }

    fn from_value(value: Value) -> (r: Result<CyphrPath<N>, CyphrError>) {
        match value {
            Value::Path(p) => {
                let bolt_nodes = take_nodes(p.nodes);
                let nodes = match read_nodes(bolt_nodes) {
                    Ok(ns) => ns,
                    Err(e) => {
                        return Err(e);
                    },
                };
                let rels = take_rels(p.rels);
                let indices = take_ints(p.indices);
                Ok(CyphrPath { nodes, rels, indices })
            },
            other => {
                proof {
                    reveal_strlit("Path");
                    reveal_strlit("CyphrPath");
                }
                Err(CyphrError::type_mismatch("Path", value_type_name(&other), "CyphrPath"))
            },
        }
    }
}

/// An integer becomes an `Integer` value.
impl IntoCyphrValue for i64 {
    open spec fn encodes(self, v: ValueModel) -> bool {
        v == ValueModel::Integer(self)
    }

    fn into_value(self) -> (v: Value) {
        Value::Integer(self)
    }
}

/// An integer becomes an `Integer` value (widened to `i64`).
impl IntoCyphrValue for i32 {
    open spec fn encodes(self, v: ValueModel) -> bool {
        v == ValueModel::Integer(self as i64)
    }

    fn into_value(self) -> (v: Value) {
        Value::Integer(self as i64)
    }
}

/// An integer becomes an `Integer` value (widened to `i64`).
impl IntoCyphrValue for i16 {
    open spec fn encodes(self, v: ValueModel) -> bool {
        v == ValueModel::Integer(self as i64)
    }

    fn into_value(self) -> (v: Value) {
        Value::Integer(self as i64)
    }
}

/// An integer becomes an `Integer` value (widened to `i64`).
impl IntoCyphrValue for i8 {
    open spec fn encodes(self, v: ValueModel) -> bool {
        v == ValueModel::Integer(self as i64)
    }

    fn into_value(self) -> (v: Value) {
        Value::Integer(self as i64)
    }
}

/// An integer becomes an `Integer` value (widened to `i64`).
impl IntoCyphrValue for u32 {
    open spec fn encodes(self, v: ValueModel) -> bool {
        v == ValueModel::Integer(self as i64)
    }

    fn into_value(self) -> (v: Value) {
        Value::Integer(self as i64)
    }
}

/// An integer becomes an `Integer` value (widened to `i64`).
impl IntoCyphrValue for u16 {
    open spec fn encodes(self, v: ValueModel) -> bool {
        v == ValueModel::Integer(self as i64)
    }

    fn into_value(self) -> (v: Value) {
        Value::Integer(self as i64)
    }
}

impl IntoCyphrValue for bool {
    open spec fn encodes(self, v: ValueModel) -> bool {
        v == ValueModel::Boolean(self)
    }

    fn into_value(self) -> (v: Value) {
        Value::Boolean(self)
    }
}

impl IntoCyphrValue for String {
    open spec fn encodes(self, v: ValueModel) -> bool {
        v == ValueModel::String(self@)
    }

    fn into_value(self) -> (v: Value) {
        Value::String(self)
    }
}

impl<'a> IntoCyphrValue for &'a str {
    open spec fn encodes(self, v: ValueModel) -> bool {
        v == ValueModel::String(self@)
    }

    fn into_value(self) -> (v: Value) {
        Value::String(self.to_string())
    }
}

/// A value is a parameter as it is.
impl IntoCyphrValue for Value {
    open spec fn encodes(self, v: ValueModel) -> bool {
        v == self@
    }

    fn into_value(self) -> (v: Value) {
        self
    }
}

/// `None` becomes `Null`; `Some(x)` becomes what `x` becomes.
impl<T: IntoCyphrValue> IntoCyphrValue for Option<T> {
    open spec fn encodes(self, v: ValueModel) -> bool {
        match self {
            Some(x) => x.encodes(v),
            None => v == ValueModel::Null,
        }
    }

    fn into_value(self) -> (v: Value) {
        match self {
            Some(x) => x.into_value(),
            None => Value::Null,
        }
    }
}

/// A vector becomes a `List` of its elements' values, in order.
impl<T: IntoCyphrValue> IntoCyphrValue for Vec<T> {
    open spec fn encodes(self, v: ValueModel) -> bool {
        v matches ValueModel::List(xs) && xs.len() == self@.len() && forall|i: int|
            0 <= i < xs.len() ==> self@[i].encodes(#[trigger] xs[i])
    }

    fn into_value(self) -> (v: Value) {
        let ghost src = self@;
        let mut out: Vec<Value> = Vec::new();
        for x in it: self
            invariant
                it.seq() == src,
                out@.len() == it.index(),
                forall|i: int| 0 <= i < it.index() ==> src[i].encodes(#[trigger] out@[i]@),
        {
            out.push(x.into_value());
        }
        proof {
            lemma_models(out@);
        }
        Value::List(out)
    }
}

impl IntoCyphrValue for CyphrBytes {
    open spec fn encodes(self, v: ValueModel) -> bool {
        v == ValueModel::Bytes(self.0@)
    }

    fn into_value(self) -> (v: Value) {
        Value::Bytes(self.0)
    }
}

impl IntoCyphrValue for Point2D {
    open spec fn encodes(self, v: ValueModel) -> bool {
        v == ValueModel::Point2D(self)
    }

    fn into_value(self) -> (v: Value) {
        Value::Point2D(self)
    }
}

impl IntoCyphrValue for Point3D {
    open spec fn encodes(self, v: ValueModel) -> bool {
        v == ValueModel::Point3D(self)
    }

    fn into_value(self) -> (v: Value) {
        Value::Point3D(self)
    }
}

impl IntoCyphrValue for Node {
    open spec fn encodes(self, v: ValueModel) -> bool {
        v == ValueModel::Node(self@)
    }

    fn into_value(self) -> (v: Value) {
        Value::Node(self)
    }
}

impl IntoCyphrValue for Relation {
    open spec fn encodes(self, v: ValueModel) -> bool {
        v == ValueModel::Relation(self@)
    }

    fn into_value(self) -> (v: Value) {
        Value::Relation(self)
    }
}

impl IntoCyphrValue for UnboundedRelation {
    open spec fn encodes(self, v: ValueModel) -> bool {
        v == ValueModel::UnboundedRelation(self@)
    }

    fn into_value(self) -> (v: Value) {
        Value::UnboundedRelation(self)
    }
}

/// A map becomes a `Map` value with the same keys, in the same order, each
/// value converted.
impl<V: IntoCyphrValue> IntoCyphrValue for StringMap<V> {
    open spec fn encodes(self, v: ValueModel) -> bool {
        v matches ValueModel::Dict(m) && m.len() == self@.len() && forall|i: int|
            #![trigger m[i]]
            0 <= i < m.len() ==> m[i].0 == self@[i].0@ && self@[i].1.encodes(m[i].1)
    }

    fn into_value(self) -> (v: Value) {
        let entries = self.into_entries();
        let ghost src = entries@;
        let mut out: Vec<(String, Value)> = Vec::new();
        for entry in it: entries
            invariant
                it.seq() == src,
                keys_distinct(src),
                out@.len() == it.index(),
                forall|i: int|
                    #![trigger out@[i]]
                    0 <= i < it.index() ==> out@[i].0 == src[i].0 && src[i].1.encodes(out@[i].1@),
        {
            let (key, x) = entry;
            out.push((key, x.into_value()));
        }
        assert(keys_distinct(out@)) by {
            assert forall|i: int, j: int| 0 <= i < j < out@.len() implies #[trigger] out@[i].0@
                != #[trigger] out@[j].0@ by {
                assert(out@[i].0 == src[i].0);
                assert(out@[j].0 == src[j].0);
            }
        }
        proof {
            lemma_entry_models(out@);
        }
        Value::Dict(StringMap::from_distinct(out))
    }
}

/// The date value the driver makes of a calendar date.
pub uninterp spec fn bolt_of_date(d: chrono::NaiveDate) -> neo4rs::BoltDate;

/// The date-time value the driver makes of a local date-time.
pub uninterp spec fn bolt_of_local_date_time(d: chrono::NaiveDateTime) -> neo4rs::BoltLocalDateTime;

/// The calendar date the driver reads from a date value, if it is in range.
pub uninterp spec fn date_of_bolt(d: neo4rs::BoltDate) -> Option<chrono::NaiveDate>;

/// The local date-time the driver reads from a date-time value, if it is
/// in range.
pub uninterp spec fn local_date_time_of_bolt(d: neo4rs::BoltLocalDateTime) -> Option<
    chrono::NaiveDateTime,
>;

/// The driver's conversion of a calendar date into a date value (days
/// since the UNIX epoch), `From<NaiveDate> for BoltDate`: a function of
/// the date alone.
#[verifier::external_body]
fn date_to_bolt(d: chrono::NaiveDate) -> (r: neo4rs::BoltDate)
    ensures
        r == bolt_of_date(d),
{
    neo4rs::BoltDate::from(d)
}

/// The driver's conversion of a date-time into a local date-time value,
/// `From<NaiveDateTime> for BoltLocalDateTime`: a function of the date-time
/// alone.
#[verifier::external_body]
fn local_date_time_to_bolt(d: chrono::NaiveDateTime) -> (r: neo4rs::BoltLocalDateTime)
    ensures
        r == bolt_of_local_date_time(d),
{
    neo4rs::BoltLocalDateTime::from(d)
}

/// A date becomes the driver's `Date` value for it.
impl IntoCyphrValue for chrono::NaiveDate {
    open spec fn encodes(self, v: ValueModel) -> bool {
        v == ValueModel::Date(bolt_of_date(self))
    }

    fn into_value(self) -> (v: Value) {
        Value::Date(date_to_bolt(self))
    }
}

/// A date-time becomes the driver's `LocalDateTime` value for it.
impl IntoCyphrValue for chrono::NaiveDateTime {
    open spec fn encodes(self, v: ValueModel) -> bool {
        v == ValueModel::LocalDateTime(bolt_of_local_date_time(self))
    }

    fn into_value(self) -> (v: Value) {
        Value::LocalDateTime(local_date_time_to_bolt(self))
    }
}

#[verifier::external_type_specification]
#[verifier::external_body]
pub struct ExNaiveDate(chrono::NaiveDate);

#[verifier::external_type_specification]
#[verifier::external_body]
pub struct ExNaiveDateTime(chrono::NaiveDateTime);

/// The driver's conversion of a date (days since the UNIX epoch) to a
/// calendar date (`TryInto<NaiveDate> for BoltDate`): the date it names,
/// or an error when the date is out of the calendar's range.
#[verifier::external_body]
fn bolt_date(d: neo4rs::BoltDate) -> (r: Result<chrono::NaiveDate, neo4rs::Error>)
    ensures
        match date_of_bolt(d) {
            Some(x) => r == Ok::<chrono::NaiveDate, neo4rs::Error>(x),
            None => r is Err,
        },
{
    d.try_into()
}

/// The driver's conversion of a local date-time (`TryInto<NaiveDateTime>
/// for BoltLocalDateTime`): the date-time it names, or an error when the
/// timestamp is out of range.
#[verifier::external_body]
fn bolt_local_date_time(d: neo4rs::BoltLocalDateTime) -> (r: Result<
    chrono::NaiveDateTime,
    neo4rs::Error,
>)
    ensures
        match local_date_time_of_bolt(d) {
            Some(x) => r == Ok::<chrono::NaiveDateTime, neo4rs::Error>(x),
            None => r is Err,
        },
{
    d.try_into()
}

/// `r` is a `Mapping` error whose text is `prefix` followed by the driver
/// error's message.
pub open spec fn mapping_failure<T>(r: Result<T, CyphrError>, prefix: Seq<char>) -> bool {
    r matches Err(CyphrError::Mapping(m)) && starts_with(m@, prefix)
}

/// What a driver conversion's result becomes: its value, or a `Mapping`
/// error with `prefix` followed by the driver error's text.
pub fn driver_conversion<T>(r: Result<T, neo4rs::Error>, prefix: &str) -> (out: Result<
    T,
    CyphrError,
>)
    ensures
        match r {
            Ok(x) => out == Ok::<T, CyphrError>(x),
            Err(_) => mapping_failure(out, prefix@),
        },
{
    match r {
        Ok(x) => Ok(x),
        Err(e) => {
            let m = String::from_str(prefix).concat(driver_error_text(&e).as_str());
            assert(m@.take(prefix@.len() as int) =~= prefix@);
            Err(CyphrError::Mapping(m))
        },
    }
}

/// A `Date` converts to the calendar date it names; one out of range is a
/// `Mapping` error.
impl FromCyphrValue for chrono::NaiveDate {
    open spec fn converts(value: ValueModel, r: Result<chrono::NaiveDate, CyphrError>) -> bool {
        match value {
            ValueModel::Date(d) => match date_of_bolt(d) {
                Some(x) => r == Ok::<chrono::NaiveDate, CyphrError>(x),
                None => mapping_failure(r, "BoltDate -> NaiveDate: "@),
            },
            _ => mismatch(r, "Date"@, value, "NaiveDate"@),
        }
    }

    fn from_value(value: Value) -> (r: Result<chrono::NaiveDate, CyphrError>) {
        match value {
            Value::Date(d) => driver_conversion(bolt_date(d), "BoltDate -> NaiveDate: "),
            other => {
                proof {
                    reveal_strlit("Date");
                    reveal_strlit("NaiveDate");
                }
                Err(CyphrError::type_mismatch("Date", value_type_name(&other), "NaiveDate"))
            },
        }
    }
}

/// A `LocalDateTime` converts to the date-time it names; one out of range
/// is a `Mapping` error.
impl FromCyphrValue for chrono::NaiveDateTime {
    open spec fn converts(value: ValueModel, r: Result<chrono::NaiveDateTime, CyphrError>) -> bool {
        match value {
            ValueModel::LocalDateTime(d) => match local_date_time_of_bolt(d) {
                Some(x) => r == Ok::<chrono::NaiveDateTime, CyphrError>(x),
                None => mapping_failure(r, "BoltLocalDateTime -> NaiveDateTime: "@),
            },
            _ => mismatch(r, "LocalDateTime"@, value, "NaiveDateTime"@),
        }
    }

    fn from_value(value: Value) -> (r: Result<chrono::NaiveDateTime, CyphrError>) {
        match value {
            Value::LocalDateTime(d) => driver_conversion(
                bolt_local_date_time(d),
                "BoltLocalDateTime -> NaiveDateTime: ",
            ),
            other => {
                proof {
                    reveal_strlit("LocalDateTime");
                    reveal_strlit("NaiveDateTime");
                }
                Err(
                    CyphrError::type_mismatch(
                        "LocalDateTime",
                        value_type_name(&other),
                        "NaiveDateTime",
                    ),
                )
            },
        }
    }
}

/// The source of a date-time with offset: a fixed-offset `DateTime` or a
/// `DateTimeZoneId` naming a zone.
pub enum DateTimeSource {
    Fixed(neo4rs::BoltDateTime),
    Zoned(neo4rs::BoltDateTimeZoneId),
}

/// The date-time inside a `DateTime` or `DateTimeZoneId` value; any other
/// value is a type mismatch. The conversion into a `chrono` date-time
/// follows in the caller, with `date_time_error` for its failure.
pub fn date_time_source(value: Value) -> (r: Result<DateTimeSource, CyphrError>)
    ensures
        match value@ {
            ValueModel::DateTime(d) => r == Ok::<DateTimeSource, CyphrError>(DateTimeSource::Fixed(d)),
            ValueModel::DateTimeZoneId(d) => r == Ok::<DateTimeSource, CyphrError>(
                DateTimeSource::Zoned(d),
            ),
            _ => mismatch(r, "DateTime"@, value@, "DateTime<FixedOffset>"@),
        },
{
    match value {
        Value::DateTime(d) => Ok(DateTimeSource::Fixed(d)),
        Value::DateTimeZoneId(d) => Ok(DateTimeSource::Zoned(d)),
        other => {
            proof {
                reveal_strlit("DateTime");
                reveal_strlit("DateTime<FixedOffset>");
            }
            Err(CyphrError::type_mismatch("DateTime", value_type_name(&other), "DateTime<FixedOffset>"))
        },
    }
}

/// The local time inside a `LocalTime` value, to be read as a `NaiveTime`;
/// any other value is a type mismatch.
pub fn local_time_part(value: Value) -> (r: Result<neo4rs::BoltLocalTime, CyphrError>)
    ensures
        match value@ {
            ValueModel::LocalTime(t) => r == Ok::<neo4rs::BoltLocalTime, CyphrError>(t),
            _ => mismatch(r, "LocalTime"@, value@, "NaiveTime"@),
        },
{
    match value {
        Value::LocalTime(t) => Ok(t),
        other => {
            proof {
                reveal_strlit("LocalTime");
                reveal_strlit("NaiveTime");
            }
            Err(CyphrError::type_mismatch("LocalTime", value_type_name(&other), "NaiveTime"))
        },
    }
}

/// The time with offset inside a `Time` value, to be read as a
/// `(NaiveTime, FixedOffset)` pair; any other value is a type mismatch.
pub fn time_part(value: Value) -> (r: Result<neo4rs::BoltTime, CyphrError>)
    ensures
        match value@ {
            ValueModel::Time(t) => r == Ok::<neo4rs::BoltTime, CyphrError>(t),
            _ => mismatch(r, "Time"@, value@, "(NaiveTime, FixedOffset)"@),
        },
{
    match value {
        Value::Time(t) => Ok(t),
        other => {
            proof {
                reveal_strlit("Time");
                reveal_strlit("(NaiveTime, FixedOffset)");
            }
            Err(CyphrError::type_mismatch("Time", value_type_name(&other), "(NaiveTime, FixedOffset)"))
        },
    }
}

/// The duration inside a `Duration` value, to be read as a
/// `std::time::Duration`; any other value is a type mismatch.
pub fn duration_part(value: Value) -> (r: Result<neo4rs::BoltDuration, CyphrError>)
    ensures
        match value@ {
            ValueModel::Duration(d) => r == Ok::<neo4rs::BoltDuration, CyphrError>(d),
            _ => mismatch(r, "Duration"@, value@, "std::time::Duration"@),
        },
{
    match value {
        Value::Duration(d) => Ok(d),
        other => {
            proof {
                reveal_strlit("Duration");
                reveal_strlit("std::time::Duration");
            }
            Err(CyphrError::type_mismatch("Duration", value_type_name(&other), "std::time::Duration"))
        },
    }
}

/// The error for a failed conversion of a date-time from `source`: a
/// `Mapping` error naming the source kind, then the driver's message.
pub fn date_time_error(source: &DateTimeSource, e: &neo4rs::Error) -> (r: CyphrError)
    ensures
        r matches CyphrError::Mapping(m) && starts_with(
            m@,
            match source {
                DateTimeSource::Fixed(_) => "BoltDateTime -> DateTime<FixedOffset>: "@,
                DateTimeSource::Zoned(_) => "BoltDateTimeZoneId -> DateTime<FixedOffset>: "@,
            },
        ),
{
    let prefix = match source {
        DateTimeSource::Fixed(_) => "BoltDateTime -> DateTime<FixedOffset>: ",
        DateTimeSource::Zoned(_) => "BoltDateTimeZoneId -> DateTime<FixedOffset>: ",
    };
    let m = String::from_str(prefix).concat(driver_error_text(e).as_str());
    assert(m@.take(prefix@.len() as int) =~= prefix@);
    CyphrError::Mapping(m)
}

/// Converting a parameter back: every integer, boolean, string, byte
/// string and point that becomes a value converts back to itself.
pub proof fn lemma_scalar_roundtrip(
    a: i64,
    b: i32,
    c: i16,
    d: i8,
    e: u32,
    f: u16,
    g: bool,
    h: String,
    k: CyphrBytes,
    p: Point2D,
    q: Point3D,
)
    ensures
        forall|v: ValueModel| a.encodes(v) ==> #[trigger] i64::converts(v, Ok(a)),
        forall|v: ValueModel| b.encodes(v) ==> #[trigger] i32::converts(v, Ok(b)),
        forall|v: ValueModel| c.encodes(v) ==> #[trigger] i16::converts(v, Ok(c)),
        forall|v: ValueModel| d.encodes(v) ==> #[trigger] i8::converts(v, Ok(d)),
        forall|v: ValueModel| e.encodes(v) ==> #[trigger] u32::converts(v, Ok(e)),
        forall|v: ValueModel| f.encodes(v) ==> #[trigger] u16::converts(v, Ok(f)),
        forall|v: ValueModel| g.encodes(v) ==> #[trigger] bool::converts(v, Ok(g)),
        forall|v: ValueModel| h.encodes(v) ==> #[trigger] String::converts(v, Ok(h)),
        forall|v: ValueModel| k.encodes(v) ==> #[trigger] CyphrBytes::converts(v, Ok(k)),
        forall|v: ValueModel| p.encodes(v) ==> #[trigger] Point2D::converts(v, Ok(p)),
        forall|v: ValueModel| q.encodes(v) ==> #[trigger] Point3D::converts(v, Ok(q)),
{
    assert((b as i64) as i32 == b) by (bit_vector);
    assert((c as i64) as i16 == c) by (bit_vector);
    assert((d as i64) as i8 == d) by (bit_vector);
    assert((e as i64) as u32 == e) by (bit_vector);
    assert((f as i64) as u16 == f) by (bit_vector);
}

/// A list converts back to the vector it came from when each element
/// does.
pub proof fn lemma_list_roundtrip<T: FromCyphrValue + IntoCyphrValue>(xs: Vec<T>, v: ValueModel)
    requires
        xs.encodes(v),
        forall|i: int, w: ValueModel|
            0 <= i < xs@.len() && #[trigger] xs@[i].encodes(w) ==> T::converts(w, Ok(xs@[i])),
    ensures
        Vec::<T>::converts(v, Ok(xs)),
{
    let xm = v->List_0;
    assert forall|i: int| 0 <= i < xm.len() implies T::converts(xm[i], Ok(#[trigger] xs@[i])) by {
        assert(xs@[i].encodes(xm[i]));
    }
}

/// A map converts back to the map it came from when each value does:
/// same keys, same order, same values.
pub proof fn lemma_map_roundtrip<V: FromCyphrValue + IntoCyphrValue>(m: StringMap<V>, v: ValueModel)
    requires
        m.encodes(v),
        forall|i: int, w: ValueModel|
            0 <= i < m@.len() && #[trigger] m@[i].1.encodes(w) ==> V::converts(w, Ok(m@[i].1)),
    ensures
        StringMap::<V>::converts(v, Ok(m)),
{
    let d = v->Dict_0;
    assert forall|i: int| 0 <= i < d.len() implies #[trigger] m@[i].0@ == d[i].0 && V::converts(
        d[i].1,
        Ok(m@[i].1),
    ) by {
        assert(m@[i].1.encodes(d[i].1));
    }
}

/// Reading an `Integer` into a fixed-width integer never fails and keeps
/// the integer modulo the width: `i64` gives it back unchanged; an unsigned
/// type of `k` bits gives the remainder of `n` by `2^k` (so a non-negative
/// `n` that fits comes back unchanged); a signed type of `k` bits gives the
/// value of its range that differs from `n` by a multiple of `2^k`.
pub proof fn lemma_integer_reads(n: i64)
    ensures
        forall|r: Result<i64, CyphrError>|
            #[trigger] i64::converts(ValueModel::Integer(n), r) ==> r == Ok::<i64, CyphrError>(n),
        forall|r: Result<u64, CyphrError>|
            #[trigger] u64::converts(ValueModel::Integer(n), r) ==> (r matches Ok(x) && x as int == (n as int)
                % 0x1_0000_0000_0000_0000int),
        forall|r: Result<u32, CyphrError>|
            #[trigger] u32::converts(ValueModel::Integer(n), r) ==> (r matches Ok(x) && x as int == (n as int)
                % 0x1_0000_0000int),
        forall|r: Result<u16, CyphrError>|
            #[trigger] u16::converts(ValueModel::Integer(n), r) ==> (r matches Ok(x) && x as int == (n as int)
                % 0x1_0000int),
        forall|r: Result<u8, CyphrError>|
            #[trigger] u8::converts(ValueModel::Integer(n), r) ==> (r matches Ok(x) && x as int == (n as int)
                % 0x100int),
        forall|r: Result<i32, CyphrError>|
            #[trigger] i32::converts(ValueModel::Integer(n), r) ==> (r matches Ok(x) && ((x as int) - (
            n as int)) % 0x1_0000_0000int == 0),
        forall|r: Result<i16, CyphrError>|
            #[trigger] i16::converts(ValueModel::Integer(n), r) ==> (r matches Ok(x) && ((x as int) - (
            n as int)) % 0x1_0000int == 0),
        forall|r: Result<i8, CyphrError>|
            #[trigger] i8::converts(ValueModel::Integer(n), r) ==> (r matches Ok(x) && ((x as int) - (
            n as int)) % 0x100int == 0),
        0 <= n ==> forall|r: Result<u64, CyphrError>|
            #[trigger] u64::converts(ValueModel::Integer(n), r) ==> (r matches Ok(x) && x as int == n),
{
    assert((n as u64) as int == (n as int) % 0x1_0000_0000_0000_0000int) by (bit_vector);
    assert((n as u32) as int == (n as int) % 0x1_0000_0000int) by (bit_vector);
    assert((n as u16) as int == (n as int) % 0x1_0000int) by (bit_vector);
    assert((n as u8) as int == (n as int) % 0x100int) by (bit_vector);
    assert(((n as i32) as int - (n as int)) % 0x1_0000_0000int == 0) by (bit_vector);
    assert(((n as i16) as int - (n as int)) % 0x1_0000int == 0) by (bit_vector);
    assert(((n as i8) as int - (n as int)) % 0x100int == 0) by (bit_vector);
    assert(0 <= n ==> (n as u64) as int == n) by (bit_vector);
}

/// A pair reads only a list of exactly two elements: any other list, or
/// any other value, is a `List[2]` type mismatch naming what was received;
/// a successful read takes the first element into the first component and
/// the second into the second.
pub proof fn lemma_pair_reads<A: FromCyphrValue, B: FromCyphrValue>(
    v: ValueModel,
    r: Result<(A, B), CyphrError>,
)
    requires
        <(A, B)>::converts(v, r),
    ensures
        !(v matches ValueModel::List(xs) && xs.len() == 2) ==> (r matches Err(e) && is_type_mismatch(
            e,
            "List[2]"@,
            type_name_of(v),
            "tuple(A, B)"@,
        )),
        r matches Ok(p) ==> v matches ValueModel::List(xs) && xs.len() == 2 && A::converts(
            xs[0],
            Ok(p.0),
        ) && B::converts(xs[1], Ok(p.1)),
{
}

/// A triple reads only a list of exactly three elements: any other list,
/// or any other value, is a `List[3]` type mismatch; a successful read
/// takes the elements in order.
pub proof fn lemma_triple_reads<A: FromCyphrValue, B: FromCyphrValue, C: FromCyphrValue>(
    v: ValueModel,
    r: Result<(A, B, C), CyphrError>,
)
    requires
        <(A, B, C)>::converts(v, r),
    ensures
        !(v matches ValueModel::List(xs) && xs.len() == 3) ==> (r matches Err(e) && is_type_mismatch(
            e,
            "List[3]"@,
            type_name_of(v),
            "tuple(A, B, C)"@,
        )),
        r matches Ok(t) ==> v matches ValueModel::List(xs) && xs.len() == 3 && A::converts(
            xs[0],
            Ok(t.0),
        ) && B::converts(xs[1], Ok(t.1)) && C::converts(xs[2], Ok(t.2)),
{
}

/// The integers of a list made only of integers are all of them, in order,
/// whatever their signs.
pub proof fn lemma_ints_in_all(s: Seq<ValueModel>)
    requires
        forall|i: int| 0 <= i < s.len() ==> #[trigger] s[i] is Integer,
    ensures
        ints_in(s).len() == s.len(),
        forall|i: int| 0 <= i < s.len() ==> s[i] == ValueModel::Integer(#[trigger] ints_in(s)[i]),
    decreases s.len(),
{
    if s.len() > 0 {
        lemma_ints_in_all(s.drop_last());
        assert forall|i: int| 0 <= i < s.len() implies s[i] == ValueModel::Integer(#[trigger] ints_in(s)[i]) by {
            if i < s.len() - 1 {
                assert(s.drop_last()[i] == s[i]);
            }
        }
    }
}

/// The nodes of a list made only of nodes are all of them, in order.
pub proof fn lemma_nodes_in_all(s: Seq<ValueModel>)
    requires
        forall|i: int| 0 <= i < s.len() ==> #[trigger] s[i] is Node,
    ensures
        nodes_in(s).len() == s.len(),
        forall|i: int| 0 <= i < s.len() ==> s[i] == ValueModel::Node(#[trigger] nodes_in(s)[i]),
    decreases s.len(),
{
    if s.len() > 0 {
        lemma_nodes_in_all(s.drop_last());
        assert forall|i: int| 0 <= i < s.len() implies s[i] == ValueModel::Node(#[trigger] nodes_in(s)[i]) by {
            if i < s.len() - 1 {
                assert(s.drop_last()[i] == s[i]);
            }
        }
    }
}

/// The relationships of a list made only of unbounded relationships are
/// all of them, in order.
pub proof fn lemma_rels_in_all(s: Seq<ValueModel>)
    requires
        forall|i: int| 0 <= i < s.len() ==> #[trigger] s[i] is UnboundedRelation,
    ensures
        rels_in(s).len() == s.len(),
        forall|i: int| 0 <= i < s.len() ==> s[i] == ValueModel::UnboundedRelation(#[trigger] rels_in(s)[i]),
    decreases s.len(),
{
    if s.len() > 0 {
        lemma_rels_in_all(s.drop_last());
        assert forall|i: int| 0 <= i < s.len() implies s[i] == ValueModel::UnboundedRelation(
            #[trigger] rels_in(s)[i],
        ) by {
            if i < s.len() - 1 {
                assert(s.drop_last()[i] == s[i]);
            }
        }
    }
}

/// Reading a path whose index list holds only integers keeps every index,
/// in order and whatever its sign; whose relationship list holds only
/// unbounded relationships keeps every relationship, in order; and whose
/// node list holds only nodes reads every node, in order.
pub proof fn lemma_path_reads<N: CyphrNode>(p: PathModel, r: Result<CyphrPath<N>, CyphrError>)
    requires
        CyphrPath::<N>::converts(ValueModel::Path(p), r),
    ensures
        r matches Ok(cp) ==> ((forall|i: int| 0 <= i < p.indices.len() ==> #[trigger] p.indices[i] is Integer)
            ==> cp.indices@.len() == p.indices.len() && forall|i: int|
            0 <= i < p.indices.len() ==> p.indices[i] == ValueModel::Integer(#[trigger] cp.indices@[i])),
        r matches Ok(cp) ==> ((forall|i: int| 0 <= i < p.rels.len() ==> #[trigger] p.rels[i] is UnboundedRelation)
            ==> cp.rels@.len() == p.rels.len() && forall|i: int|
            0 <= i < p.rels.len() ==> p.rels[i] == ValueModel::UnboundedRelation(#[trigger] cp.rels@[i]@)),
        r matches Ok(cp) ==> ((forall|i: int| 0 <= i < p.nodes.len() ==> #[trigger] p.nodes[i] is Node)
            ==> cp.nodes@.len() == p.nodes.len() && forall|i: int|
            0 <= i < p.nodes.len() ==> (p.nodes[i] matches ValueModel::Node(n) && N::node_converts(
                n,
                Ok(#[trigger] cp.nodes@[i]),
            ))),
{
    if let Ok(cp) = r {
        if forall|i: int| 0 <= i < p.indices.len() ==> #[trigger] p.indices[i] is Integer {
            lemma_ints_in_all(p.indices);
        }
        if forall|i: int| 0 <= i < p.rels.len() ==> #[trigger] p.rels[i] is UnboundedRelation {
            lemma_rels_in_all(p.rels);
            assert forall|i: int| 0 <= i < p.rels.len() implies p.rels[i] == ValueModel::UnboundedRelation(
                #[trigger] cp.rels@[i]@,
            ) by {
                assert(unbounded_models(cp.rels@)[i] == cp.rels@[i]@);
            }
        }
        if forall|i: int| 0 <= i < p.nodes.len() ==> #[trigger] p.nodes[i] is Node {
            lemma_nodes_in_all(p.nodes);
        }
    }
}

/// A vector reads only a list: a successful read has one element per list
/// element, each the reading of the element at the same position; a
/// failure is some element's error; any other value is a `List` mismatch.
pub proof fn lemma_list_reads<T: FromCyphrValue>(v: ValueModel, r: Result<Vec<T>, CyphrError>)
    requires
        Vec::<T>::converts(v, r),
    ensures
        !(v is List) ==> (r matches Err(e) && is_type_mismatch(e, "List"@, type_name_of(v), "Vec<T>"@)),
        r matches Ok(ys) ==> (v matches ValueModel::List(xs) && ys@.len() == xs.len() && forall|i: int|
            0 <= i < xs.len() ==> T::converts(xs[i], Ok(#[trigger] ys@[i]))),
        (v is List && r is Err) ==> (exists|i: int|
            0 <= i < v->List_0.len() && T::converts(v->List_0[i], Err(r->Err_0))),
{
    if v is List && r is Err {
        let xs = v->List_0;
        let ys = choose|ys: Seq<T>|
            #[trigger] prefix_converts(xs, ys) && ys.len() < xs.len() && T::converts(
                xs[ys.len() as int],
                Err(r->Err_0),
            );
        assert(T::converts(xs[ys.len() as int], Err(r->Err_0)));
    }
}

/// A map reads only a map value: a successful read keeps every key, in
/// order, with the reading of its value; any other value is a `Map`
/// mismatch.
pub proof fn lemma_map_reads<V: FromCyphrValue>(v: ValueModel, r: Result<StringMap<V>, CyphrError>)
    requires
        StringMap::<V>::converts(v, r),
    ensures
        !(v is Dict) ==> (r matches Err(e) && is_type_mismatch(
            e,
            "Map"@,
            type_name_of(v),
            "HashMap<String, V>"@,
        )),
        r matches Ok(out) ==> (v matches ValueModel::Dict(m) && out@.len() == m.len() && forall|i: int|
            0 <= i < m.len() ==> (#[trigger] out@[i]).0@ == m[i].0 && V::converts(m[i].1, Ok(out@[i].1))),
{
}

/// `Null` reads as `None` and nothing else does: any other value reads as
/// `Some` of its reading as `T`, or fails with that reading's error.
pub proof fn lemma_option_reads<T: FromCyphrValue>(v: ValueModel, r: Result<Option<T>, CyphrError>)
    requires
        Option::<T>::converts(v, r),
    ensures
        v is Null ==> r == Ok::<Option<T>, CyphrError>(None),
        !(v is Null) ==> r != Ok::<Option<T>, CyphrError>(None),
        r matches Ok(Some(x)) ==> T::converts(v, Ok(x)),
        r matches Err(e) ==> T::converts(v, Err(e)),
{
}

} // verus!
