use vstd::prelude::*;

use crate::bolt::{lookup, Node, Relation, Value, ValueModel};
use crate::error::{CyphrError, is_context, is_missing_field, is_missing_property, is_type_mismatch};
use crate::props::{node_prop, rel_prop};
use crate::record::{get_value, Row};
use crate::traits::{CyphrNode, CyphrRelation, FromCyphrValue};
use crate::value::{type_name_of, value_type_name};

verus! {

/// The context a node or relationship field error is wrapped in:
/// `"{owner}::{field} (prop '{prop}')"`.
pub open spec fn prop_context(owner: Seq<char>, field: Seq<char>, prop: Seq<char>) -> Seq<char> {
    owner + "::"@ + field + " (prop '"@ + prop + "')"@
}

/// The context a row field error is wrapped in: `"{owner}::{field}"`.
pub open spec fn field_context(owner: Seq<char>, field: Seq<char>) -> Seq<char> {
    owner + "::"@ + field
}

/// `r` is what converting `v` as `T` gives, any error wrapped in `ctx`.
pub open spec fn converts_in_context<T: FromCyphrValue>(
    v: ValueModel,
    ctx: Seq<char>,
    r: Result<T, CyphrError>,
) -> bool {
    match r {
        Ok(x) => T::converts(v, Ok(x)),
        Err(e) => exists|inner: CyphrError| #[trigger] is_context(e, ctx, inner) && T::converts(v, Err(inner)),
    }
}

/// `r` is what reading property `prop` of an element with properties
/// `props` into field `field` of struct `owner` gives: a missing property
/// is a `MissingProperty` error naming `label` (the node label or
/// relationship type); a conversion error is wrapped in the property
/// context, which names the struct.
pub open spec fn prop_reads<T: FromCyphrValue>(
    props: Seq<(Seq<char>, ValueModel)>,
    owner: Seq<char>,
    label: Seq<char>,
    field: Seq<char>,
    prop: Seq<char>,
    r: Result<T, CyphrError>,
) -> bool {
    match lookup(props, prop) {
        None => r matches Err(e) && is_missing_property(e, prop, label),
        Some(v) => converts_in_context(v, prop_context(owner, field, prop), r),
    }
}

fn prop_context_text(owner: &str, field: &str, prop: &str) -> (r: String)
    ensures
        r@ == prop_context(owner@, field@, prop@),
{
    proof {
        reveal_strlit("::");
        reveal_strlit(" (prop '");
        reveal_strlit("')");
    }
    String::from_str(owner).concat("::").concat(field).concat(" (prop '").concat(prop).concat("')")
}

/// Convert `v` as `T`, wrapping any error in `ctx`.
fn convert_in_context<T: FromCyphrValue>(v: Value, ctx: &str) -> (r: Result<T, CyphrError>)
    ensures
        converts_in_context(v@, ctx@, r),
{
    match T::from_value(v) {
        Ok(x) => Ok(x),
        Err(e) => {
            let ghost inner = e;
            let w = e.with_context(ctx);
            assert(is_context(w, ctx@, inner));
            Err(w)
        },
    }
}

/// Read field `field` of node struct `owner` (label `label`) from property
/// `prop` — what a derived `CyphrNode::from_node` does for each field.
pub fn node_field<T: FromCyphrValue>(node: &Node, owner: &str, label: &str, field: &str, prop: &str) -> (r: Result<T, CyphrError>)
    ensures
        prop_reads(node@.properties, owner@, label@, field@, prop@, r),
{
    match node_prop(node, prop) {
        None => Err(CyphrError::missing_property(prop, label)),
        Some(v) => {
            let ctx = prop_context_text(owner, field, prop);
            convert_in_context(v, ctx.as_str())
        },
    }
}

/// Read field `field` of relationship struct `owner` (type `rel_type`)
/// from property `prop` — what a derived `CyphrRelation::from_rel` does for
/// each field.
pub fn rel_field<T: FromCyphrValue>(rel: &Relation, owner: &str, rel_type: &str, field: &str, prop: &str) -> (r: Result<T, CyphrError>)
    ensures
        prop_reads(rel@.properties, owner@, rel_type@, field@, prop@, r),
{
    match rel_prop(rel, prop) {
        None => Err(CyphrError::missing_property(prop, rel_type)),
        Some(v) => {
            let ctx = prop_context_text(owner, field, prop);
            convert_in_context(v, ctx.as_str())
        },
    }
}

/// `r` is what reading column `field` of a row struct `owner` as `T` gives:
/// a missing column is a `MissingField` error, a conversion error is
/// wrapped in the field context.
pub open spec fn field_reads<T: FromCyphrValue>(
    record: Seq<(Seq<char>, ValueModel)>,
    owner: Seq<char>,
    field: Seq<char>,
    r: Result<T, CyphrError>,
) -> bool {
    match lookup(record, field) {
        None => r matches Err(e) && is_missing_field(e, field, owner),
        Some(v) => converts_in_context(v, field_context(owner, field), r),
    }
}

/// `r` is what reading an optional column `field` gives: a missing column
/// is `None`; otherwise the value converts as `Option<T>` (so `Null` is
/// `None` too), errors wrapped in the field context.
pub open spec fn optional_field_reads<T: FromCyphrValue>(
    record: Seq<(Seq<char>, ValueModel)>,
    owner: Seq<char>,
    field: Seq<char>,
    r: Result<Option<T>, CyphrError>,
) -> bool {
    match lookup(record, field) {
        None => r == Ok::<Option<T>, CyphrError>(None),
        Some(v) => converts_in_context::<Option<T>>(v, field_context(owner, field), r),
    }
}

fn field_context_text(owner: &str, field: &str) -> (r: String)
    ensures
        r@ == field_context(owner@, field@),
{
    proof {
        reveal_strlit("::");
    }
    String::from_str(owner).concat("::").concat(field)
}

/// Read column `field` of a row into a field of struct `owner` — what a
/// derived `FromCyphr::from_record` does for a non-`Option` field.
pub fn record_field<T: FromCyphrValue>(record: &Row, owner: &str, field: &str) -> (r: Result<T, CyphrError>)
    ensures
        field_reads(record@, owner@, field@, r),
{
    match get_value(record, field) {
        None => Err(CyphrError::missing_field(field, owner)),
        Some(v) => {
            let ctx = field_context_text(owner, field);
            convert_in_context(v, ctx.as_str())
        },
    }
}

/// Read an `Option` field: a missing column becomes `None` — what a derived
/// `FromCyphr::from_record` does for an `Option<T>` field.
pub fn record_optional_field<T: FromCyphrValue>(record: &Row, owner: &str, field: &str) -> (r: Result<Option<T>, CyphrError>)
    ensures
        optional_field_reads(record@, owner@, field@, r),
{
    match get_value(record, field) {
        None => Ok(None),
        Some(v) => {
            let ctx = field_context_text(owner, field);
            convert_in_context::<Option<T>>(v, ctx.as_str())
        },
    }
}

/// A node value read as `T` — what the `FromCyphrValue` impl derived for a
/// node struct does: a `Node` is read by `T::from_node`, anything else is a
/// type mismatch naming the label.
pub fn node_from_value<T: CyphrNode>(value: Value) -> (r: Result<T, CyphrError>)
    ensures
        match value@ {
            ValueModel::Node(n) => T::node_converts(n, r),
            _ => r matches Err(e) && is_type_mismatch(e, "Node"@, type_name_of(value@), T::LABEL@),
        },
{
    match value {
        Value::Node(n) => T::from_node(&n),
        other => {
            proof { reveal_strlit("Node"); }
            Err(CyphrError::type_mismatch("Node", value_type_name(&other), T::LABEL))
        },
    }
}

/// A relationship value read as `T` — what the `FromCyphrValue` impl derived
/// for a relationship struct does.
pub fn rel_from_value<T: CyphrRelation>(value: Value) -> (r: Result<T, CyphrError>)
    ensures
        match value@ {
            ValueModel::Relation(x) => T::rel_converts(x, r),
            _ => r matches Err(e) && is_type_mismatch(e, "Relationship"@, type_name_of(value@), T::TYPE@),
        },
{
    match value {
        Value::Relation(x) => T::from_rel(&x),
        other => {
            proof { reveal_strlit("Relationship"); }
            Err(CyphrError::type_mismatch("Relationship", value_type_name(&other), T::TYPE))
        },
    }
}

} // verus!
