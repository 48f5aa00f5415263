use vstd::prelude::*;

use crate::bolt::{lookup, Node, Relation, Value};

verus! {

/// Read a property from a node by key; `None` if the node has no such property.
pub fn node_prop(node: &Node, key: &str) -> (r: Option<Value>)
    ensures
        match r {
            Some(v) => lookup(node@.properties, key@) == Some(v@),
            None => lookup(node@.properties, key@) is None,
        },
{
    node.properties.get_value(key)
}

/// Read a property from a relationship by key; `None` if it has no such property.
pub fn rel_prop(rel: &Relation, key: &str) -> (r: Option<Value>)
    ensures
        match r {
            Some(v) => lookup(rel@.properties, key@) == Some(v@),
            None => lookup(rel@.properties, key@) is None,
        },
{
    rel.properties.get_value(key)
}

} // verus!
