use vstd::prelude::*;

use crate::bolt::{Node, NodeModel, Relation, RelationModel, StringMap, Value, ValueModel};
use crate::error::CyphrError;
use crate::record::Row;

verus! {

/// Maps a graph node to a Rust struct.
pub trait CyphrNode: Sized {
    /// The node label (e.g. `"User"`).
    const LABEL: &'static str;

    /// Whether `r` is what reading `node` gives. An impl that does not
    /// define it states nothing of its results.
    open spec fn node_converts(node: NodeModel, r: Result<Self, CyphrError>) -> bool {
        true
    }

    /// Read a node into `Self`.
    fn from_node(node: &Node) -> (r: Result<Self, CyphrError>)
        ensures
            Self::node_converts(node@, r),
    ;
}

/// Maps a graph relationship to a Rust struct.
pub trait CyphrRelation: Sized {
    /// The relationship type (e.g. `"FOLLOWS"`).
    const TYPE: &'static str;

    /// Optional label of the start node, for documentation.
    const FROM_LABEL: Option<&'static str>;

    /// Optional label of the end node, for documentation.
    const TO_LABEL: Option<&'static str>;

    /// Whether `r` is what reading `rel` gives. An impl that does not
    /// define it states nothing of its results.
    open spec fn rel_converts(rel: RelationModel, r: Result<Self, CyphrError>) -> bool {
        true
    }

    /// Read a relationship into `Self`.
    fn from_rel(rel: &Relation) -> (r: Result<Self, CyphrError>)
        ensures
            Self::rel_converts(rel@, r),
    ;
}

/// Maps a result row into a Rust struct by column name.
pub trait FromCyphr: Sized {
    /// Whether `r` is what reading `record` gives. An impl that does not
    /// define it states nothing of its results.
    open spec fn record_converts(record: Seq<(Seq<char>, ValueModel)>, r: Result<Self, CyphrError>) -> bool {
        true
    }

    /// Read a row into `Self`.
    fn from_record(record: &Row) -> (r: Result<Self, CyphrError>)
        ensures
            Self::record_converts(record@, r),
    ;
}

/// Converts a single value into a Rust type.
pub trait FromCyphrValue: Sized {
    /// Whether `r` is what converting `value` gives. An impl that does not
    /// define it states nothing of its results.
    open spec fn converts(value: ValueModel, r: Result<Self, CyphrError>) -> bool {
        true
    }

    /// Convert a value into `Self`.
    fn from_value(value: Value) -> (r: Result<Self, CyphrError>)
        ensures
            Self::converts(value@, r),
    ;
}

/// Converts a Rust value into a value, for use as a query parameter.
pub trait IntoCyphrValue: Sized {
    /// Whether `v` is the value that `self` converts into. An impl that
    /// does not define it states nothing of its result.
    open spec fn encodes(self, v: ValueModel) -> bool {
        true
    }

    /// Convert `self` into a value.
    fn into_value(self) -> (v: Value)
        ensures
            self.encodes(v@),
    ;
}

/// Converts a struct into named query parameters.
pub trait ToCyphrParams: Sized {
    /// Whether `m` is the parameter map that `self` converts into. An impl
    /// that does not define it states nothing of its result.
    open spec fn params_of(self, m: Seq<(Seq<char>, ValueModel)>) -> bool {
        true
    }

    /// Convert `self` into a map of parameter name to value.
    fn to_params(self) -> (m: StringMap<Value>)
        ensures
            self.params_of(m.model()),
    ;
}

/// Newtype wrapper for embedding a `CyphrNode` inside a row-mapping struct.
pub struct NodeWrapper<T>(pub T);

/// Newtype wrapper for embedding a `CyphrRelation` inside a row-mapping struct.
pub struct RelationWrapper<T>(pub T);

} // verus!
