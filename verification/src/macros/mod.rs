//! The decisions behind the crate's derives and Cypher macros, as
//! functions: what each expansion generates from its input.

pub mod cypher;
pub mod cypher_query;
pub mod from_cyphr;
pub mod meta;
pub mod node;
pub mod relation;
pub mod to_cyphr_params;

use vstd::prelude::*;

use crate::macros::cypher::{cypher_text, Piece};
use crate::macros::cypher_query::{add_names, occurrences, query_text, texts, QueryPlan, Token};
use crate::macros::from_cyphr::{row_kind, RecordPlan};
use crate::macros::meta::{field_prop, last_meta, shape_error, DeriveInput, Reader, Shape};
use crate::macros::node::{label_from, NodePlan};
use crate::macros::relation::RelPlan;
use crate::macros::to_cyphr_params::{kept_params, ParamField};

verus! {

/// `#[derive(CyphrNode)]`: the node mapping of a struct.
pub fn cyphr_node(input: &DeriveInput) -> (r: Result<NodePlan, String>)
    ensures
        match input.shape {
            Shape::Named(fields) => r matches Ok(p) && p.struct_name@ == input.ident@ && p.label@ == label_from(input.attrs@, input.ident@)
                && p.fields@.len() == fields@.len() && forall|i: int|
                0 <= i < fields@.len() ==> (#[trigger] p.fields@[i]).field@ == fields@[i].name@
                    && p.fields@[i].prop@ == field_prop(fields@[i]),
            _ => r matches Err(m) && m@ == shape_error("CyphrNode"@, input.shape),
        },
{
    node::expand(input)
}

/// `#[derive(CyphrRelation)]`: the relationship mapping of a struct.
pub fn cyphr_relation(input: &DeriveInput) -> (r: Result<RelPlan, String>)
    ensures
        match input.shape {
            Shape::Named(fields) => r matches Ok(p) && p.struct_name@ == input.ident@ && p.rel_type@ == (match last_meta(
                input.attrs@,
                Reader::RelMeta,
                "type"@,
            ) {
                Some(t) => t,
                None => input.ident@,
            }) && (match p.from_label {
                Some(f) => last_meta(input.attrs@, Reader::RelMeta, "from"@) == Some(f@),
                None => last_meta(input.attrs@, Reader::RelMeta, "from"@) is None,
            }) && (match p.to_label {
                Some(t) => last_meta(input.attrs@, Reader::RelMeta, "to"@) == Some(t@),
                None => last_meta(input.attrs@, Reader::RelMeta, "to"@) is None,
            }) && p.fields@.len() == fields@.len() && forall|i: int|
                0 <= i < fields@.len() ==> (#[trigger] p.fields@[i]).field@ == fields@[i].name@
                    && p.fields@[i].prop@ == field_prop(fields@[i]),
            _ => r matches Err(m) && m@ == shape_error("CyphrRelation"@, input.shape),
        },
{
    relation::expand(input)
}

/// `#[derive(FromCyphr)]`: the row mapping of a struct.
pub fn from_cyphr(input: &DeriveInput) -> (r: Result<RecordPlan, String>)
    ensures
        match input.shape {
            Shape::Named(fields) => r matches Ok(p) && p.struct_name@ == input.ident@
                && p.fields@.len() == fields@.len() && forall|i: int|
                0 <= i < fields@.len() ==> (#[trigger] p.fields@[i]).field@ == fields@[i].name@
                    && p.fields@[i].kind == row_kind(fields@[i]),
            _ => r matches Err(m) && m@ == shape_error("FromCyphr"@, input.shape),
        },
{
    from_cyphr::expand(input)
}

/// `#[derive(ToCyphrParams)]`: the parameter fields of a struct.
pub fn to_cyphr_params(input: &DeriveInput) -> (r: Result<Vec<ParamField>, String>)
    ensures
        match input.shape {
            Shape::Named(fields) => r matches Ok(ps) && ps@.map_values(
                |p: ParamField| (p.field@, p.key@),
            ) == kept_params(fields@),
            _ => r matches Err(m) && m@ == shape_error("ToCyphrParams"@, input.shape),
        },
{
    to_cyphr_params::expand(input)
}

/// `cypher!`: the query string of a Cypher block, from the pieces of its
/// text; literal pieces are kept as written.
pub fn cypher(pieces: &Vec<Piece>) -> (r: String)
    ensures
        r@ == cypher_text(pieces@),
{
    cypher::expand(pieces)
}

/// `cypher_query!`: the query text and parameters of a Cypher token block.
pub fn cypher_query(pieces: &Vec<Piece>, tokens: &Vec<Token>) -> (r: QueryPlan)
    ensures
        r.text@ == query_text(pieces@),
        texts(r.params@) == add_names(Seq::empty(), occurrences(tokens@)),
        texts(r.params@).no_duplicates(),
        forall|x: Seq<char>| #[trigger] texts(r.params@).contains(x) <==> occurrences(tokens@).contains(x),
{
    cypher_query::expand(pieces, tokens)
}

} // verus!
