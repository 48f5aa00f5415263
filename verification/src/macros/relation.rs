use vstd::prelude::*;

use crate::macros::meta::{
    field_prop, find_last_meta, last_meta, prop_fields, shape_error, shape_error_text, Attr,
    DeriveInput, PropField, Reader, Shape,
};

verus! {

/// Type, start label and end label of a relationship struct: the `type`,
/// `from` and `to` attributes; the type defaults to the struct's name.
pub fn get_rel_meta(attrs: &Vec<Attr>, ident: &str) -> (r: (String, Option<String>, Option<String>))
    ensures
        r.0@ == (match last_meta(attrs@, Reader::RelMeta, "type"@) {
            Some(t) => t,
            None => ident@,
        }),
        match r.1 {
            Some(f) => last_meta(attrs@, Reader::RelMeta, "from"@) == Some(f@),
            None => last_meta(attrs@, Reader::RelMeta, "from"@) is None,
        },
        match r.2 {
            Some(t) => last_meta(attrs@, Reader::RelMeta, "to"@) == Some(t@),
            None => last_meta(attrs@, Reader::RelMeta, "to"@) is None,
        },
{
    proof {
        reveal_strlit("type");
        reveal_strlit("from");
        reveal_strlit("to");
    }
    let rel_type = find_last_meta(attrs, &Reader::RelMeta, "type");
    let from = find_last_meta(attrs, &Reader::RelMeta, "from");
    let to = find_last_meta(attrs, &Reader::RelMeta, "to");
    let ty = match rel_type {
        Some(t) => t,
        None => ident.to_string(),
    };
    (ty, from, to)
}

/// What `#[derive(CyphrRelation)]` generates.
pub struct RelPlan {
    /// The struct's name, which field-error contexts name.
    pub struct_name: String,
    pub rel_type: String,
    pub from_label: Option<String>,
    pub to_label: Option<String>,
    pub fields: Vec<PropField>,
}

/// The expansion of `#[derive(CyphrRelation)]`: type, end labels and each
/// field's property; an error for anything but a struct with named fields.
pub fn expand(input: &DeriveInput) -> (r: Result<RelPlan, String>)
    ensures
        match input.shape {
            Shape::Named(fields) => r matches Ok(p) && p.struct_name@ == input.ident@ && p.rel_type@ == (match last_meta(
                input.attrs@,
                Reader::RelMeta,
                "type"@,
            ) {
                Some(t) => t,
                None => input.ident@,
            }) && (match p.from_label {
                Some(f) => last_meta(input.attrs@, Reader::RelMeta, "from"@) == Some(f@),
                None => last_meta(input.attrs@, Reader::RelMeta, "from"@) is None,
            }) && (match p.to_label {
                Some(t) => last_meta(input.attrs@, Reader::RelMeta, "to"@) == Some(t@),
                None => last_meta(input.attrs@, Reader::RelMeta, "to"@) is None,
            }) && p.fields@.len() == fields@.len() && forall|i: int|
                0 <= i < fields@.len() ==> (#[trigger] p.fields@[i]).field@ == fields@[i].name@
                    && p.fields@[i].prop@ == field_prop(fields@[i]),
            _ => r matches Err(m) && m@ == shape_error("CyphrRelation"@, input.shape),
        },
{
    match &input.shape {
        Shape::Named(fields) => {
            let (rel_type, from_label, to_label) = get_rel_meta(&input.attrs, input.ident.as_str());
            Ok(RelPlan { struct_name: input.ident.clone(), rel_type, from_label, to_label, fields: prop_fields(fields) })
        },
        other => {
            proof { reveal_strlit("CyphrRelation"); }
            Err(shape_error_text("CyphrRelation", other))
        },
    }
}

} // verus!
