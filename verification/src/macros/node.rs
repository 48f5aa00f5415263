use vstd::prelude::*;

use crate::macros::meta::{
    applied_len, field_prop, find_last_str, is_cyphr, is_cyphr_attr, applied_count, last_str,
    prop_fields, shape_error, shape_error_text, Attr, DeriveInput, PropField, Reader, Shape,
};

verus! {

/// The label a node struct's attributes give: the last `label = "..."`
/// of the first `cyphr` attribute that has one, else the struct's name.
pub open spec fn label_from(attrs: Seq<Attr>, ident: Seq<char>) -> Seq<char>
    decreases attrs.len(),
{
    if attrs.len() == 0 {
        ident
    } else {
        let a = attrs[0];
        let found = if is_cyphr(a) {
            last_str(a.items@, applied_len(a.items@, Reader::Label), "label"@)
        } else {
            None
        };
        match found {
            Some(l) => l,
            None => label_from(attrs.drop_first(), ident),
        }
    }
}

/// The label of a node struct: the `label` attribute, defaulting to the
/// struct's name.
pub fn get_label(attrs: &Vec<Attr>, ident: &str) -> (r: String)
    ensures
        r@ == label_from(attrs@, ident@),
{
    let n = attrs.len();
    let mut i: usize = 0;
    assert(attrs@.skip(0) =~= attrs@);
    while i < n
        invariant
            n == attrs@.len(),
            i <= n,
            label_from(attrs@, ident@) == label_from(attrs@.skip(i as int), ident@),
        decreases n - i,
    {
        let ghost s = attrs@.skip(i as int);
        assert(s.drop_first() =~= attrs@.skip(i + 1));
        assert(s[0] == attrs@[i as int]);
        let a = &attrs[i];
        if is_cyphr_attr(a) {
            let m = applied_count(&a.items, &Reader::Label);
            match find_last_str(&a.items, m, "label") {
                Some(l) => {
                    proof { reveal_strlit("label"); }
                    return l;
                },
                None => {
                    proof { reveal_strlit("label"); }
                },
            }
        }
        i = i + 1;
    }
    assert(attrs@.skip(n as int) =~= Seq::<Attr>::empty());
    ident.to_string()
}

/// What `#[derive(CyphrNode)]` generates: the label and, per field, the
/// property it is read from.
pub struct NodePlan {
    /// The struct's name, which field-error contexts name.
    pub struct_name: String,
    pub label: String,
    pub fields: Vec<PropField>,
}

/// The expansion of `#[derive(CyphrNode)]`: the label from `label` (or
/// the struct's name) and each field's property; an error for anything
/// but a struct with named fields.
pub fn expand(input: &DeriveInput) -> (r: Result<NodePlan, String>)
    ensures
        match input.shape {
            Shape::Named(fields) => r matches Ok(p) && p.struct_name@ == input.ident@ && p.label@ == label_from(input.attrs@, input.ident@)
                && p.fields@.len() == fields@.len() && forall|i: int|
                0 <= i < fields@.len() ==> (#[trigger] p.fields@[i]).field@ == fields@[i].name@
                    && p.fields@[i].prop@ == field_prop(fields@[i]),
            _ => r matches Err(m) && m@ == shape_error("CyphrNode"@, input.shape),
        },
{
    match &input.shape {
        Shape::Named(fields) => {
            let label = get_label(&input.attrs, input.ident.as_str());
            Ok(NodePlan { struct_name: input.ident.clone(), label, fields: prop_fields(fields) })
        },
        other => {
            proof { reveal_strlit("CyphrNode"); }
            Err(shape_error_text("CyphrNode", other))
        },
    }
}

} // verus!
