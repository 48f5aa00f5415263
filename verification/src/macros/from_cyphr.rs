use vstd::prelude::*;

use crate::macros::meta::{
    any_item, find_any_item, shape_error, shape_error_text, Attr, DeriveInput, Field, Reader, Shape,
};

verus! {

/// Whether a row field is marked `#[cyphr(flatten)]`.
pub fn has_flatten(attrs: &Vec<Attr>) -> (r: bool)
    ensures
        r == any_item(attrs@, Reader::Flatten, "flatten"@),
{
    proof {
        reveal_strlit("flatten");
    }
    find_any_item(attrs, &Reader::Flatten, "flatten")
}

/// How a row field is read.
pub enum RowFieldKind {
    /// The whole row is read into the field's type.
    Flatten,
    /// A missing column gives `None`.
    Optional,
    /// A missing column is an error.
    Required,
}

/// A row-struct field and how it is read.
pub struct RowField {
    pub field: String,
    pub kind: RowFieldKind,
}

/// What `#[derive(FromCyphr)]` generates.
pub struct RecordPlan {
    pub struct_name: String,
    pub fields: Vec<RowField>,
}

/// How a row field is read: `flatten` first, else by whether its type is
/// an `Option`.
pub open spec fn row_kind(f: Field) -> RowFieldKind {
    if any_item(f.attrs@, Reader::Flatten, "flatten"@) {
        RowFieldKind::Flatten
    } else if f.type_head@ == "Option"@ {
        RowFieldKind::Optional
    } else {
        RowFieldKind::Required
    }
}

/// The expansion of `#[derive(FromCyphr)]`: each field and how it is read.
pub fn expand(input: &DeriveInput) -> (r: Result<RecordPlan, String>)
    ensures
        match input.shape {
            Shape::Named(fields) => r matches Ok(p) && p.struct_name@ == input.ident@
                && p.fields@.len() == fields@.len() && forall|i: int|
                0 <= i < fields@.len() ==> (#[trigger] p.fields@[i]).field@ == fields@[i].name@
                    && p.fields@[i].kind == row_kind(fields@[i]),
            _ => r matches Err(m) && m@ == shape_error("FromCyphr"@, input.shape),
        },
{
    match &input.shape {
        Shape::Named(fields) => {
            let mut out: Vec<RowField> = Vec::new();
            let n = fields.len();
            let mut i: usize = 0;
            while i < n
                invariant
                    n == fields@.len(),
                    i <= n,
                    out@.len() == i,
                    forall|j: int|
                        0 <= j < i ==> (#[trigger] out@[j]).field@ == fields@[j].name@
                            && out@[j].kind == row_kind(fields@[j]),
                decreases n - i,
            {
                let f = &fields[i];
                proof { reveal_strlit("Option"); }
                let kind = if has_flatten(&f.attrs) {
                    RowFieldKind::Flatten
                } else if f.type_head == "Option".to_string() {
                    RowFieldKind::Optional
                } else {
                    RowFieldKind::Required
                };
                out.push(RowField { field: f.name.clone(), kind });
                i = i + 1;
            }
            Ok(RecordPlan { struct_name: input.ident.clone(), fields: out })
        },
        other => {
            proof { reveal_strlit("FromCyphr"); }
            Err(shape_error_text("FromCyphr", other))
        },
    }
}

} // verus!
