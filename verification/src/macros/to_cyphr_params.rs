use vstd::prelude::*;

use crate::bolt::{lookup, ValueModel};
use crate::query::{lemma_put_all_fresh, put_all};

use crate::macros::meta::{
    any_item, field_prop, find_any_item, last_meta, prop_key, shape_error, shape_error_text, Attr,
    DeriveInput, Field, Reader, Shape,
};

verus! {

/// How a field takes part in a parameter map: its name, its parameter
/// key, and whether it is left out.
pub struct FieldInfo {
    pub ident: String,
    pub prop_key: String,
    pub skip: bool,
}

/// A field's parameter settings: `skip` or `id` leave it out, `prop`
/// renames its key.
pub fn parse_field(attrs: &Vec<Attr>, ident: &str) -> (r: FieldInfo)
    ensures
        r.ident@ == ident@,
        r.prop_key@ == (match last_meta(attrs@, Reader::Prop, "prop"@) {
            Some(p) => p,
            None => ident@,
        }),
        r.skip == (any_item(attrs@, Reader::Prop, "skip"@) || any_item(attrs@, Reader::Prop, "id"@)),
{
    proof {
        reveal_strlit("skip");
        reveal_strlit("id");
    }
    let skip = find_any_item(attrs, &Reader::Prop, "skip") || find_any_item(attrs, &Reader::Prop, "id");
    FieldInfo { ident: ident.to_string(), prop_key: prop_key(attrs, ident), skip }
}

/// A parameter bound from a field: the field and its key.
pub struct ParamField {
    pub field: String,
    pub key: String,
}

/// Whether a field is left out of the parameter map (`skip` or `id`).
pub open spec fn param_skipped(f: Field) -> bool {
    any_item(f.attrs@, Reader::Prop, "skip"@) || any_item(f.attrs@, Reader::Prop, "id"@)
}

/// The fields kept in a parameter map, in order, with their keys.
pub open spec fn kept_params(fields: Seq<Field>) -> Seq<(Seq<char>, Seq<char>)>
    decreases fields.len(),
{
    if fields.len() == 0 {
        Seq::empty()
    } else {
        let rest = kept_params(fields.drop_last());
        let f = fields.last();
        if param_skipped(f) {
            rest
        } else {
            rest.push((f.name@, field_prop(f)))
        }
    }
}

/// The expansion of `#[derive(ToCyphrParams)]`: the fields that are not
/// skipped, in order, each with its key.
pub fn expand(input: &DeriveInput) -> (r: Result<Vec<ParamField>, String>)
    ensures
        match input.shape {
            Shape::Named(fields) => r matches Ok(ps) && ps@.map_values(
                |p: ParamField| (p.field@, p.key@),
            ) == kept_params(fields@),
            _ => r matches Err(m) && m@ == shape_error("ToCyphrParams"@, input.shape),
        },
{
    match &input.shape {
        Shape::Named(fields) => {
            let mut out: Vec<ParamField> = Vec::new();
            let n = fields.len();
            let mut i: usize = 0;
            while i < n
                invariant
                    n == fields@.len(),
                    i <= n,
                    out@.map_values(|p: ParamField| (p.field@, p.key@)) == kept_params(
                        fields@.take(i as int),
                    ),
                decreases n - i,
            {
                let f = &fields[i];
                let info = parse_field(&f.attrs, f.name.as_str());
                assert(fields@.take(i + 1).drop_last() =~= fields@.take(i as int));
                assert(fields@.take(i + 1).last() == fields@[i as int]);
                if !info.skip {
                    let ghost before = out@;
                    out.push(ParamField { field: info.ident, key: info.prop_key });
                    assert(out@.map_values(|p: ParamField| (p.field@, p.key@)) =~= before.map_values(
                        |p: ParamField| (p.field@, p.key@),
                    ).push((f.name@, field_prop(*f))));
                }
                i = i + 1;
            }
            assert(fields@.take(n as int) =~= fields@);
            Ok(out)
        },
        other => {
            proof { reveal_strlit("ToCyphrParams"); }
            Err(shape_error_text("ToCyphrParams", other))
        },
    }
}

/// The entries bound for a parameter plan: each kept field's key with the
/// value its field encodes to.
pub open spec fn bound_params(
    plan: Seq<(Seq<char>, Seq<char>)>,
    values: Seq<ValueModel>,
) -> Seq<(Seq<char>, ValueModel)> {
    Seq::new(plan.len(), |i: int| (plan[i].1, values[i]))
}

/// Binding the kept fields of a struct with `param`, each under its key with
/// its field's encoding, gives a map whose keys are exactly the plan's keys,
/// each holding its field's value (the keys of the kept fields being
/// distinct).
pub proof fn lemma_params_bind(fields: Seq<Field>, values: Seq<ValueModel>)
    requires
        values.len() == kept_params(fields).len(),
        forall|i: int, j: int|
            0 <= i < j < kept_params(fields).len() ==> #[trigger] kept_params(fields)[i].1
                != #[trigger] kept_params(fields)[j].1,
    ensures
        forall|i: int|
            0 <= i < kept_params(fields).len() ==> lookup(
                put_all(Seq::empty(), bound_params(kept_params(fields), values)),
                #[trigger] kept_params(fields)[i].1,
            ) == Some(values[i]),
        forall|k: Seq<char>|
            #[trigger] lookup(put_all(Seq::empty(), bound_params(kept_params(fields), values)), k)
                is Some <==> exists|i: int| 0 <= i < kept_params(fields).len() && kept_params(fields)[i].1 == k,
{
    let plan = kept_params(fields);
    let b = bound_params(plan, values);
    assert forall|i: int, j: int| 0 <= i < j < b.len() implies #[trigger] b[i].0 != #[trigger] b[j].0 by {
        assert(b[i].0 == plan[i].1 && b[j].0 == plan[j].1);
    }
    lemma_put_all_fresh(b);
    assert forall|i: int| 0 <= i < plan.len() implies lookup(put_all(Seq::empty(), b), #[trigger] plan[i].1)
        == Some(values[i]) by {
        assert(b[i] == (plan[i].1, values[i]));
    }
    assert forall|k: Seq<char>| #[trigger] lookup(put_all(Seq::empty(), b), k) is Some <==> exists|i: int|
        0 <= i < plan.len() && plan[i].1 == k by {
        if exists|i: int| 0 <= i < plan.len() && plan[i].1 == k {
            let i = choose|i: int| 0 <= i < plan.len() && plan[i].1 == k;
            assert(b[i].0 == k);
        }
        if exists|i: int| 0 <= i < b.len() && b[i].0 == k {
            let i = choose|i: int| 0 <= i < b.len() && b[i].0 == k;
            assert(plan[i].1 == k);
        }
    }
}

} // verus!
