use vstd::prelude::*;

use crate::bolt::{
    lemma_model_keys_distinct, lemma_models, lemma_put_lookup, lookup, model_keys_distinct, models, put_model, StringMap, Value,
    ValueModel,
};

verus! {

/// A result row: column names mapped to values.
pub struct Row {
    attributes: StringMap<Value>,
}

impl View for Row {
    type V = Seq<(Seq<char>, ValueModel)>;

    closed spec fn view(&self) -> Seq<(Seq<char>, ValueModel)> {
        self.attributes.model()
    }
}

/// The columns of a row built from `fields` and `data`: each string field
/// paired with the value at the same position, later duplicates replacing
/// earlier ones; non-string fields and unpaired entries are dropped.
pub open spec fn row_model(fields: Seq<ValueModel>, data: Seq<ValueModel>) -> Seq<(Seq<char>, ValueModel)> {
    row_prefix(fields, data, if fields.len() < data.len() { fields.len() } else { data.len() })
}

/// The columns from the first `n` (field, value) pairs.
pub open spec fn row_prefix(fields: Seq<ValueModel>, data: Seq<ValueModel>, n: nat) -> Seq<
    (Seq<char>, ValueModel),
>
    decreases n,
{
    if n == 0 {
        Seq::empty()
    } else {
        let rest = row_prefix(fields, data, (n - 1) as nat);
        match fields[n - 1] {
            ValueModel::String(k) => put_model(rest, k, data[n - 1]),
            _ => rest,
        }
    }
}

proof fn lemma_row_prefix_distinct(fields: Seq<ValueModel>, data: Seq<ValueModel>, n: nat)
    ensures
        model_keys_distinct(row_prefix(fields, data, n)),
    decreases n,
{
    if n > 0 {
        lemma_row_prefix_distinct(fields, data, (n - 1) as nat);
        let rest = row_prefix(fields, data, (n - 1) as nat);
        if let ValueModel::String(k) = fields[n - 1] {
            lemma_put_lookup(rest, k, data[n - 1], k);
        }
    }
}

/// No column name occurs twice in a row, so `lookup` reads the one column
/// of a name.
pub proof fn lemma_row_columns_distinct(fields: Seq<ValueModel>, data: Seq<ValueModel>)
    ensures
        model_keys_distinct(row_model(fields, data)),
{
    lemma_row_prefix_distinct(
        fields,
        data,
        if fields.len() < data.len() { fields.len() } else { data.len() },
    );
}

impl Row {
    /// Every row, however it was built, has no column name twice.
    pub fn columns_distinct(&self)
        ensures
            model_keys_distinct(self@),
    {
        self.attributes.distinct_keys();
        proof {
            lemma_model_keys_distinct(self.attributes@);
        }
    }

    /// A row from column names and values, paired by position.
    pub fn new(fields: Vec<Value>, data: Vec<Value>) -> (r: Row)
        ensures
            r@ == row_model(models(fields@), models(data@)),
    {
        let ghost fs = fields@;
        let ghost ds = data@;
        proof {
            lemma_models(fs);
            lemma_models(ds);
        }
        let n = if fields.len() < data.len() {
            fields.len()
        } else {
            data.len()
        };
        let mut attributes: StringMap<Value> = StringMap::new();
        let mut fields = fields;
        let mut data = data;
        let mut i: usize = 0;
        while i < n
            invariant
                fs == fields@,
                models(fs).len() == fs.len(),
                models(ds).len() == ds.len(),
                forall|j: int| 0 <= j < fs.len() ==> #[trigger] models(fs)[j] == fs[j]@,
                forall|j: int| 0 <= j < ds.len() ==> #[trigger] models(ds)[j] == ds[j]@,
                n <= fs.len(),
                n <= ds.len(),
                n == if fs.len() < ds.len() { fs.len() } else { ds.len() },
                i <= n,
                data@.len() == ds.len() - i,
                forall|j: int| 0 <= j < data@.len() ==> #[trigger] data@[j] == ds[j + i],
                attributes.model() == row_prefix(models(fs), models(ds), i as nat),
            decreases n - i,
        {
            let v = data.remove(0);
            assert(v == ds[i as int]);
            assert(models(ds)[i as int] == v@);
            assert(models(fs)[i as int] == fs[i as int]@);
            match &fields[i] {
                Value::String(k) => {
                    attributes.put_value(k.clone(), v);
                },
                _ => {},
            }
            i = i + 1;
        }
        Row { attributes }
    }
}

/// Read a value from a row by column name; `None` if the column does not exist.
pub fn get_value(record: &Row, key: &str) -> (r: Option<Value>)
    ensures
        match r {
            Some(v) => lookup(record@, key@) == Some(v@),
            None => lookup(record@, key@) is None,
        },
{
    record.attributes.get_value(key)
}

/// Whether a column exists in the row.
pub fn has_key(record: &Row, key: &str) -> (r: bool)
    ensures
        r == lookup(record@, key@) is Some,
{
    get_value(record, key).is_some()
}

} // verus!
