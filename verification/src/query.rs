use vstd::prelude::*;

use crate::bolt::{
    lemma_lookup_push, lemma_model_keys_distinct, lemma_put_lookup, lookup, model_keys_distinct,
    put_model, StringMap, Value, ValueModel,
};
use crate::error::{CyphrError, is_missing_field};
use crate::record::Row;
use crate::traits::{FromCyphr, IntoCyphrValue, ToCyphrParams};

verus! {

/// A Cypher query: its text and its named parameters.
pub struct CyphrQuery {
    text: String,
    params: StringMap<Value>,
}

/// The parameters after binding each of `entries` in order.
pub open spec fn put_all(
    params: Seq<(Seq<char>, ValueModel)>,
    entries: Seq<(Seq<char>, ValueModel)>,
) -> Seq<(Seq<char>, ValueModel)>
    decreases entries.len(),
{
    if entries.len() == 0 {
        params
    } else {
        let rest = put_all(params, entries.drop_last());
        put_model(rest, entries.last().0, entries.last().1)
    }
}

/// Binding all of `entries` (distinct keys) over `params` (distinct keys):
/// each key of `entries` reads its value there, every other key reads what
/// it read in `params`, and no key occurs twice.
pub proof fn lemma_put_all_lookup(
    params: Seq<(Seq<char>, ValueModel)>,
    entries: Seq<(Seq<char>, ValueModel)>,
    k: Seq<char>,
)
    requires
        model_keys_distinct(params),
        model_keys_distinct(entries),
    ensures
        model_keys_distinct(put_all(params, entries)),
        lookup(put_all(params, entries), k) == (match lookup(entries, k) {
            Some(v) => Some(v),
            None => lookup(params, k),
        }),
    decreases entries.len(),
{
    if entries.len() > 0 {
        let init = entries.drop_last();
        let e = entries.last();
        assert(init.push(e) =~= entries);
        lemma_lookup_push(init, e, k);
        lemma_put_all_lookup(params, init, k);
        lemma_put_lookup(put_all(params, init), e.0, e.1, k);
    }
}

impl CyphrQuery {
    /// The query text.
    pub closed spec fn text_of(self) -> Seq<char> {
        self.text@
    }

    /// The bound parameters, in binding order of their first binding.
    pub closed spec fn params_of(self) -> Seq<(Seq<char>, ValueModel)> {
        self.params.model()
    }

    /// A new query from a Cypher string, with no parameters.
    pub fn new(query: &str) -> (q: Self)
        ensures
            q.text_of() == query@,
            q.params_of() == Seq::<(Seq<char>, ValueModel)>::empty(),
            model_keys_distinct(q.params_of()),
    {
        let params: StringMap<Value> = StringMap::new();
        assert(params.model() =~= Seq::<(Seq<char>, ValueModel)>::empty());
        CyphrQuery { text: query.to_string(), params }
    }

    /// Bind a named parameter; binding a name again replaces its value.
    /// The name then reads the bound value and every other name reads what
    /// it read before.
    pub fn param<V: IntoCyphrValue>(self, key: &str, value: V) -> (q: Self)
        ensures
            q.text_of() == self.text_of(),
            exists|v: ValueModel|
                #[trigger] value.encodes(v) && q.params_of() == put_model(self.params_of(), key@, v)
                    && lookup(q.params_of(), key@) == Some(v),
            forall|other: Seq<char>|
                other != key@ ==> #[trigger] lookup(q.params_of(), other) == lookup(
                    self.params_of(),
                    other,
                ),
            model_keys_distinct(q.params_of()),
    {
        let mut q = self;
        q.params.distinct_keys();
        proof {
            lemma_model_keys_distinct(q.params@);
        }
        let v = value.into_value();
        let ghost vm = v@;
        q.params.put_value(key.to_string(), v);
        proof {
            lemma_put_lookup(self.params_of(), key@, vm, key@);
            assert forall|other: Seq<char>| other != key@ implies #[trigger] lookup(
                q.params_of(),
                other,
            ) == lookup(self.params_of(), other) by {
                lemma_put_lookup(self.params_of(), key@, vm, other);
            }
        }
        q
    }

    /// Bind every parameter of `source`, in the order its map lists them.
    pub fn params_from<P: ToCyphrParams>(self, source: P) -> (q: Self)
        ensures
            q.text_of() == self.text_of(),
            exists|m: Seq<(Seq<char>, ValueModel)>|
                #[trigger] source.params_of(m) && model_keys_distinct(m) && q.params_of()
                    == put_all(self.params_of(), m) && forall|k: Seq<char>|
                    #[trigger] lookup(q.params_of(), k) == (match lookup(m, k) {
                        Some(v) => Some(v),
                        None => lookup(self.params_of(), k),
                    }),
            model_keys_distinct(q.params_of()),
    {
        let ghost old_params = self.params_of();
        self.params.distinct_keys();
        proof {
            lemma_model_keys_distinct(self.params@);
        }
        let map = source.to_params();
        let ghost m = map.model();
        map.distinct_keys();
        proof {
            lemma_model_keys_distinct(map@);
        }
        let entries = map.into_entries();
        proof {
            crate::bolt::lemma_entry_models(entries@);
        }
        let mut q = self;
        let ghost src = entries@;
        for entry in it: entries
            invariant
                it.seq() == src,
                m == crate::bolt::entry_models(src),
                m.len() == src.len(),
                forall|i: int| 0 <= i < src.len() ==> #[trigger] m[i] == (src[i].0@, src[i].1@),
                q.text_of() == self.text_of(),
                q.params_of() == put_all(old_params, m.take(it.index() as int)),
        {
            let ghost k = it.index();
            let (key, v) = entry;
            assert(m.take(k + 1).drop_last() =~= m.take(k as int));
            assert(m.take(k + 1).last() == m[k as int]);
            q.params.put_value(key, v);
        }
        assert(m.take(m.len() as int) =~= m);
        proof {
            assert forall|k: Seq<char>| #[trigger] lookup(q.params_of(), k) == (match lookup(m, k) {
                Some(v) => Some(v),
                None => lookup(old_params, k),
            }) by {
                lemma_put_all_lookup(old_params, m, k);
            }
            lemma_put_all_lookup(old_params, m, Seq::empty());
        }
        q
    }

    /// The query text.
    pub fn text(&self) -> (r: &str)
        ensures
            r@ == self.text_of(),
    {
        self.text.as_str()
    }

    /// The bound parameters, in order; the query is consumed.
    pub fn into_parts(self) -> (r: (String, StringMap<Value>))
        ensures
            r.0@ == self.text_of(),
            r.1.model() == self.params_of(),
    {
        (self.text, self.params)
    }
}

/// Convenience constructor, the same as `CyphrQuery::new`.
pub fn query(q: &str) -> (r: CyphrQuery)
    ensures
        r.text_of() == q@,
        r.params_of() == Seq::<(Seq<char>, ValueModel)>::empty(),
{
    CyphrQuery::new(q)
}

/// The row a query must return, read as `T`: no row at all is a
/// `MissingField` error for `"row"` naming `caller` (what `fetch_one`
/// does with the first row of its result).
pub fn one_row<T: FromCyphr>(row: Option<Row>, caller: &str) -> (r: Result<T, CyphrError>)
    ensures
        match row {
            None => r matches Err(e) && is_missing_field(e, "row"@, caller@),
            Some(x) => T::record_converts(x@, r),
        },
{
    match row {
        None => {
            proof { reveal_strlit("row"); }
            Err(CyphrError::missing_field("row", caller))
        },
        Some(x) => T::from_record(&x),
    }
}

/// The row a query may return, read as `T`: no row is `None` (what
/// `fetch_optional` does with the first row of its result).
pub fn optional_row<T: FromCyphr>(row: Option<Row>) -> (r: Result<Option<T>, CyphrError>)
    ensures
        match row {
            None => r == Ok::<Option<T>, CyphrError>(None),
            Some(x) => match r {
                Ok(Some(t)) => T::record_converts(x@, Ok(t)),
                Ok(None) => false,
                Err(e) => T::record_converts(x@, Err(e)),
            },
        },
{
    match row {
        None => Ok(None),
        Some(x) => match T::from_record(&x) {
            Ok(t) => Ok(Some(t)),
            Err(e) => Err(e),
        },
    }
}

/// One step of reading a result's rows into a vector: the row read as `T`
/// is appended, or on an error the vector is left as it was.
pub open spec fn row_pushed<T: FromCyphr>(
    before: Seq<T>,
    row: Seq<(Seq<char>, ValueModel)>,
    r: Result<(), CyphrError>,
    after: Seq<T>,
) -> bool {
    match r {
        Ok(_) => after.len() == before.len() + 1 && after.drop_last() == before
            && T::record_converts(row, Ok(after.last())),
        Err(e) => after == before && T::record_converts(row, Err(e)),
    }
}

/// Read one more row of a result into `out`; on an error `out` is left as
/// it was (what `fetch_all` does with each row, stopping at the first error).
pub fn push_row<T: FromCyphr>(out: &mut Vec<T>, row: &Row) -> (r: Result<(), CyphrError>)
    ensures
        row_pushed(old(out)@, row@, r, final(out)@),
{
    match T::from_record(row) {
        Ok(t) => {
            out.push(t);
            assert(out@.drop_last() =~= old(out)@);
            Ok(())
        },
        Err(e) => Err(e),
    }
}

/// `r` is what reading `rows` in order gives, as `fetch_all` reads them:
/// every row converted, in order; or, when the last row read does not
/// convert, its error after every earlier row converted.
pub open spec fn rows_read<T: FromCyphr>(
    rows: Seq<Seq<(Seq<char>, ValueModel)>>,
    r: Result<Seq<T>, CyphrError>,
) -> bool {
    match r {
        Ok(ys) => ys.len() == rows.len() && forall|i: int|
            0 <= i < rows.len() ==> T::record_converts(rows[i], Ok(#[trigger] ys[i])),
        Err(e) => rows.len() > 0 && T::record_converts(rows.last(), Err(e)) && exists|ys: Seq<T>|
            ys.len() == rows.len() - 1 && forall|i: int|
                0 <= i < ys.len() ==> T::record_converts(rows[i], Ok(#[trigger] ys[i])),
    }
}

/// Reading rows one `push_row` at a time is `fetch_all`: starting from no
/// rows and an empty vector, each step that succeeds extends the rows read
/// in order, and the first step that fails gives that row's error.
pub proof fn lemma_push_row_step<T: FromCyphr>(
    rows: Seq<Seq<(Seq<char>, ValueModel)>>,
    before: Seq<T>,
    row: Seq<(Seq<char>, ValueModel)>,
    r: Result<(), CyphrError>,
    after: Seq<T>,
)
    requires
        rows_read(rows, Ok::<Seq<T>, CyphrError>(before)),
        row_pushed(before, row, r, after),
    ensures
        rows_read(Seq::<Seq<(Seq<char>, ValueModel)>>::empty(), Ok::<Seq<T>, CyphrError>(Seq::empty())),
        match r {
            Ok(_) => rows_read(rows.push(row), Ok::<Seq<T>, CyphrError>(after)),
            Err(e) => rows_read(rows.push(row), Err::<Seq<T>, CyphrError>(e)),
        },
{
    let all = rows.push(row);
    match r {
        Ok(_) => {
            assert forall|i: int| 0 <= i < all.len() implies T::record_converts(
                all[i],
                Ok(#[trigger] after[i]),
            ) by {
                if i < rows.len() {
                    assert(after[i] == after.drop_last()[i]);
                }
            }
        },
        Err(e) => {
            assert(all.last() == row);
            assert forall|i: int| 0 <= i < before.len() implies T::record_converts(
                all[i],
                Ok(#[trigger] before[i]),
            ) by {
                assert(all[i] == rows[i]);
            }
        },
    }
}

/// `r` is what `fetch_all` gives for the rows a query returns: every row
/// converted, in the rows' order; or the error of the first row that does
/// not convert, every row before it having converted.
pub open spec fn all_rows_read<T: FromCyphr>(
    rows: Seq<Seq<(Seq<char>, ValueModel)>>,
    r: Result<Seq<T>, CyphrError>,
) -> bool {
    match r {
        Ok(ys) => rows_read(rows, Ok::<Seq<T>, CyphrError>(ys)),
        Err(e) => exists|j: int|
            0 <= j < rows.len() && #[trigger] rows_read(rows.take(j + 1), Err::<Seq<T>, CyphrError>(e)),
    }
}

proof fn lemma_collect_prefix<T: FromCyphr>(
    rows: Seq<Seq<(Seq<char>, ValueModel)>>,
    outs: Seq<Seq<T>>,
    results: Seq<Result<(), CyphrError>>,
    k: int,
)
    requires
        results.len() <= rows.len(),
        outs.len() == results.len() + 1,
        outs[0] == Seq::<T>::empty(),
        forall|i: int|
            0 <= i < results.len() ==> row_pushed(outs[i], rows[i], #[trigger] results[i], outs[i + 1]),
        0 <= k <= results.len(),
        forall|i: int| 0 <= i < k ==> #[trigger] results[i] is Ok,
    ensures
        rows_read(rows.take(k), Ok::<Seq<T>, CyphrError>(outs[k])),
    decreases k,
{
    if k > 0 {
        lemma_collect_prefix(rows, outs, results, k - 1);
        assert(results[k - 1] is Ok);
        lemma_push_row_step(rows.take(k - 1), outs[k - 1], rows[k - 1], results[k - 1], outs[k]);
        assert(rows.take(k - 1).push(rows[k - 1]) =~= rows.take(k));
    }
}

/// Folding `push_row` over the rows of a result from an empty vector, and
/// stopping at the first error, is `fetch_all`: the vector ends holding
/// every row's reading in order, or the run ends with the first failing
/// row's error.
pub proof fn lemma_collect_rows<T: FromCyphr>(
    rows: Seq<Seq<(Seq<char>, ValueModel)>>,
    outs: Seq<Seq<T>>,
    results: Seq<Result<(), CyphrError>>,
)
    requires
        results.len() <= rows.len(),
        outs.len() == results.len() + 1,
        outs[0] == Seq::<T>::empty(),
        forall|i: int|
            0 <= i < results.len() ==> row_pushed(outs[i], rows[i], #[trigger] results[i], outs[i + 1]),
        forall|i: int| 0 <= i < results.len() - 1 ==> #[trigger] results[i] is Ok,
        results.len() == rows.len() || (results.len() > 0 && results.last() is Err),
    ensures
        results.len() > 0 && results.last() is Err ==> all_rows_read(
            rows,
            Err::<Seq<T>, CyphrError>(results.last()->Err_0),
        ),
        !(results.len() > 0 && results.last() is Err) ==> all_rows_read(
            rows,
            Ok::<Seq<T>, CyphrError>(outs.last()),
        ),
{
    let m = results.len() as int;
    if m > 0 && results.last() is Err {
        lemma_collect_prefix(rows, outs, results, m - 1);
        assert(results[m - 1] == results.last());
        lemma_push_row_step(rows.take(m - 1), outs[m - 1], rows[m - 1], results[m - 1], outs[m]);
        assert(rows.take(m - 1).push(rows[m - 1]) =~= rows.take((m - 1) + 1));
    } else {
        assert forall|i: int| 0 <= i < m implies #[trigger] results[i] is Ok by {
            if i == m - 1 {
                assert(results[i] == results.last());
            }
        }
        lemma_collect_prefix(rows, outs, results, m);
        assert(rows.take(m) =~= rows);
    }
}

/// With distinct keys, each entry's key reads that entry's value.
pub proof fn lemma_lookup_at(s: Seq<(Seq<char>, ValueModel)>, i: int)
    requires
        model_keys_distinct(s),
        0 <= i < s.len(),
    ensures
        lookup(s, s[i].0) == Some(s[i].1),
{
    let j = choose|j: int| 0 <= j < s.len() && #[trigger] s[j].0 == s[i].0;
    if j != i {
        if j < i {
            assert(s[j].0 != s[i].0);
        } else {
            assert(s[i].0 != s[j].0);
        }
    }
}

/// Binding entries with distinct keys onto no parameters gives exactly
/// those entries, in order: their keys and no other, each with its value.
pub proof fn lemma_put_all_fresh(entries: Seq<(Seq<char>, ValueModel)>)
    requires
        model_keys_distinct(entries),
    ensures
        put_all(Seq::empty(), entries) == entries,
        forall|i: int| 0 <= i < entries.len() ==> lookup(put_all(Seq::empty(), entries), #[trigger] entries[i].0) == Some(entries[i].1),
        forall|k: Seq<char>|
            #[trigger] lookup(put_all(Seq::empty(), entries), k) is Some <==> exists|i: int|
                0 <= i < entries.len() && entries[i].0 == k,
    decreases entries.len(),
{
    if entries.len() > 0 {
        let init = entries.drop_last();
        let e = entries.last();
        assert(init.push(e) =~= entries);
        lemma_lookup_push(init, e, Seq::empty());
        lemma_put_all_fresh(init);
        assert(!exists|i: int| 0 <= i < init.len() && #[trigger] init[i].0 == e.0) by {
            if exists|i: int| 0 <= i < init.len() && #[trigger] init[i].0 == e.0 {
                let i = choose|i: int| 0 <= i < init.len() && #[trigger] init[i].0 == e.0;
                assert(entries[i].0 != entries[entries.len() - 1].0);
            }
        }
        assert(put_model(init, e.0, e.1) == entries);
    }
    assert forall|i: int| 0 <= i < entries.len() implies lookup(
        put_all(Seq::empty(), entries),
        #[trigger] entries[i].0,
    ) == Some(entries[i].1) by {
        lemma_lookup_at(entries, i);
    }
    assert forall|k: Seq<char>| #[trigger] lookup(put_all(Seq::empty(), entries), k) is Some <==> exists|i: int|
        0 <= i < entries.len() && entries[i].0 == k by {
        if exists|i: int| 0 <= i < entries.len() && entries[i].0 == k {
            let i = choose|i: int| 0 <= i < entries.len() && entries[i].0 == k;
            lemma_lookup_at(entries, i);
        }
    }
}

} // verus!
