use vstd::prelude::*;

use crate::value::{Point2D, Point3D};

verus! {

/// A bolt protocol value, as the driver hands it over.
///
/// Scalars, collections, graph elements and spatial points are held as
/// plain values; a float is held by its IEEE-754 bit pattern
/// (`f64::to_bits`). Temporal values keep the driver's own types.
#[derive(Debug)]
pub enum Value {
    String(String),
    Boolean(bool),
    Dict(StringMap<Value>),
    Null,
    Integer(i64),
    /// The IEEE-754 bit pattern of a 64-bit float.
    Float(u64),
    List(Vec<Value>),
    Node(Node),
    Relation(Relation),
    UnboundedRelation(UnboundedRelation),
    Point2D(Point2D),
    Point3D(Point3D),
    Bytes(Vec<u8>),
    Path(Path),
    Duration(neo4rs::BoltDuration),
    Date(neo4rs::BoltDate),
    Time(neo4rs::BoltTime),
    LocalTime(neo4rs::BoltLocalTime),
    DateTime(neo4rs::BoltDateTime),
    LocalDateTime(neo4rs::BoltLocalDateTime),
    DateTimeZoneId(neo4rs::BoltDateTimeZoneId),
}


/// The mathematical content of a value: strings as character sequences,
/// lists and maps as sequences of models. Two values with the same model
/// are the same bolt value.
pub enum ValueModel {
    String(Seq<char>),
    Boolean(bool),
    Dict(Seq<(Seq<char>, ValueModel)>),
    Null,
    Integer(i64),
    Float(u64),
    List(Seq<ValueModel>),
    Node(NodeModel),
    Relation(RelationModel),
    UnboundedRelation(UnboundedRelationModel),
    Point2D(Point2D),
    Point3D(Point3D),
    Bytes(Seq<u8>),
    Path(PathModel),
    Duration(neo4rs::BoltDuration),
    Date(neo4rs::BoltDate),
    Time(neo4rs::BoltTime),
    LocalTime(neo4rs::BoltLocalTime),
    DateTime(neo4rs::BoltDateTime),
    LocalDateTime(neo4rs::BoltLocalDateTime),
    DateTimeZoneId(neo4rs::BoltDateTimeZoneId),
}

/// The content of a node.
pub struct NodeModel {
    pub id: i64,
    pub labels: Seq<Seq<char>>,
    pub properties: Seq<(Seq<char>, ValueModel)>,
}

/// The content of a relationship.
pub struct RelationModel {
    pub id: i64,
    pub start_node_id: i64,
    pub end_node_id: i64,
    pub typ: Seq<char>,
    pub properties: Seq<(Seq<char>, ValueModel)>,
}

/// The content of an unbounded relationship.
pub struct UnboundedRelationModel {
    pub id: i64,
    pub typ: Seq<char>,
    pub properties: Seq<(Seq<char>, ValueModel)>,
}

/// The content of a path.
pub struct PathModel {
    pub nodes: Seq<ValueModel>,
    pub rels: Seq<ValueModel>,
    pub indices: Seq<ValueModel>,
}

/// The models of a sequence of values.
pub open spec fn models(s: Seq<Value>) -> Seq<ValueModel>
    decreases s,
{
    if s.len() == 0 {
        Seq::empty()
    } else {
        models(s.drop_last()).push(model_of(s.last()))
    }
}

/// The models of a sequence of entries, keys by their text.
pub open spec fn entry_models(s: Seq<(String, Value)>) -> Seq<(Seq<char>, ValueModel)>
    decreases s,
{
    if s.len() == 0 {
        Seq::empty()
    } else {
        entry_models(s.drop_last()).push((s.last().0@, model_of(s.last().1)))
    }
}

/// The value under key `k` in a sequence of (key, value) pairs with distinct
/// keys, if any.
pub open spec fn lookup<V>(s: Seq<(Seq<char>, V)>, k: Seq<char>) -> Option<V> {
    if exists|i: int| 0 <= i < s.len() && #[trigger] s[i].0 == k {
        Some(s[choose|i: int| 0 <= i < s.len() && #[trigger] s[i].0 == k].1)
    } else {
        None
    }
}

/// `s` with `v` under `k`: the entry for `k` updated in place, or a new
/// entry appended (the model of `StringMap::put`).
pub open spec fn put_model<V>(s: Seq<(Seq<char>, V)>, k: Seq<char>, v: V) -> Seq<(Seq<char>, V)> {
    if exists|i: int| 0 <= i < s.len() && #[trigger] s[i].0 == k {
        s.update(choose|i: int| 0 <= i < s.len() && #[trigger] s[i].0 == k, (k, v))
    } else {
        s.push((k, v))
    }
}

/// Binding a key and reading it back: after `put_model(s, k, v)` the key
/// `k` reads `v`, every other key reads what it read before, and no key
/// occurs twice.
pub proof fn lemma_put_lookup<V>(s: Seq<(Seq<char>, V)>, k: Seq<char>, v: V, other: Seq<char>)
    requires
        model_keys_distinct(s),
    ensures
        lookup(put_model(s, k, v), k) == Some(v),
        other != k ==> lookup(put_model(s, k, v), other) == lookup(s, other),
        model_keys_distinct(put_model(s, k, v)),
{
    let t = put_model(s, k, v);
    if exists|i: int| 0 <= i < s.len() && #[trigger] s[i].0 == k {
        let i = choose|i: int| 0 <= i < s.len() && #[trigger] s[i].0 == k;
        assert(t[i].0 == k);
        let j = choose|j: int| 0 <= j < t.len() && #[trigger] t[j].0 == k;
        assert(j == i) by {
            if j != i {
                assert(t[j] == s[j]);
                if j < i {
                    assert(s[j].0 != s[i].0);
                } else {
                    assert(s[i].0 != s[j].0);
                }
            }
        }
        assert forall|a: int, b: int| 0 <= a < b < t.len() implies #[trigger] t[a].0 != #[trigger] t[b].0 by {
            if a != i {
                assert(t[a] == s[a]);
            }
            if b != i {
                assert(t[b] == s[b]);
            }
        }
        if other != k {
            if exists|m: int| 0 <= m < s.len() && #[trigger] s[m].0 == other {
                let m = choose|m: int| 0 <= m < s.len() && #[trigger] s[m].0 == other;
                assert(m != i);
                assert(t[m] == s[m]);
                let n = choose|n: int| 0 <= n < t.len() && #[trigger] t[n].0 == other;
                assert(n != i);
                assert(t[n] == s[n]);
                assert(n == m) by {
                    if n < m {
                        assert(s[n].0 != s[m].0);
                    } else if n > m {
                        assert(s[m].0 != s[n].0);
                    }
                }
            } else {
                assert forall|n: int| 0 <= n < t.len() implies #[trigger] t[n].0 != other by {
                    if n != i {
                        assert(t[n] == s[n]);
                    }
                }
            }
        }
    } else {
        assert(t[s.len() as int].0 == k);
        let j = choose|j: int| 0 <= j < t.len() && #[trigger] t[j].0 == k;
        assert(j == s.len()) by {
            if j < s.len() {
                assert(t[j] == s[j]);
            }
        }
        assert forall|a: int, b: int| 0 <= a < b < t.len() implies #[trigger] t[a].0 != #[trigger] t[b].0 by {
            assert(t[a] == s[a]);
            if b < s.len() {
                assert(t[b] == s[b]);
            }
        }
        if other != k {
            if exists|m: int| 0 <= m < s.len() && #[trigger] s[m].0 == other {
                let m = choose|m: int| 0 <= m < s.len() && #[trigger] s[m].0 == other;
                assert(t[m] == s[m]);
                let n = choose|n: int| 0 <= n < t.len() && #[trigger] t[n].0 == other;
                assert(n < s.len());
                assert(t[n] == s[n]);
                assert(n == m) by {
                    if n < m {
                        assert(s[n].0 != s[m].0);
                    } else if n > m {
                        assert(s[m].0 != s[n].0);
                    }
                }
            } else {
                assert forall|n: int| 0 <= n < t.len() implies #[trigger] t[n].0 != other by {
                    if n < s.len() {
                        assert(t[n] == s[n]);
                    }
                }
            }
        }
    }
}

/// Appending an entry with a new key: that key reads the entry's value,
/// every other key reads what it read before.
pub proof fn lemma_lookup_push<V>(s: Seq<(Seq<char>, V)>, e: (Seq<char>, V), k: Seq<char>)
    requires
        model_keys_distinct(s.push(e)),
    ensures
        model_keys_distinct(s),
        lookup(s.push(e), k) == (if e.0 == k {
            Some(e.1)
        } else {
            lookup(s, k)
        }),
{
    let t = s.push(e);
    assert forall|i: int, j: int| 0 <= i < j < s.len() implies #[trigger] s[i].0 != #[trigger] s[j].0 by {
        assert(t[i] == s[i] && t[j] == s[j]);
    }
    assert(!exists|i: int| 0 <= i < s.len() && #[trigger] s[i].0 == e.0) by {
        if exists|i: int| 0 <= i < s.len() && #[trigger] s[i].0 == e.0 {
            let i = choose|i: int| 0 <= i < s.len() && #[trigger] s[i].0 == e.0;
            assert(t[i].0 != t[s.len() as int].0);
        }
    }
    assert(put_model(s, e.0, e.1) == t);
    lemma_put_lookup(s, e.0, e.1, k);
}

/// No key occurs twice in a sequence of (key, value) pairs.
pub open spec fn model_keys_distinct<V>(s: Seq<(Seq<char>, V)>) -> bool {
    forall|i: int, j: int| 0 <= i < j < s.len() ==> #[trigger] s[i].0 != #[trigger] s[j].0
}

/// The model of a node.
pub open spec fn node_model(n: Node) -> NodeModel
    decreases n,
{
    NodeModel {
        id: n.id,
        labels: n.labels@.map_values(|l: String| l@),
        properties: entry_models(n.properties@),
    }
}

/// The model of a relationship.
pub open spec fn relation_model(r: Relation) -> RelationModel
    decreases r,
{
    RelationModel {
        id: r.id,
        start_node_id: r.start_node_id,
        end_node_id: r.end_node_id,
        typ: r.typ@,
        properties: entry_models(r.properties@),
    }
}

/// The model of an unbounded relationship.
pub open spec fn unbounded_model(r: UnboundedRelation) -> UnboundedRelationModel
    decreases r,
{
    UnboundedRelationModel { id: r.id, typ: r.typ@, properties: entry_models(r.properties@) }
}

impl StringMap<Value> {
    /// The entries' models, in insertion order.
    pub open spec fn model(self) -> Seq<(Seq<char>, ValueModel)> {
        entry_models(self@)
    }

    /// Insert `value` under `key`; the model changes as `put_model` says.
    pub fn put_value(&mut self, key: String, value: Value)
        ensures
            final(self).model() == put_model(old(self).model(), key@, value@),
    {
        proof {
            use_type_invariant(&*self);
            lemma_entry_models(self@);
            lemma_model_keys_distinct(self@);
        }
        let ghost s = self@;
        let ghost k = key@;
        let ghost vm = value@;
        self.put(key, value);
        proof {
            let m = entry_models(s);
            let t = self@;
            lemma_entry_models(t);
            if has_key(s, k) {
                let i = key_index(s, k);
                assert(m[i].0 == k);
                let j = choose|j: int| 0 <= j < m.len() && #[trigger] m[j].0 == k;
                assert(j == i) by {
                    if j < i {
                        assert(m[j].0 != m[i].0);
                    } else if j > i {
                        assert(m[i].0 != m[j].0);
                    }
                }
                assert(entry_models(t) =~= m.update(i, (k, vm)));
            } else {
                assert forall|j: int| 0 <= j < m.len() implies #[trigger] m[j].0 != k by {
                    assert(m[j].0 == s[j].0@);
                }
                assert(entry_models(t) =~= m.push((k, vm)));
            }
        }
    }

    /// A copy of the value under `key`, if any.
    pub fn get_value(&self, key: &str) -> (r: Option<Value>)
        ensures
            match r {
                Some(v) => lookup(self.model(), key@) == Some(v@),
                None => lookup(self.model(), key@) is None,
            },
    {
        proof {
            use_type_invariant(self);
            lemma_entry_models(self@);
            lemma_model_keys_distinct(self@);
        }
        let k = key.to_string();
        match self.find(&k) {
            Some(i) => {
                let ghost m = self.model();
                assert(m[i as int].0 == key@);
                let ghost j = choose|j: int| 0 <= j < m.len() && #[trigger] m[j].0 == key@;
                assert(j == i) by {
                    if j < i {
                        assert(m[j].0 != m[i as int].0);
                    } else if j > i {
                        assert(m[i as int].0 != m[j].0);
                    }
                }
                Some(clone_value(&self.entries[i].1))
            },
            None => {
                let ghost m = self.model();
                assert forall|j: int| 0 <= j < m.len() implies #[trigger] m[j].0 != key@ by {
                    assert(m[j].0 == self@[j].0@);
                }
                None
            },
        }
    }
}

impl View for Value {
    type V = ValueModel;

    open spec fn view(&self) -> ValueModel {
        model_of(*self)
    }
}

impl View for Node {
    type V = NodeModel;

    open spec fn view(&self) -> NodeModel {
        node_model(*self)
    }
}

impl View for Relation {
    type V = RelationModel;

    open spec fn view(&self) -> RelationModel {
        relation_model(*self)
    }
}

impl View for UnboundedRelation {
    type V = UnboundedRelationModel;

    open spec fn view(&self) -> UnboundedRelationModel {
        unbounded_model(*self)
    }
}

/// `models` has one model per value, position by position.
pub proof fn lemma_models(s: Seq<Value>)
    ensures
        models(s).len() == s.len(),
        forall|i: int| 0 <= i < s.len() ==> #[trigger] models(s)[i] == s[i]@,
    decreases s.len(),
{
    if s.len() > 0 {
        lemma_models(s.drop_last());
    }
}

/// The model of a map of values has distinct keys.
pub proof fn lemma_model_keys_distinct(s: Seq<(String, Value)>)
    requires
        keys_distinct(s),
    ensures
        model_keys_distinct(entry_models(s)),
{
    lemma_entry_models(s);
    assert forall|i: int, j: int| 0 <= i < j < entry_models(s).len() implies #[trigger] entry_models(
        s,
    )[i].0 != #[trigger] entry_models(s)[j].0 by {
        assert(entry_models(s)[i].0 == s[i].0@);
        assert(entry_models(s)[j].0 == s[j].0@);
    }
}

/// `entry_models` has one model per entry, position by position.
pub proof fn lemma_entry_models(s: Seq<(String, Value)>)
    ensures
        entry_models(s).len() == s.len(),
        forall|i: int|
            0 <= i < s.len() ==> #[trigger] entry_models(s)[i] == (s[i].0@, s[i].1@),
    decreases s.len(),
{
    if s.len() > 0 {
        lemma_entry_models(s.drop_last());
    }
}

/// The model of a value.
pub open spec fn model_of(v: Value) -> ValueModel
    decreases v,
{
    match v {
        Value::String(s) => ValueModel::String(s@),
        Value::Boolean(b) => ValueModel::Boolean(b),
        Value::Dict(m) => ValueModel::Dict(entry_models(m@)),
        Value::Null => ValueModel::Null,
        Value::Integer(i) => ValueModel::Integer(i),
        Value::Float(f) => ValueModel::Float(f),
        Value::List(xs) => ValueModel::List(models(xs@)),
        Value::Node(n) => ValueModel::Node(node_model(n)),
        Value::Relation(r) => ValueModel::Relation(relation_model(r)),
        Value::UnboundedRelation(r) => ValueModel::UnboundedRelation(unbounded_model(r)),
        Value::Point2D(p) => ValueModel::Point2D(p),
        Value::Point3D(p) => ValueModel::Point3D(p),
        Value::Bytes(b) => ValueModel::Bytes(b@),
        Value::Path(p) => ValueModel::Path(
            PathModel { nodes: models(p.nodes@), rels: models(p.rels@), indices: models(p.indices@) },
        ),
        Value::Duration(d) => ValueModel::Duration(d),
        Value::Date(d) => ValueModel::Date(d),
        Value::Time(t) => ValueModel::Time(t),
        Value::LocalTime(t) => ValueModel::LocalTime(t),
        Value::DateTime(d) => ValueModel::DateTime(d),
        Value::LocalDateTime(d) => ValueModel::LocalDateTime(d),
        Value::DateTimeZoneId(d) => ValueModel::DateTimeZoneId(d),
    }
}

#[verifier::external_type_specification]
#[verifier::external_body]
pub struct ExBoltDuration(neo4rs::BoltDuration);

#[verifier::external_type_specification]
#[verifier::external_body]
pub struct ExBoltDate(neo4rs::BoltDate);

#[verifier::external_type_specification]
#[verifier::external_body]
pub struct ExBoltTime(neo4rs::BoltTime);

#[verifier::external_type_specification]
#[verifier::external_body]
pub struct ExBoltLocalTime(neo4rs::BoltLocalTime);

#[verifier::external_type_specification]
#[verifier::external_body]
pub struct ExBoltDateTime(neo4rs::BoltDateTime);

#[verifier::external_type_specification]
#[verifier::external_body]
pub struct ExBoltLocalDateTime(neo4rs::BoltLocalDateTime);

#[verifier::external_type_specification]
#[verifier::external_body]
pub struct ExBoltDateTimeZoneId(neo4rs::BoltDateTimeZoneId);

/// A map keyed by strings, no key occurring twice, in insertion order.
#[derive(Debug)]
pub struct StringMap<T> {
    entries: Vec<(String, T)>,
}

/// No key occurs twice among the entries.
pub open spec fn keys_distinct<T>(s: Seq<(String, T)>) -> bool {
    forall|i: int, j: int| 0 <= i < j < s.len() ==> #[trigger] s[i].0@ != #[trigger] s[j].0@
}

/// Some entry has the key `k`.
pub open spec fn has_key<T>(s: Seq<(String, T)>, k: Seq<char>) -> bool {
    exists|i: int| 0 <= i < s.len() && #[trigger] s[i].0@ == k
}

/// The position of the entry with key `k` (meaningful when `has_key(s, k)`).
pub open spec fn key_index<T>(s: Seq<(String, T)>, k: Seq<char>) -> int {
    choose|i: int| 0 <= i < s.len() && #[trigger] s[i].0@ == k
}

impl<T> View for StringMap<T> {
    type V = Seq<(String, T)>;

    closed spec fn view(&self) -> Seq<(String, T)> {
        self.entries@
    }
}

impl<T> StringMap<T> {
    #[verifier::type_invariant]
    spec fn distinct(self) -> bool {
        keys_distinct(self.entries@)
    }

    /// Every map, whatever its history, has distinct keys.
    pub fn distinct_keys(&self)
        ensures
            keys_distinct(self@),
    {
        proof {
            use_type_invariant(self);
        }
    }

    /// An empty map.
    pub fn new() -> (m: Self)
        ensures
            m@ == Seq::<(String, T)>::empty(),
    {
        StringMap { entries: Vec::new() }
    }

    /// The number of entries.
    pub fn len(&self) -> (n: usize)
        ensures
            n == self@.len(),
    {
        self.entries.len()
    }

    /// The entries, in insertion order.
    pub fn entries(&self) -> (r: &Vec<(String, T)>)
        ensures
            r@ == self@,
    {
        &self.entries
    }

    /// The position of `key`, if present.
    fn find(&self, key: &String) -> (r: Option<usize>)
        ensures
            r matches Some(i) ==> i < self@.len() && self@[i as int].0@ == key@,
            r is None ==> !has_key(self@, key@),
    {
        let n = self.entries.len();
        let mut i: usize = 0;
        while i < n
            invariant
                n == self.entries@.len(),
                i <= n,
                forall|j: int| 0 <= j < i ==> self.entries@[j].0@ != key@,
            decreases n - i,
        {
            if self.entries[i].0 == *key {
                return Some(i);
            }
            i = i + 1;
        }
        None
    }

    /// Insert `value` under `key`, replacing the value already there
    /// (the entry keeps its position) or appending a new entry.
    pub fn put(&mut self, key: String, value: T)
        ensures
            has_key(old(self)@, key@) ==> final(self)@ == old(self)@.update(
                key_index(old(self)@, key@),
                (key, value),
            ),
            !has_key(old(self)@, key@) ==> final(self)@ == old(self)@.push((key, value)),
    {
        proof {
            use_type_invariant(&*self);
        }
        match self.find(&key) {
            Some(i) => {
                let ghost s = self.entries@;
                assert(key_index(s, key@) == i) by {
                    let j = key_index(s, key@);
                    assert(has_key(s, key@));
                    if j != i {
                        if j < i {
                            assert(s[j].0@ != s[i as int].0@);
                        } else {
                            assert(s[i as int].0@ != s[j].0@);
                        }
                    }
                }
                let mut entries = Vec::new();
                std::mem::swap(&mut entries, &mut self.entries);
                entries.set(i, (key, value));
                assert(keys_distinct(entries@)) by {
                    assert forall|a: int, b: int| 0 <= a < b < entries@.len() implies #[trigger] entries@[a].0@
                        != #[trigger] entries@[b].0@ by {
                        assert(entries@[a].0@ == s[a].0@);
                        assert(entries@[b].0@ == s[b].0@);
                    }
                }
                self.entries = entries;
            },
            None => {
                let ghost s = self.entries@;
                assert(keys_distinct(s));
                assert(!has_key(s, key@));
                let mut entries = Vec::new();
                std::mem::swap(&mut entries, &mut self.entries);
                entries.push((key, value));
                assert(keys_distinct(entries@)) by {
                    assert forall|a: int, b: int| 0 <= a < b < entries@.len() implies #[trigger] entries@[a].0@
                        != #[trigger] entries@[b].0@ by {
                        assert(entries@[a] == s[a]);
                        if b < s.len() {
                            assert(entries@[b] == s[b]);
                            assert(s[a].0@ != s[b].0@);
                        } else {
                            assert(entries@[b].0 == key);
                            assert(!(s[a].0@ == key@));
                        }
                    }
                }
                self.entries = entries;
            },
        }
    }

    /// A map of the given entries, whose keys are distinct.
    pub fn from_distinct(entries: Vec<(String, T)>) -> (m: Self)
        requires
            keys_distinct(entries@),
        ensures
            m@ == entries@,
    {
        StringMap { entries }
    }

    /// The entries, in insertion order, taken out of the map.
    pub fn into_entries(self) -> (r: Vec<(String, T)>)
        ensures
            r@ == self@,
            keys_distinct(r@),
    {
        proof {
            use_type_invariant(&self);
        }
        self.entries
    }

    /// The value under `key`, if any.
    pub fn get(&self, key: &str) -> (r: Option<&T>)
        ensures
            r is Some <==> has_key(self@, key@),
            r matches Some(v) ==> *v == self@[key_index(self@, key@)].1,
    {
        proof {
            use_type_invariant(self);
        }
        let k = key.to_string();
        match self.find(&k) {
            Some(i) => {
                let ghost s = self.entries@;
                assert(key_index(s, key@) == i) by {
                    let j = key_index(s, key@);
                    assert(has_key(s, key@));
                    if j != i {
                        if j < i {
                            assert(s[j].0@ != s[i as int].0@);
                        } else {
                            assert(s[i as int].0@ != s[j].0@);
                        }
                    }
                }
                Some(&self.entries[i].1)
            },
            None => None,
        }
    }
}

/// A graph node: identity, labels and properties.
#[derive(Debug)]
pub struct Node {
    pub id: i64,
    pub labels: Vec<String>,
    pub properties: StringMap<Value>,
}

/// A relationship with both end points.
#[derive(Debug)]
pub struct Relation {
    pub id: i64,
    pub start_node_id: i64,
    pub end_node_id: i64,
    pub typ: String,
    pub properties: StringMap<Value>,
}

/// A relationship without its end points, as paths carry them.
#[derive(Debug)]
pub struct UnboundedRelation {
    pub id: i64,
    pub typ: String,
    pub properties: StringMap<Value>,
}

/// A path: its nodes, relationships and indices, each as a list of values.
#[derive(Debug)]
pub struct Path {
    pub nodes: Vec<Value>,
    pub rels: Vec<Value>,
    pub indices: Vec<Value>,
}


/// The driver derives `Clone` for `BoltDuration`: a clone equals its source.
pub assume_specification[ <neo4rs::BoltDuration as Clone>::clone ](x: &neo4rs::BoltDuration) -> (r: neo4rs::BoltDuration)
    ensures
        r == *x,
;

/// The driver derives `Clone` for `BoltDate`: a clone equals its source.
pub assume_specification[ <neo4rs::BoltDate as Clone>::clone ](x: &neo4rs::BoltDate) -> (r: neo4rs::BoltDate)
    ensures
        r == *x,
;

/// The driver derives `Clone` for `BoltTime`: a clone equals its source.
pub assume_specification[ <neo4rs::BoltTime as Clone>::clone ](x: &neo4rs::BoltTime) -> (r: neo4rs::BoltTime)
    ensures
        r == *x,
;

/// The driver derives `Clone` for `BoltLocalTime`: a clone equals its source.
pub assume_specification[ <neo4rs::BoltLocalTime as Clone>::clone ](x: &neo4rs::BoltLocalTime) -> (r: neo4rs::BoltLocalTime)
    ensures
        r == *x,
;

/// The driver derives `Clone` for `BoltDateTime`: a clone equals its source.
pub assume_specification[ <neo4rs::BoltDateTime as Clone>::clone ](x: &neo4rs::BoltDateTime) -> (r: neo4rs::BoltDateTime)
    ensures
        r == *x,
;

/// The driver derives `Clone` for `BoltLocalDateTime`: a clone equals its source.
pub assume_specification[ <neo4rs::BoltLocalDateTime as Clone>::clone ](x: &neo4rs::BoltLocalDateTime) -> (r: neo4rs::BoltLocalDateTime)
    ensures
        r == *x,
;

/// The driver derives `Clone` for `BoltDateTimeZoneId`: a clone equals its source.
pub assume_specification[ <neo4rs::BoltDateTimeZoneId as Clone>::clone ](x: &neo4rs::BoltDateTimeZoneId) -> (r: neo4rs::BoltDateTimeZoneId)
    ensures
        r == *x,
;

/// A copy of a sequence of values, element by element.
fn clone_values(xs: &Vec<Value>) -> (r: Vec<Value>)
    ensures
        models(r@) == models(xs@),
    decreases xs, 0int,
{
    proof {
        lemma_models(xs@);
    }
    let mut out: Vec<Value> = Vec::new();
    let n = xs.len();
    let mut i: usize = 0;
    while i < n
        invariant
            n == xs@.len(),
            i <= n,
            out@.len() == i,
            forall|j: int| 0 <= j < i ==> #[trigger] out@[j]@ == xs@[j]@,
        decreases n - i,
    {
        proof {
            assert(decreases_to!(xs => xs[i as int]));
        }
        let c = clone_value(&xs[i]);
        out.push(c);
        i = i + 1;
    }
    proof {
        lemma_models(out@);
        assert(models(out@) =~= models(xs@));
    }
    out
}

/// A copy of a map of values, entry by entry.
fn clone_map(m: &StringMap<Value>) -> (r: StringMap<Value>)
    ensures
        r.model() == m.model(),
        r@.len() == m@.len(),
        forall|i: int| 0 <= i < m@.len() ==> #[trigger] r@[i].0 == m@[i].0,
    decreases m, 0int,
{
    proof {
        use_type_invariant(m);
        lemma_entry_models(m@);
    }
    let mut out: Vec<(String, Value)> = Vec::new();
    let n = m.entries.len();
    let mut i: usize = 0;
    while i < n
        invariant
            n == m.entries@.len(),
            m.entries@ == m@,
            keys_distinct(m@),
            i <= n,
            out@.len() == i,
            forall|j: int| 0 <= j < i ==> #[trigger] out@[j].0 == m@[j].0 && out@[j].1@ == m@[j].1@,
        decreases n - i,
    {
        proof {
            assert(decreases_to!(m.entries => m.entries[i as int]));
        }
        let k = m.entries[i].0.clone();
        let c = clone_value(&m.entries[i].1);
        out.push((k, c));
        i = i + 1;
    }
    proof {
        lemma_entry_models(out@);
        assert(entry_models(out@) =~= entry_models(m@));
        assert forall|a: int, b: int| 0 <= a < b < out@.len() implies #[trigger] out@[a].0@
            != #[trigger] out@[b].0@ by {
            assert(out@[a].0 == m@[a].0);
            assert(out@[b].0 == m@[b].0);
        }
    }
    StringMap { entries: out }
}

/// A copy of a list of strings.
fn clone_strings(xs: &Vec<String>) -> (r: Vec<String>)
    ensures
        r@ == xs@,
{
    let mut out: Vec<String> = Vec::new();
    let n = xs.len();
    let mut i: usize = 0;
    while i < n
        invariant
            n == xs@.len(),
            i <= n,
            out@ == xs@.take(i as int),
        decreases n - i,
    {
        out.push(xs[i].clone());
        assert(xs@.take(i + 1) == xs@.take(i as int).push(xs@[i as int]));
        i = i + 1;
    }
    assert(xs@.take(n as int) == xs@);
    out
}

/// A copy of a node.
pub fn clone_node(n: &Node) -> (r: Node)
    ensures
        r@ == n@,
    decreases n, 1int,
{
    let properties = clone_map(&n.properties);
    Node { id: n.id, labels: clone_strings(&n.labels), properties }
}

/// A copy of a value; the copy has the same model.
pub fn clone_value(v: &Value) -> (r: Value)
    ensures
        r@ == v@,
    decreases v, 1int,
{
    match v {
        Value::String(s) => Value::String(s.clone()),
        Value::Boolean(b) => Value::Boolean(*b),
        Value::Dict(m) => Value::Dict(clone_map(m)),
        Value::Null => Value::Null,
        Value::Integer(i) => Value::Integer(*i),
        Value::Float(f) => Value::Float(*f),
        Value::List(xs) => Value::List(clone_values(xs)),
        Value::Node(n) => Value::Node(clone_node(n)),
        Value::Relation(r) => Value::Relation(
            Relation {
                id: r.id,
                start_node_id: r.start_node_id,
                end_node_id: r.end_node_id,
                typ: r.typ.clone(),
                properties: clone_map(&r.properties),
            },
        ),
        Value::UnboundedRelation(r) => Value::UnboundedRelation(
            UnboundedRelation { id: r.id, typ: r.typ.clone(), properties: clone_map(&r.properties) },
        ),
        Value::Point2D(p) => Value::Point2D(Point2D { sr_id: p.sr_id, x: p.x, y: p.y }),
        Value::Point3D(p) => Value::Point3D(Point3D { sr_id: p.sr_id, x: p.x, y: p.y, z: p.z }),
        Value::Bytes(b) => Value::Bytes(b.clone()),
        Value::Path(p) => Value::Path(
            Path {
                nodes: clone_values(&p.nodes),
                rels: clone_values(&p.rels),
                indices: clone_values(&p.indices),
            },
        ),
        Value::Duration(d) => Value::Duration(d.clone()),
        Value::Date(d) => Value::Date(d.clone()),
        Value::Time(t) => Value::Time(t.clone()),
        Value::LocalTime(t) => Value::LocalTime(t.clone()),
        Value::DateTime(d) => Value::DateTime(d.clone()),
        Value::LocalDateTime(d) => Value::LocalDateTime(d.clone()),
        Value::DateTimeZoneId(d) => Value::DateTimeZoneId(d.clone()),
    }
}

} // verus!
