use vstd::prelude::*;


verus! {

/// What follows the path of one item in a `#[cyphr(...)]` list.
pub enum MetaValue {
    /// Nothing: `#[cyphr(id)]`.
    Absent,
    /// `= "text"`: a string literal.
    Str(String),
    /// `= expr` where the expression is not a string literal.
    Other,
    /// A parenthesized nested list: `path(...)`.
    List,
}

/// One item of an attribute's nested list: `path`, `path = value` or `path(...)`.
pub struct MetaItem {
    pub path: String,
    pub value: MetaValue,
}

/// An attribute: its path (`cyphr` for this crate's attributes) and the
/// items of its nested list, in order.
pub struct Attr {
    pub path: String,
    pub items: Vec<MetaItem>,
}

/// Which reader interprets an attribute list; each consumes the values of
/// different keys.
pub enum Reader {
    /// The struct-level label of a node (`label = "..."`).
    Label,
    /// The struct-level metadata of a relationship (`type`, `from`, `to`).
    RelMeta,
    /// A field-level property name (`prop = "..."`).
    Prop,
    /// The `flatten` marker of a row field.
    Flatten,
}

/// Whether `reader` reads a value after key `path`.
pub open spec fn consumes(reader: Reader, path: Seq<char>) -> bool {
    match reader {
        Reader::Label => path == "label"@,
        Reader::RelMeta => path == "type"@ || path == "from"@ || path == "to"@,
        Reader::Prop => path == "prop"@,
        Reader::Flatten => false,
    }
}

/// How many leading items of a nested list take effect. Reading stops at
/// the first item whose value the reader asks for but which has none (or
/// has a nested list), and after the first item that has a value or a
/// nested list the reader does not read; that last item still takes effect.
pub open spec fn applied_len(items: Seq<MetaItem>, reader: Reader) -> nat
    decreases items.len(),
{
    if items.len() == 0 {
        0
    } else {
        let it = items[0];
        let c = consumes(reader, it.path@);
        if c && (it.value is Absent || it.value is List) {
            0
        } else if !c && !(it.value is Absent) {
            1
        } else {
            1 + applied_len(items.drop_first(), reader)
        }
    }
}

pub(crate) fn text_is(s: &String, lit: &str) -> (r: bool)
    ensures
        r == (s@ == lit@),
{
    *s == lit.to_string()
}

pub(crate) fn reads_value(reader: &Reader, path: &String) -> (r: bool)
    ensures
        r == consumes(*reader, path@),
{
    proof {
        reveal_strlit("label");
        reveal_strlit("type");
        reveal_strlit("from");
        reveal_strlit("to");
        reveal_strlit("prop");
    }
    match reader {
        Reader::Label => text_is(path, "label"),
        Reader::RelMeta => text_is(path, "type") || text_is(path, "from") || text_is(path, "to"),
        Reader::Prop => text_is(path, "prop"),
        Reader::Flatten => false,
    }
}

/// The number of leading items of `items` that take effect for `reader`.
pub fn applied_count(items: &Vec<MetaItem>, reader: &Reader) -> (n: usize)
    ensures
        n == applied_len(items@, *reader),
        n <= items@.len(),
{
    let len = items.len();
    let mut i: usize = len;
    let mut n: usize = 0;
    // Walk from the back: n is the count for the suffix starting at i.
    while i > 0
        invariant
            i <= len,
            len == items@.len(),
            n == applied_len(items@.skip(i as int), *reader),
            n <= len - i,
        decreases i,
    {
        i = i - 1;
        let ghost s = items@.skip(i as int);
        assert(s.drop_first() =~= items@.skip(i + 1));
        assert(s[0] == items@[i as int]);
        let it = &items[i];
        let c = reads_value(reader, &it.path);
        let absent_or_list = match it.value {
            MetaValue::Absent => true,
            MetaValue::List => true,
            _ => false,
        };
        let absent = match it.value {
            MetaValue::Absent => true,
            _ => false,
        };
        if c && absent_or_list {
            n = 0;
        } else if !c && !absent {
            n = 1;
        } else {
            n = n + 1;
        }
    }
    assert(items@.skip(0) =~= items@);
    n
}

/// The string of the last of the first `n` items that has key `key` and a
/// string literal value.
pub open spec fn last_str(items: Seq<MetaItem>, n: nat, key: Seq<char>) -> Option<Seq<char>>
    decreases n,
{
    if n == 0 {
        None
    } else {
        match items[n - 1].value {
            MetaValue::Str(s) if items[n - 1].path@ == key => Some(s@),
            _ => last_str(items, (n - 1) as nat, key),
        }
    }
}

/// Whether one of the first `n` items has key `key`.
pub open spec fn has_item(items: Seq<MetaItem>, n: nat, key: Seq<char>) -> bool {
    exists|i: int| 0 <= i < n && #[trigger] items[i].path@ == key
}

/// The last string value under `key` among the first `n` items.
pub(crate) fn find_last_str(items: &Vec<MetaItem>, n: usize, key: &str) -> (r: Option<String>)
    requires
        n <= items@.len(),
    ensures
        match r {
            Some(s) => last_str(items@, n as nat, key@) == Some(s@),
            None => last_str(items@, n as nat, key@) is None,
        },
{
    let mut i: usize = n;
    while i > 0
        invariant
            i <= n,
            n <= items@.len(),
            last_str(items@, n as nat, key@) == last_str(items@, i as nat, key@),
        decreases i,
    {
        let it = &items[i - 1];
        match &it.value {
            MetaValue::Str(s) => {
                if text_is(&it.path, key) {
                    return Some(s.clone());
                }
            },
            _ => {},
        }
        i = i - 1;
    }
    None
}

/// Whether one of the first `n` items has key `key`.
pub(crate) fn find_item(items: &Vec<MetaItem>, n: usize, key: &str) -> (r: bool)
    requires
        n <= items@.len(),
    ensures
        r == has_item(items@, n as nat, key@),
{
    let mut i: usize = 0;
    while i < n
        invariant
            i <= n,
            n <= items@.len(),
            forall|j: int| 0 <= j < i ==> items@[j].path@ != key@,
        decreases n - i,
    {
        if text_is(&items[i].path, key) {
            return true;
        }
        i = i + 1;
    }
    false
}

/// Whether an attribute is one of this crate's: its path is exactly `cyphr`.
pub open spec fn is_cyphr(a: Attr) -> bool {
    a.path@ == "cyphr"@
}

/// The last string value under `key` over all `cyphr` attributes, each
/// read by `reader`.
pub open spec fn last_meta(attrs: Seq<Attr>, reader: Reader, key: Seq<char>) -> Option<Seq<char>>
    decreases attrs.len(),
{
    if attrs.len() == 0 {
        None
    } else {
        let later = last_meta(attrs.drop_first(), reader, key);
        if later is Some {
            later
        } else if is_cyphr(attrs[0]) {
            last_str(attrs[0].items@, applied_len(attrs[0].items@, reader), key)
        } else {
            None
        }
    }
}

/// Whether some `cyphr` attribute, read by `reader`, has an item `key`
/// that takes effect.
pub open spec fn any_item(attrs: Seq<Attr>, reader: Reader, key: Seq<char>) -> bool {
    exists|i: int|
        0 <= i < attrs.len() && is_cyphr(#[trigger] attrs[i]) && has_item(
            attrs[i].items@,
            applied_len(attrs[i].items@, reader),
            key,
        )
}

pub(crate) fn is_cyphr_attr(a: &Attr) -> (r: bool)
    ensures
        r == is_cyphr(*a),
{
    text_is(&a.path, "cyphr")
}

/// The last string value under `key` over all `cyphr` attributes.
pub(crate) fn find_last_meta(attrs: &Vec<Attr>, reader: &Reader, key: &str) -> (r: Option<String>)
    ensures
        match r {
            Some(s) => last_meta(attrs@, *reader, key@) == Some(s@),
            None => last_meta(attrs@, *reader, key@) is None,
        },
{
    let n = attrs.len();
    let mut i: usize = n;
    let mut found: Option<String> = None;
    assert(attrs@.skip(n as int) =~= Seq::<Attr>::empty());
    while i > 0
        invariant
            n == attrs@.len(),
            i <= n,
            match found {
                Some(s) => last_meta(attrs@.skip(i as int), *reader, key@) == Some(s@),
                None => last_meta(attrs@.skip(i as int), *reader, key@) is None,
            },
        decreases i,
    {
        i = i - 1;
        let ghost s = attrs@.skip(i as int);
        assert(s.drop_first() =~= attrs@.skip(i + 1));
        assert(s[0] == attrs@[i as int]);
        if found.is_none() {
            let a = &attrs[i];
            if is_cyphr_attr(a) {
                let m = applied_count(&a.items, reader);
                found = find_last_str(&a.items, m, key);
            }
        }
    }
    assert(attrs@.skip(0) =~= attrs@);
    found
}

/// Whether some `cyphr` attribute has an item `key` that takes effect.
pub(crate) fn find_any_item(attrs: &Vec<Attr>, reader: &Reader, key: &str) -> (r: bool)
    ensures
        r == any_item(attrs@, *reader, key@),
{
    let n = attrs.len();
    let mut i: usize = 0;
    while i < n
        invariant
            n == attrs@.len(),
            i <= n,
            forall|j: int|
                0 <= j < i ==> !(is_cyphr(#[trigger] attrs@[j]) && has_item(
                    attrs@[j].items@,
                    applied_len(attrs@[j].items@, *reader),
                    key@,
                )),
        decreases n - i,
    {
        let a = &attrs[i];
        if is_cyphr_attr(a) {
            let m = applied_count(&a.items, reader);
            if find_item(&a.items, m, key) {
                return true;
            }
        }
        i = i + 1;
    }
    false
}

/// The property (or parameter) name of a field: the `prop` attribute,
/// defaulting to the field's name.
pub fn prop_key(attrs: &Vec<Attr>, field: &str) -> (r: String)
    ensures
        r@ == (match last_meta(attrs@, Reader::Prop, "prop"@) {
            Some(p) => p,
            None => field@,
        }),
{
    proof {
        reveal_strlit("prop");
    }
    match find_last_meta(attrs, &Reader::Prop, "prop") {
        Some(p) => p,
        None => field.to_string(),
    }
}

/// A named field of a struct: its name, the first segment of its type's
/// path (empty when the type is not a path), and its attributes.
pub struct Field {
    pub name: String,
    pub type_head: String,
    pub attrs: Vec<Attr>,
}

/// The shape of the item a derive is applied to.
pub enum Shape {
    /// A struct with named fields.
    Named(Vec<Field>),
    /// A tuple struct.
    Unnamed,
    /// A unit struct.
    Unit,
    /// An enum or a union.
    NotStruct,
}

/// The item a derive is applied to: its name, attributes and shape.
pub struct DeriveInput {
    pub ident: String,
    pub attrs: Vec<Attr>,
    pub shape: Shape,
}

/// A struct field read from a property.
pub struct PropField {
    pub field: String,
    pub prop: String,
}

/// The error text a derive emits for an item it does not support.
pub open spec fn shape_error(derive: Seq<char>, shape: Shape) -> Seq<char> {
    match shape {
        Shape::NotStruct => derive + " only supports structs"@,
        _ => derive + " only supports structs with named fields"@,
    }
}

pub(crate) fn shape_error_text(derive: &str, shape: &Shape) -> (r: String)
    ensures
        r@ == shape_error(derive@, *shape),
{
    proof {
        reveal_strlit(" only supports structs");
        reveal_strlit(" only supports structs with named fields");
    }
    match shape {
        Shape::NotStruct => String::from_str(derive).concat(" only supports structs"),
        _ => String::from_str(derive).concat(" only supports structs with named fields"),
    }
}

/// The property a field is read from: its `prop` attribute or its name.
pub open spec fn field_prop(f: Field) -> Seq<char> {
    match last_meta(f.attrs@, Reader::Prop, "prop"@) {
        Some(p) => p,
        None => f.name@,
    }
}

/// Each field paired with its property, in order.
pub(crate) fn prop_fields(fields: &Vec<Field>) -> (r: Vec<PropField>)
    ensures
        r@.len() == fields@.len(),
        forall|i: int|
            0 <= i < fields@.len() ==> (#[trigger] r@[i]).field@ == fields@[i].name@ && r@[i].prop@
                == field_prop(fields@[i]),
{
    let mut out: Vec<PropField> = Vec::new();
    let n = fields.len();
    let mut i: usize = 0;
    while i < n
        invariant
            n == fields@.len(),
            i <= n,
            out@.len() == i,
            forall|j: int|
                0 <= j < i ==> (#[trigger] out@[j]).field@ == fields@[j].name@ && out@[j].prop@
                    == field_prop(fields@[j]),
        decreases n - i,
    {
        let f = &fields[i];
        let prop = prop_key(&f.attrs, f.name.as_str());
        out.push(PropField { field: f.name.clone(), prop });
        i = i + 1;
    }
    out
}

} // verus!
