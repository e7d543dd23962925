//! A plain tree of TOML values.
//!
//! The configuration parser works on this tree, not on text: the `toml` crate
//! turns text into the tree and back, behind the trusted bridge functions at
//! the end of this module, and everything that interprets the tree is
//! verified against the spec-level model [`TomlV`].
//!
//! A table is an ordered list of key/value pairs. TOML itself forbids a key
//! from appearing twice in one table, so trees read from text always have
//! unique keys; the parser checks uniqueness so that the same holds of trees
//! built programmatically.

use vstd::prelude::*;

verus! {

/// A TOML value: the subset of the format the configuration schema uses.
/// Floats and datetimes do not occur in the schema and are rejected by the
/// text bridge.
pub enum TomlValue {
    /// A string.
    Str(String),
    /// An integer.
    Int(i64),
    /// A boolean.
    Bool(bool),
    /// An array of values.
    Arr(Vec<TomlValue>),
    /// A table: key/value pairs in order.
    Table(Vec<(String, TomlValue)>),
}

/// Spec-level model of a [`TomlValue`].
#[verifier::ext_equal]
pub enum TomlV {
    /// A string.
    Str(Seq<char>),
    /// An integer.
    Int(i64),
    /// A boolean.
    Bool(bool),
    /// An array of values.
    Arr(Seq<TomlV>),
    /// A table: key/value pairs in order.
    Table(Seq<(Seq<char>, TomlV)>),
}

impl TomlValue {
    /// The spec-level model of this tree.
    pub open spec fn model(self) -> TomlV
        decreases self,
    {
        match self {
            TomlValue::Str(s) => TomlV::Str(s@),
            TomlValue::Int(i) => TomlV::Int(i),
            TomlValue::Bool(b) => TomlV::Bool(b),
            TomlValue::Arr(items) => TomlV::Arr(
                Seq::new(
                    items@.len(),
                    |i: int|
                        if 0 <= i < items@.len() {
                            items@[i].model()
                        } else {
                            TomlV::Int(0)
                        },
                ),
            ),
            TomlValue::Table(entries) => TomlV::Table(
                Seq::new(
                    entries@.len(),
                    |i: int|
                        if 0 <= i < entries@.len() {
                            (entries@[i].0@, entries@[i].1.model())
                        } else {
                            (Seq::empty(), TomlV::Int(0))
                        },
                ),
            ),
        }
    }
}

/// The models of an array's items.
pub open spec fn items_model(items: Seq<TomlValue>) -> Seq<TomlV> {
    Seq::new(items.len(), |i: int| items[i].model())
}

/// The models of a table's entries.
pub open spec fn entries_model(entries: Seq<(String, TomlValue)>) -> Seq<(Seq<char>, TomlV)> {
    Seq::new(entries.len(), |i: int| (entries[i].0@, entries[i].1.model()))
}

/// An array's model is its items' models, in order.
pub proof fn lemma_arr_model(items: Vec<TomlValue>)
    ensures
        TomlValue::Arr(items).model() == TomlV::Arr(items_model(items@)),
{
    assert(TomlValue::Arr(items).model()->Arr_0 =~= items_model(items@));
}

/// A table's model is its entries' models, in order.
pub proof fn lemma_table_model(entries: Vec<(String, TomlValue)>)
    ensures
        TomlValue::Table(entries).model() == TomlV::Table(entries_model(entries@)),
{
    assert(TomlValue::Table(entries).model()->Table_0 =~= entries_model(entries@));
}

/// The value under `key`, first match; `None` when the key is absent.
pub open spec fn spec_table_get(t: Seq<(Seq<char>, TomlV)>, key: Seq<char>) -> Option<TomlV>
    decreases t.len(),
{
    if t.len() == 0 {
        None
    } else if t[0].0 == key {
        Some(t[0].1)
    } else {
        spec_table_get(t.drop_first(), key)
    }
}

/// The lookup finds the entry at `i` when no earlier entry has the key.
pub proof fn lemma_table_get_at(t: Seq<(Seq<char>, TomlV)>, key: Seq<char>, i: int)
    requires
        0 <= i < t.len(),
        t[i].0 == key,
        forall|j: int| 0 <= j < i ==> (#[trigger] t[j]).0 != key,
    ensures
        spec_table_get(t, key) == Some(t[i].1),
    decreases i,
{
    if i > 0 {
        lemma_table_get_at(t.drop_first(), key, i - 1);
    }
}

/// The lookup finds nothing when no entry has the key.
pub proof fn lemma_table_get_none(t: Seq<(Seq<char>, TomlV)>, key: Seq<char>)
    requires
        forall|j: int| 0 <= j < t.len() ==> (#[trigger] t[j]).0 != key,
    ensures
        spec_table_get(t, key) is None,
    decreases t.len(),
{
    if t.len() > 0 {
        lemma_table_get_none(t.drop_first(), key);
    }
}

/// No key appears twice.
pub open spec fn spec_keys_unique(t: Seq<(Seq<char>, TomlV)>) -> bool {
    forall|i: int, j: int| 0 <= i < j < t.len() ==> t[i].0 != t[j].0
}

/// Every key is one of `allowed`.
pub open spec fn spec_keys_among(t: Seq<(Seq<char>, TomlV)>, allowed: Seq<Seq<char>>) -> bool {
    forall|i: int|
        0 <= i < t.len() ==> crate::types::spec_names_contain(allowed, #[trigger] t[i].0)
}

/// Looks `key` up in a table's entries, first match.
pub fn table_get<'a>(entries: &'a Vec<(String, TomlValue)>, key: &String) -> (r: Option<
    &'a TomlValue,
>)
    ensures
        match r {
            Some(v) => spec_table_get(entries_model(entries@), key@) == Some(v.model()),
            None => spec_table_get(entries_model(entries@), key@) is None,
        },
{
    let ghost t = entries_model(entries@);
    proof {
        assert(t.skip(0) =~= t);
    }
    let mut i: usize = 0;
    while i < entries.len()
        invariant
            0 <= i <= entries.len(),
            t == entries_model(entries@),
            t.len() == entries.len(),
            spec_table_get(t, key@) == spec_table_get(t.skip(i as int), key@),
        decreases entries.len() - i,
    {
        proof {
            assert(t.skip(i as int).len() == t.len() - i);
            assert(t.skip(i as int)[0] == t[i as int]);
            assert(t.skip(i as int).drop_first() =~= t.skip(i + 1));
        }
        if entries[i].0 == *key {
            return Some(&entries[i].1);
        }
        i = i + 1;
    }
    proof {
        assert(t.skip(entries.len() as int) =~= Seq::<(Seq<char>, TomlV)>::empty());
    }
    None
}

/// Checks that no key appears twice in a table's entries.
pub fn keys_unique(entries: &Vec<(String, TomlValue)>) -> (r: bool)
    ensures
        r == spec_keys_unique(entries_model(entries@)),
{
    let ghost t = entries_model(entries@);
    let mut i: usize = 0;
    while i < entries.len()
        invariant
            0 <= i <= entries.len(),
            t == entries_model(entries@),
            t.len() == entries.len(),
            forall|a: int, b: int| 0 <= a < b < i ==> t[a].0 != t[b].0,
            forall|a: int, b: int| 0 <= a < i && i <= b < t.len() ==> t[a].0 != t[b].0,
        decreases entries.len() - i,
    {
        let mut j: usize = i + 1;
        while j < entries.len()
            invariant
                0 <= i < j <= entries.len(),
                t == entries_model(entries@),
                t.len() == entries.len(),
                forall|b: int| i < b < j ==> t[i as int].0 != t[b].0,
            decreases entries.len() - j,
        {
            if entries[i].0 == entries[j].0 {
                assert(t[i as int].0 == t[j as int].0);
                return false;
            }
            j = j + 1;
        }
        i = i + 1;
    }
    true
}

/// Checks that every key of a table's entries is one of `allowed`.
pub fn keys_among(entries: &Vec<(String, TomlValue)>, allowed: &Vec<String>) -> (r: bool)
    ensures
        r == spec_keys_among(entries_model(entries@), allowed.deep_view()),
{
    let ghost t = entries_model(entries@);
    let mut i: usize = 0;
    while i < entries.len()
        invariant
            0 <= i <= entries.len(),
            t == entries_model(entries@),
            t.len() == entries.len(),
            forall|k: int|
                0 <= k < i ==> crate::types::spec_names_contain(
                    allowed.deep_view(),
                    #[trigger] t[k].0,
                ),
        decreases entries.len() - i,
    {
        if !crate::types::names_contain(allowed, &entries[i].0) {
            assert(!crate::types::spec_names_contain(allowed.deep_view(), t[i as int].0));
            return false;
        }
        assert(crate::types::spec_names_contain(allowed.deep_view(), t[i as int].0));
        i = i + 1;
    }
    true
}

// ---------------------------------------------------------------------------
// Trusted bridge to the `toml` crate. Everything below this line is believed,
// not verified: it only moves values between the crate's representation and
// the tree above, one variant at a time.
// ---------------------------------------------------------------------------

/// The `toml` crate's value type, declared so it can appear in signatures.
#[verifier::external_type_specification]
#[verifier::external_body]
pub struct ExTomlValue(toml::Value);

/// The `toml` crate's map type, declared so it can appear in signatures.
#[verifier::external_type_specification]
#[verifier::external_body]
#[verifier::reject_recursive_types(K)]
#[verifier::reject_recursive_types(V)]
pub struct ExTomlMap<K, V>(toml::map::Map<K, V>);

/// Relies on `toml::Value`'s variants: moves a parsed value into the
/// library's tree, one arm per variant. Floats and datetimes are not part of
/// the configuration schema and are reported as unsupported.
#[verifier::external_body]
fn toml_value_to_tree(v: &toml::Value) -> Result<TomlValue, String> {
    match v {
        toml::Value::String(s) => Ok(TomlValue::Str(s.clone())),
        toml::Value::Integer(i) => Ok(TomlValue::Int(*i)),
        toml::Value::Boolean(b) => Ok(TomlValue::Bool(*b)),
        toml::Value::Float(_) => Err("unsupported value type: float".to_string()),
        toml::Value::Datetime(_) => Err("unsupported value type: datetime".to_string()),
        toml::Value::Array(items) => {
            let mut out = Vec::new();
            for item in items {
                out.push(toml_value_to_tree(item)?);
            }
            Ok(TomlValue::Arr(out))
        },
        toml::Value::Table(entries) => toml_table_to_tree(entries),
    }
}

/// Relies on `toml::map::Map::iter`: moves a table's entries into the
/// library's tree in the order the map hands them out.
#[verifier::external_body]
fn toml_table_to_tree(table: &toml::map::Map<String, toml::Value>) -> Result<TomlValue, String> {
    let mut out = Vec::new();
    for (key, value) in table.iter() {
        out.push((key.clone(), toml_value_to_tree(value)?));
    }
    Ok(TomlValue::Table(out))
}

/// What parsing TOML text yields: the document's value tree, or nothing when
/// the text is not a well-formed document of the supported value kinds. The
/// result depends on the text alone.
pub uninterp spec fn spec_toml_tree(s: Seq<char>) -> Option<TomlV>;

/// Relies on `toml::from_str`: parses TOML text into a document table. The
/// result depends on the text alone; it is a `TomlValue::Table` on success,
/// and the error carries the parser's message.
#[verifier::external_body]
pub fn parse_toml_str(s: &str) -> (r: Result<TomlValue, String>)
    ensures
        match r {
            Ok(t) => spec_toml_tree(s@) == Some(t.model()) && t.model() is Table,
            Err(_) => spec_toml_tree(s@) is None,
        },
{
    match toml::from_str::<toml::map::Map<String, toml::Value>>(s) {
        Ok(table) => toml_table_to_tree(&table),
        Err(e) => Err(e.to_string()),
    }
}

/// Relies on `toml::Value`'s constructors: moves the library's tree back into
/// the crate's representation, one arm per variant.
#[verifier::external_body]
fn tree_to_toml_value(v: &TomlValue) -> toml::Value {
    match v {
        TomlValue::Str(s) => toml::Value::String(s.clone()),
        TomlValue::Int(i) => toml::Value::Integer(*i),
        TomlValue::Bool(b) => toml::Value::Boolean(*b),
        TomlValue::Arr(items) => toml::Value::Array(items.iter().map(tree_to_toml_value).collect()),
        TomlValue::Table(entries) => toml::Value::Table(
            entries.iter().map(|e| (e.0.clone(), tree_to_toml_value(&e.1))).collect(),
        ),
    }
}

/// What rendering a document tree yields: its TOML text, or nothing when the
/// writer refuses the tree. The result depends on the tree alone.
pub uninterp spec fn spec_toml_text(t: TomlV) -> Option<Seq<char>>;

/// Relies on `toml::to_string`: renders a document table as TOML text. The
/// tree must be a table, as every TOML document is one at its root; the
/// result depends on the tree alone.
#[verifier::external_body]
pub fn render_toml_tree(v: &TomlValue) -> (r: Result<String, String>)
    requires
        v.model() is Table,
    ensures
        match r {
            Ok(text) => spec_toml_text(v.model()) == Some(text@),
            Err(_) => spec_toml_text(v.model()) is None,
        },
{
    match tree_to_toml_value(v) {
        toml::Value::Table(table) => toml::to_string(&table).map_err(|e| e.to_string()),
        _ => Err("document root is not a table".to_string()),
    }
}

} // verus!
