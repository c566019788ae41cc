//! The structured-text (YAML) reader and writer that metadata blocks go through.
//!
//! A tree is opaque here; what the library reads of it is its top-level
//! mapping from string keys to fields, [`yaml_fields`].
use vstd::prelude::*;
use yaml_rust::{EmitError, ScanError, Yaml, YamlEmitter, YamlLoader};

verus! {

/// A YAML tree.
#[verifier::external_type_specification]
#[verifier::external_body]
pub struct ExYaml(Yaml);

/// What a value of a mapping is, as far as the library reads it.
pub enum Field {
    /// A string scalar.
    Text(Seq<char>),
    /// A sequence of values.
    Items(Seq<Field>),
    /// A nested mapping: its entries under string keys.
    Mapping(Map<Seq<char>, Field>),
    /// Any other value (a number, a boolean, a null), as the tree holds it.
    Other(Yaml),
}

/// The entries of a tree whose root is a mapping, by string key; `None` where the
/// root is not a mapping. Entries under keys that are not strings are not listed;
/// a nested mapping is read the same way.
pub uninterp spec fn yaml_fields(y: Yaml) -> Option<Map<Seq<char>, Field>>;

/// What the reader makes of a text: `None` where it holds no document, else the
/// entries of its first document, as [`yaml_fields`] gives them.
pub uninterp spec fn yaml_loaded(text: Seq<char>) -> Option<Option<Map<Seq<char>, Field>>>;

/// The text reads as YAML: the reader reports no error for it.
pub uninterp spec fn yaml_scans(text: Seq<char>) -> bool;

/// The text that the writer makes of a tree.
pub uninterp spec fn yaml_emitted(y: Yaml) -> Seq<char>;

/// Relies on `YamlLoader::load_from_str`: reads the documents of `text`; the first one is kept.
#[verifier::external_body]
pub fn load_first(text: &str) -> (r: Result<Option<Yaml>, ScanError>)
    ensures
        r is Ok == yaml_scans(text@),
        r is Ok ==> (r->Ok_0 is None <==> yaml_loaded(text@) is None),
        r is Ok && r->Ok_0 is Some ==> yaml_loaded(text@) == Some(yaml_fields(r->Ok_0->Some_0)),
{
    YamlLoader::load_from_str(text).map(|docs| docs.into_iter().next())
}

/// Relies on `Hash::new` (a `LinkedHashMap`) under `Yaml::Hash`: a mapping without entries.
#[verifier::external_body]
pub fn empty_mapping() -> (r: Yaml)
    ensures
        yaml_fields(r) == Some(Map::<Seq<char>, Field>::empty()),
{
    Yaml::Hash(yaml_rust::yaml::Hash::new())
}

/// Relies on `Yaml::as_hash` and `LinkedHashMap::contains_key`: whether a mapping has an
/// entry under the string `key`.
#[verifier::external_body]
pub fn has_key(y: &Yaml, key: &str) -> (r: bool)
    ensures
        r == (yaml_fields(*y) is Some && yaml_fields(*y)->0.contains_key(key@)),
{
    y.as_hash().map_or(false, |h| h.contains_key(&Yaml::String(key.to_string())))
}

/// Relies on `Index<&str>` for `Yaml` and `Yaml::as_str`: the string under `key`.
#[verifier::external_body]
pub fn text_at<'a>(y: &'a Yaml, key: &str) -> (r: Option<&'a str>)
    ensures
        match yaml_fields(*y) {
            Some(m) if m.contains_key(key@) && m[key@] is Text => r is Some && r->Some_0@
                == m[key@]->Text_0,
            _ => r is None,
        },
{
    y[key].as_str()
}

/// Relies on `Index<&str>` for `Yaml`, `Yaml::as_vec` and `Yaml::as_str`: the items of
/// the sequence under `key`, each with its string where it is one.
#[verifier::external_body]
pub fn items_at(y: &Yaml, key: &str) -> (r: Option<Vec<Option<String>>>)
    ensures
        match yaml_fields(*y) {
            Some(m) if m.contains_key(key@) && m[key@] is Items => {
                &&& r is Some
                &&& r->Some_0.len() == m[key@]->Items_0.len()
                &&& forall|i: int|
                    0 <= i < r->Some_0.len() ==> match #[trigger] m[key@]->Items_0[i] {
                        Field::Text(t) => r->Some_0[i] is Some && r->Some_0[i]->Some_0@ == t,
                        _ => r->Some_0[i] is None,
                    }
            },
            _ => r is None,
        },
{
    y[key].as_vec().map(|v| v.iter().map(|e| e.as_str().map(|s| s.to_string())).collect())
}

/// Relies on `LinkedHashMap::insert`: in a mapping, the string `value` is stored under
/// the string `key`. Returns whether the root is a mapping; if not, nothing changes.
#[verifier::external_body]
pub fn insert_text(y: &mut Yaml, key: &str, value: &str) -> (r: bool)
    ensures
        r == (yaml_fields(*old(y)) is Some),
        r ==> yaml_fields(*final(y)) == Some(
            yaml_fields(*old(y))->0.insert(key@, Field::Text(value@)),
        ),
        !r ==> *final(y) == *old(y),
{
    match y {
        Yaml::Hash(h) => {
            h.insert(Yaml::String(key.to_string()), Yaml::String(value.to_string()));
            true
        },
        _ => false,
    }
}

/// Relies on `LinkedHashMap::remove`: in a mapping, the entry under the string `key`
/// is removed. `None` where the root is not a mapping (nothing changes); else whether
/// there was such an entry.
#[verifier::external_body]
pub fn remove_key(y: &mut Yaml, key: &str) -> (r: Option<bool>)
    ensures
        r is Some == (yaml_fields(*old(y)) is Some),
        r is Some ==> r->Some_0 == yaml_fields(*old(y))->0.contains_key(key@),
        r is Some ==> yaml_fields(*final(y)) == Some(yaml_fields(*old(y))->0.remove(key@)),
        r is None ==> *final(y) == *old(y),
{
    match y {
        Yaml::Hash(h) => Some(h.remove(&Yaml::String(key.to_string())).is_some()),
        _ => None,
    }
}

/// Relies on `YamlEmitter::dump`, which writes the document start `---` and a line
/// break before the tree. Writing into a `String` does not fail, and the writer
/// builds no other error (`EmitError::BadHashmapKey` is declared, never made).
#[verifier::external_body]
pub fn emit(y: &Yaml) -> (r: Result<String, EmitError>)
    ensures
        r is Ok,
        r is Ok ==> r->Ok_0@ == yaml_emitted(*y),
        r is Ok ==> r->Ok_0@.len() >= 4 && r->Ok_0@.take(4) == seq!['-', '-', '-', '\n'],
{
    let mut out = String::new();
    let res = YamlEmitter::new(&mut out).dump(y);
    res.map(|_| out)
}

} // verus!
