//! JSON documents as plain trees.
use crate::text::same_text;
use vstd::prelude::*;

verus! {

/// A JSON document, held as plain values.
///
/// A number is kept as the `u64` it stands for, or as nothing when it is
/// negative, fractional or larger than a `u64`.
#[derive(Debug)]
pub enum Json {
    Null,
    Bool(bool),
    Number(Option<u64>),
    Text(String),
    List(Vec<Json>),
    Record(Vec<(String, Json)>),
}

/// What a [`Json`] document says, as a mathematical tree.
pub enum JsonTree {
    Null,
    Bool(bool),
    Number(Option<u64>),
    Text(Seq<char>),
    List(Seq<JsonTree>),
    Record(Seq<(Seq<char>, JsonTree)>),
}

impl Json {
    /// What the document says.
    pub open spec fn tree(self) -> JsonTree
        decreases self,
    {
        match self {
            Json::Null => JsonTree::Null,
            Json::Bool(b) => JsonTree::Bool(b),
            Json::Number(n) => JsonTree::Number(n),
            Json::Text(s) => JsonTree::Text(s@),
            Json::List(items) => JsonTree::List(
                Seq::new(
                    items@.len(),
                    |i: int|
                        if 0 <= i < items@.len() {
                            items@[i].tree()
                        } else {
                            JsonTree::Null
                        },
                ),
            ),
            Json::Record(entries) => JsonTree::Record(
                Seq::new(
                    entries@.len(),
                    |i: int|
                        if 0 <= i < entries@.len() {
                            (entries@[i].0@, entries@[i].1.tree())
                        } else {
                            (Seq::empty(), JsonTree::Null)
                        },
                ),
            ),
        }
    }
}

impl View for Json {
    type V = JsonTree;

    open spec fn view(&self) -> JsonTree {
        self.tree()
    }
}

/// The value of the first entry of a record under a key.
pub open spec fn entry_value(entries: Seq<(Seq<char>, JsonTree)>, key: Seq<char>) -> Option<JsonTree>
    decreases entries.len(),
{
    if entries.len() == 0 {
        None
    } else if entries[0].0 == key {
        Some(entries[0].1)
    } else {
        entry_value(entries.skip(1), key)
    }
}

impl JsonTree {
    /// The value of a field: nothing when the document is no record or lacks the field.
    pub open spec fn field(self, key: Seq<char>) -> Option<JsonTree> {
        match self {
            JsonTree::Record(entries) => entry_value(entries, key),
            _ => None,
        }
    }
}

/// A parsed document of `serde_json`, opaque.
#[verifier::external_type_specification]
#[verifier::external_body]
pub struct ExJsonValue(serde_json::Value);

/// A failure of `serde_json`, opaque.
#[verifier::external_type_specification]
#[verifier::external_body]
pub struct ExJsonError(serde_json::Error);

/// The document that `serde_json::from_slice` reads out of a byte string, if it reads one.
pub uninterp spec fn json_document(bytes: Seq<u8>) -> Option<JsonTree>;

/// What a parsed document of `serde_json` holds.
pub uninterp spec fn json_content(value: serde_json::Value) -> JsonTree;

/// Calls `serde_json::from_slice` for a `serde_json::Value`. The contract names the document,
/// which depends on the bytes alone, and says nothing of which byte strings hold one.
#[verifier::external_body]
fn json_from_slice(bytes: &[u8]) -> (r: Result<serde_json::Value, serde_json::Error>)
    ensures
        r is Ok <==> json_document(bytes@) is Some,
        r matches Ok(value) ==> Some(json_content(value)) == json_document(bytes@),
{
    serde_json::from_slice(bytes)
}

/// Turns a `serde_json::Value` into a plain tree, variant by variant; a number by
/// `serde_json::Number::as_u64`. The contract names what the value holds.
#[verifier::external_body]
fn json_from_value(value: serde_json::Value) -> (r: Json)
    ensures
        r@ == json_content(value),
{
    match value {
        serde_json::Value::Null => Json::Null,
        serde_json::Value::Bool(b) => Json::Bool(b),
        serde_json::Value::Number(n) => Json::Number(n.as_u64()),
        serde_json::Value::String(s) => Json::Text(s),
        serde_json::Value::Array(a) => Json::List(a.into_iter().map(json_from_value).collect()),
        serde_json::Value::Object(m) => Json::Record(
            m.into_iter().map(|(k, v)| (k, json_from_value(v))).collect(),
        ),
    }
}

/// Parses a JSON document.
pub fn parse_json(bytes: &[u8]) -> (r: Result<Json, serde_json::Error>)
    ensures
        r is Ok <==> json_document(bytes@) is Some,
        r matches Ok(document) ==> Some(document@) == json_document(bytes@),
{
    match json_from_slice(bytes) {
        Ok(value) => Ok(json_from_value(value)),
        Err(error) => Err(error),
    }
}

impl Json {
    /// The value of a field: nothing when the document is no record or lacks the field.
    pub fn get(&self, key: &str) -> (found: Option<&Json>)
        ensures
            match found {
                Some(value) => self@.field(key@) == Some(value@),
                None => self@.field(key@) is None,
            },
    {
        let entries = match self {
            Json::Record(entries) => entries,
            _ => return None,
        };
        let ghost pairs = self@->Record_0;
        let mut at: usize = 0;
        assert(pairs.skip(0) =~= pairs);
        while at < entries.len()
            invariant
                at <= entries@.len() == pairs.len(),
                self@ == JsonTree::Record(pairs),
                forall|i: int|
                    0 <= i < pairs.len() ==> #[trigger] pairs[i] == (entries@[i].0@, entries@[i].1@),
                entry_value(pairs, key@) == entry_value(pairs.skip(at as int), key@),
            decreases entries@.len() - at,
        {
            assert(pairs.skip(at as int)[0] == pairs[at as int]);
            if same_text(&entries[at].0, key) {
                return Some(&entries[at].1);
            }
            assert(pairs.skip(at as int).skip(1) =~= pairs.skip(at + 1));
            at = at + 1;
        }
        None
    }
}

/// A value of a flat record.
#[derive(Debug)]
pub enum JsonScalar {
    Number(u64),
    Flag(bool),
    Text(String),
}

impl JsonScalar {
    /// What the value says.
    pub open spec fn tree(self) -> JsonTree {
        match self {
            JsonScalar::Number(n) => JsonTree::Number(Some(n)),
            JsonScalar::Flag(b) => JsonTree::Bool(b),
            JsonScalar::Text(s) => JsonTree::Text(s@),
        }
    }
}

/// What the fields of a flat record say.
pub open spec fn record_fields(fields: Seq<(String, JsonScalar)>) -> Seq<(Seq<char>, JsonTree)> {
    fields.map_values(|field: (String, JsonScalar)| (field.0@, field.1.tree()))
}

/// Whether no key of a record occurs twice.
pub open spec fn keys_distinct(fields: Seq<(Seq<char>, JsonTree)>) -> bool {
    forall|i: int, j: int|
        0 <= i < j < fields.len() ==> (#[trigger] fields[i]).0 != (#[trigger] fields[j]).0
}

/// Whether a byte string holds a document with the given fields and no others.
pub open spec fn reads_back(bytes: Seq<u8>, fields: Seq<(Seq<char>, JsonTree)>) -> bool {
    match json_document(bytes) {
        Some(tree) => forall|key: Seq<char>| #[trigger]
            tree.field(key) == entry_value(fields, key),
        None => false,
    }
}

/// In a record without repeated keys, a key leads to its own value.
pub proof fn lemma_entry_value(fields: Seq<(Seq<char>, JsonTree)>, at: int)
    requires
        keys_distinct(fields),
        0 <= at < fields.len(),
    ensures
        entry_value(fields, fields[at].0) == Some(fields[at].1),
    decreases at,
{
    if at > 0 {
        let rest = fields.skip(1);
        assert(fields[0].0 != fields[at].0);
        assert forall|i: int, j: int| 0 <= i < j < rest.len() implies (#[trigger] rest[i]).0 != (
        #[trigger] rest[j]).0 by {
            assert(fields[i + 1].0 != fields[j + 1].0);
        }
        lemma_entry_value(rest, at - 1);
        assert(rest[at - 1] == fields[at]);
    }
}

/// The bytes that `serde_json::to_vec` writes for a flat record of the given fields.
pub uninterp spec fn json_encoding(fields: Seq<(Seq<char>, JsonTree)>) -> Seq<u8>;

/// Calls `serde_json::to_vec` on the `serde_json::Value::Object` of the given fields. The
/// contract names the bytes, which depend on the fields alone. It says that the call succeeds, as
/// it can fail only on a key that is no string or in the writer, and that `serde_json::from_slice`
/// reads the fields back, if no key occurs twice. It says nothing else of what the bytes are.
#[verifier::external_body]
fn record_to_vec(fields: &Vec<(String, JsonScalar)>) -> (r: Result<Vec<u8>, serde_json::Error>)
    ensures
        r is Ok,
        r->Ok_0@ == json_encoding(record_fields(fields@)),
        keys_distinct(record_fields(fields@)) ==> reads_back(r->Ok_0@, record_fields(fields@)),
{
    let entries = fields.iter().map(|(key, value)| (key.clone(), match value {
        JsonScalar::Number(n) => serde_json::Value::from(*n),
        JsonScalar::Flag(b) => serde_json::Value::from(*b),
        JsonScalar::Text(s) => serde_json::Value::from(s.as_str()),
    }));
    serde_json::to_vec(&serde_json::Value::Object(entries.collect()))
}

/// Encodes a flat record.
pub fn encode_record(fields: &Vec<(String, JsonScalar)>) -> (r: Result<Vec<u8>, serde_json::Error>)
    ensures
        r is Ok,
        r->Ok_0@ == json_encoding(record_fields(fields@)),
        keys_distinct(record_fields(fields@)) ==> reads_back(r->Ok_0@, record_fields(fields@)),
{
    record_to_vec(fields)
}

/// The value of a key is that of the first entry under it, and there is none exactly when no entry
/// is under it.
pub proof fn law_first_entry_counts(entries: Seq<(Seq<char>, JsonTree)>, key: Seq<char>)
    ensures
        entry_value(entries, key) is None <==> forall|i: int|
            0 <= i < entries.len() ==> (#[trigger] entries[i]).0 != key,
        entry_value(entries, key) matches Some(value) ==> exists|at: int|
            0 <= at < entries.len() && (#[trigger] entries[at]).0 == key && entries[at].1 == value
                && forall|i: int| 0 <= i < at ==> (#[trigger] entries[i]).0 != key,
    decreases entries.len(),
{
    if entries.len() > 0 {
        if entries[0].0 == key {
            assert(entries[0].1 == entry_value(entries, key)->0);
        } else {
            let rest = entries.skip(1);
            law_first_entry_counts(rest, key);
            if entry_value(rest, key) is None {
                assert forall|i: int| 0 <= i < entries.len() implies (#[trigger] entries[i]).0
                    != key by {
                    if i > 0 {
                        assert(rest[i - 1] == entries[i]);
                    }
                }
            } else {
                let value = entry_value(rest, key)->0;
                let at = choose|at: int|
                    0 <= at < rest.len() && (#[trigger] rest[at]).0 == key && rest[at].1 == value
                        && forall|i: int| 0 <= i < at ==> (#[trigger] rest[i]).0 != key;
                assert(entries[at + 1] == rest[at]);
                assert forall|i: int| 0 <= i < at + 1 implies (#[trigger] entries[i]).0 != key by {
                    if i > 0 {
                        assert(rest[i - 1] == entries[i]);
                    }
                }
            }
        }
    }
}

} // verus!
