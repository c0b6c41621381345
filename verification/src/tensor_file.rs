//! The tensor names of a safetensors file.
use crate::json::{parse_json, Json, JsonTree};
use vstd::prelude::*;
use vstd::slice::slice_subrange;

verus! {

/// A failure of `safetensors`, opaque.
#[verifier::external_type_specification]
#[verifier::external_body]
pub struct ExSafeTensorError(safetensors::SafeTensorError);

/// The names of the tensors of a safetensors file, if the bytes are one.
pub uninterp spec fn safetensors_names(bytes: Seq<u8>) -> Option<Set<Seq<char>>>;

/// Why the tensor names of a file cannot be listed.
#[derive(Debug)]
pub enum TensorFileFault {
    /// The file is not a safetensors file.
    Format(safetensors::SafeTensorError),
    /// The header is not a JSON document.
    Header(serde_json::Error),
    /// The header declares data beyond the end of the file.
    Extent,
}

/// The number that little-endian bytes stand for.
pub open spec fn little_endian_value(bytes: Seq<u8>) -> nat
    decreases bytes.len(),
{
    if bytes.len() == 0 {
        0
    } else {
        bytes[0] as nat + 256 * little_endian_value(bytes.skip(1))
    }
}

/// The header of a file: after eight bytes that give its length. None where the file is too
/// short to have one.
pub open spec fn header(bytes: Seq<u8>) -> Option<Seq<u8>> {
    if bytes.len() < 8 {
        None
    } else {
        let length = little_endian_value(bytes.take(8));
        if length > bytes.len() - 8 {
            None
        } else {
            Some(bytes.subrange(8, 8 + length as int))
        }
    }
}

/// Whether a pair of offsets ends within a file of the given length. What is no pair of numbers
/// is no pair of offsets.
pub open spec fn offsets_within(offsets: JsonTree, length: nat) -> bool {
    match offsets {
        JsonTree::List(values) => values.len() == 2 ==> match values[1] {
            JsonTree::Number(Some(end)) => end <= length,
            _ => true,
        },
        _ => true,
    }
}

/// Whether the data that an entry of a header declares ends within a file of the given length.
/// An entry is a record with a `data_offsets` field, or the list of its fields.
pub open spec fn entry_within(entry: JsonTree, length: nat) -> bool {
    match entry {
        JsonTree::Record(_) => match entry.field("data_offsets"@) {
            Some(offsets) => offsets_within(offsets, length),
            None => true,
        },
        JsonTree::List(fields) => fields.len() == 3 ==> offsets_within(fields[2], length),
        _ => true,
    }
}

/// Whether all data that a header declares ends within a file of the given length.
pub open spec fn header_within(document: JsonTree, length: nat) -> bool {
    match document {
        JsonTree::Record(entries) => entries_within(entries, length),
        _ => true,
    }
}

/// Whether all data that the entries of a header declare ends within a file of the given length.
pub open spec fn entries_within(entries: Seq<(Seq<char>, JsonTree)>, length: nat) -> bool {
    forall|i: int| 0 <= i < entries.len() ==> entry_within((#[trigger] entries[i]).1, length)
}

/// Whether a file is too short for a header, or its header is a JSON document that declares no
/// data beyond the end of the file.
pub open spec fn extent_fits(bytes: Seq<u8>) -> bool {
    match header(bytes) {
        None => true,
        Some(text) => match crate::json::json_document(text) {
            Some(document) => header_within(document, bytes.len()),
            None => false,
        },
    }
}

/// The length of a header is the number of its first eight bytes, the lowest first, and the header
/// is what follows them. A file has one exactly when it is that long.
pub proof fn law_header_follows_its_length(bytes: Seq<u8>)
    requires
        bytes.len() >= 8,
    ensures
        ({
            let length = bytes[0] + 0x100 * bytes[1] + 0x1_0000 * bytes[2] + 0x100_0000 * bytes[3]
                + 0x1_0000_0000 * bytes[4] + 0x100_0000_0000 * bytes[5] + 0x1_0000_0000_0000
                * bytes[6] + 0x100_0000_0000_0000 * bytes[7];
            &&& header(bytes) is Some <==> 8 + length <= bytes.len()
            &&& header(bytes) matches Some(text) ==> text.len() == length && forall|i: int|
                0 <= i < length ==> #[trigger] text[i] == bytes[8 + i]
        }),
{
    let field = bytes.take(8);
    assert(field.skip(1).skip(1) =~= field.skip(2));
    assert(field.skip(2).skip(1) =~= field.skip(3));
    assert(field.skip(3).skip(1) =~= field.skip(4));
    assert(field.skip(4).skip(1) =~= field.skip(5));
    assert(field.skip(5).skip(1) =~= field.skip(6));
    assert(field.skip(6).skip(1) =~= field.skip(7));
    assert(field.skip(7).skip(1) =~= Seq::empty());
    reveal_with_fuel(little_endian_value, 9);
}

/// A header is refused exactly when one of its entries is a record whose `data_offsets`, or a list
/// of three whose last, is a pair that ends in a number beyond the end of the file.
pub proof fn law_declared_data_ends_within(entries: Seq<(Seq<char>, JsonTree)>, length: nat)
    ensures
        header_within(JsonTree::Record(entries), length) <==> !exists|i: int|
            0 <= i < entries.len() && {
                let entry = (#[trigger] entries[i]).1;
                let offsets = match entry {
                    JsonTree::List(fields) => if fields.len() == 3 {
                        Some(fields[2])
                    } else {
                        None
                    },
                    _ => entry.field("data_offsets"@),
                };
                offsets matches Some(JsonTree::List(pair)) && pair.len() == 2
                    && pair[1] is Number && pair[1]->Number_0 is Some && pair[1]->Number_0->0
                    > length
            },
{
    if header_within(JsonTree::Record(entries), length) {
        assert forall|i: int| 0 <= i < entries.len() implies entry_within(
            (#[trigger] entries[i]).1,
            length,
        ) by {}
    } else {
        let i = choose|i: int|
            0 <= i < entries.len() && !entry_within((#[trigger] entries[i]).1, length);
        assert(!entry_within(entries[i].1, length));
    }
}

/// Whether no name occurs twice in a list.
pub open spec fn distinct(names: Seq<String>) -> bool {
    forall|i: int, j: int|
        0 <= i < j < names.len() ==> (#[trigger] names[i])@ != (#[trigger] names[j])@
}

/// Calls `safetensors::SafeTensors::deserialize` and lists `names()`. The contract names the set
/// of names, which depends on the bytes alone, and says that the list holds each of them once;
/// the order of the list is that of a hash map and is left open. The call adds the end of the
/// declared data to the length of the header without a check for overflow, which the
/// precondition rules out.
#[verifier::external_body]
fn deserialize_names(bytes: &[u8]) -> (names: Result<Vec<String>, safetensors::SafeTensorError>)
    requires
        extent_fits(bytes@),
    ensures
        names is Ok <==> safetensors_names(bytes@) is Some,
        names matches Ok(list) ==> distinct(list@) && forall|name: Seq<char>| #[trigger]
            crate::names::texts(list@).contains(name) <==> safetensors_names(bytes@)->0.contains(
                name,
            ),
{
    let tensors = safetensors::SafeTensors::deserialize(bytes)?;
    Ok(tensors.names().into_iter().map(str::to_string).collect())
}

/// Reads the length of a header.
fn header_length(bytes: &[u8]) -> (length: u64)
    requires
        bytes@.len() >= 8,
    ensures
        length == little_endian_value(bytes@.take(8)),
{
    let mut value: u64 = 0;
    let mut rest: usize = 8;
    let ghost field = bytes@.take(8);
    assert(field.skip(8) =~= Seq::empty());
    while rest > 0
        invariant
            rest <= 8 <= bytes@.len(),
            field == bytes@.take(8),
            value == little_endian_value(field.skip(rest as int)),
            value < crate::text::byte_capacity((8 - rest) as nat),
        decreases rest,
    {
        rest = rest - 1;
        proof {
            let tail = field.skip(rest as int);
            assert(tail[0] == bytes@[rest as int]);
            assert(tail.skip(1) =~= field.skip(rest + 1));
            crate::text::lemma_capacity_bound((8 - rest) as nat);
        }
        value = value * 256 + bytes[rest] as u64;
    }
    assert(field.skip(0) =~= field);
    value
}

/// Whether a pair of offsets ends within a file of the given length.
fn check_offsets(offsets: &Json, length: usize) -> (within: bool)
    ensures
        within == offsets_within(offsets@, length as nat),
{
    match offsets {
        Json::List(values) => {
            if values.len() != 2 {
                return true;
            }
            assert(offsets@->List_0[1] == values@[1]@);
            match &values[1] {
                Json::Number(Some(end)) => *end <= length as u64,
                _ => true,
            }
        },
        _ => true,
    }
}

/// Whether the data that an entry of a header declares ends within a file of the given length.
fn check_entry(entry: &Json, length: usize) -> (within: bool)
    ensures
        within == entry_within(entry@, length as nat),
{
    match entry {
        Json::Record(_) => match entry.get("data_offsets") {
            Some(offsets) => check_offsets(offsets, length),
            None => true,
        },
        Json::List(fields) => {
            if fields.len() != 3 {
                return true;
            }
            assert(entry@->List_0[2] == fields@[2]@);
            check_offsets(&fields[2], length)
        },
        _ => true,
    }
}

/// Whether all data that a header declares ends within a file of the given length.
pub fn check_header(document: &Json, length: usize) -> (within: bool)
    ensures
        within == header_within(document@, length as nat),
{
    let entries = match document {
        Json::Record(entries) => entries,
        _ => return true,
    };
    let ghost pairs = document@->Record_0;
    let mut at: usize = 0;
    while at < entries.len()
        invariant
            at <= entries@.len() == pairs.len(),
            document@ == JsonTree::Record(pairs),
            forall|i: int| 0 <= i < pairs.len() ==> (#[trigger] pairs[i]).1 == entries@[i].1@,
            forall|i: int| 0 <= i < at ==> entry_within((#[trigger] pairs[i]).1, length as nat),
        decreases entries@.len() - at,
    {
        let within: bool = check_entry(&entries[at].1, length);
        assert(pairs[at as int].1 == entries@[at as int].1@);
        if !within {
            assert(!entries_within(pairs, length as nat)) by {
                assert(!entry_within(pairs[at as int].1, length as nat));
            }
            return false;
        }
        at = at + 1;
    }
    true
}

/// Lists the tensor names of a safetensors file, each once, in no particular order. A header
/// that declares data beyond the end of the file is refused.
pub fn tensor_names(bytes: &[u8]) -> (names: Result<Vec<String>, TensorFileFault>)
    ensures
        match names {
            Ok(list) => {
                &&& extent_fits(bytes@)
                &&& safetensors_names(bytes@) is Some
                &&& distinct(list@)
                &&& forall|name: Seq<char>| #[trigger]
                    crate::names::texts(list@).contains(name)
                        <==> safetensors_names(bytes@)->0.contains(name)
            },
            Err(TensorFileFault::Format(_)) => extent_fits(bytes@) && safetensors_names(
                bytes@,
            ) is None,
            Err(TensorFileFault::Header(_)) => header(bytes@) is Some && crate::json::json_document(
                header(bytes@)->0,
            ) is None,
            Err(TensorFileFault::Extent) => header(bytes@) is Some && crate::json::json_document(
                header(bytes@)->0,
            ) is Some && !extent_fits(bytes@),
        },
{
    if bytes.len() >= 8 {
        let length: u64 = header_length(bytes);
        if length <= (bytes.len() - 8) as u64 {
            let text = slice_subrange(bytes, 8, 8 + length as usize);
            match parse_json(text) {
                Err(error) => return Err(TensorFileFault::Header(error)),
                Ok(document) => if !check_header(&document, bytes.len()) {
                    return Err(TensorFileFault::Extent);
                },
            }
        }
    }
    match deserialize_names(bytes) {
        Ok(list) => Ok(list),
        Err(error) => Err(TensorFileFault::Format(error)),
    }
}

/// A file is handed on exactly when it is too short for its header, or its header is a document
/// whose declared data ends within the file.
pub proof fn law_files_that_are_handed_on(bytes: Seq<u8>)
    ensures
        header(bytes) is None ==> extent_fits(bytes),
        header(bytes) matches Some(text) ==> (extent_fits(bytes) <==> crate::json::json_document(
            text,
        ) is Some && header_within(crate::json::json_document(text)->0, bytes.len())),
        bytes.len() < 8 ==> header(bytes) is None,
{
}

} // verus!
