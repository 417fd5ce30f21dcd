//! Rendering one key of a resolved secret's payload.
//!
//! A resolved secret carries an optional payload: an ordered list of
//! key/raw-bytes entries. The renderer lists the keys for the pick-list,
//! looks the chosen key up again in the payload, and decodes its bytes with
//! a strict UTF-8 decoder — invalid bytes are a failure, never silently
//! replaced.

use vstd::prelude::*;
use vstd::utf8::decode_utf8;
use vstd::utf8::valid_utf8;

verus! {

/// A secret record as the resolver and renderer see it: a namespace, a name,
/// and an optional payload of key/raw-bytes entries in a stable order.
#[derive(Debug, PartialEq, Eq)]
pub struct SecretRecord {
    pub namespace: String,
    pub name: String,
    pub payload: Option<Vec<(String, Vec<u8>)>>,
}

/// The failures of the render step, each fatal to the invocation.
#[derive(Debug, Clone, Copy, PartialEq, Eq)]
pub enum RenderError {
    /// The resolved secret has no payload to choose a key from.
    PayloadMissing,
    /// Defensive: the selected key was absent from the payload at lookup time.
    KeyVanished,
    /// The selected value's bytes are not valid text under the expected
    /// encoding.
    DecodeError,
}

/// The two-field display of one payload entry: the selected key and its
/// decoded value.
#[derive(Debug, PartialEq, Eq)]
pub struct Rendered {
    pub key: String,
    pub value: String,
}

/// The payload's keys, in the payload's own order.
pub open spec fn keys_model(entries: Seq<(String, Vec<u8>)>) -> Seq<Seq<char>> {
    entries.map_values(|kv: (String, Vec<u8>)| kv.0@)
}

/// The value of the first entry whose key equals `key`, if any.
pub open spec fn lookup_model(entries: Seq<(String, Vec<u8>)>, key: Seq<char>) -> Option<Seq<u8>>
    decreases entries.len(),
{
    if entries.len() == 0 {
        None
    } else if entries[0].0@ == key {
        Some(entries[0].1@)
    } else {
        lookup_model(entries.subrange(1, entries.len() as int), key)
    }
}

/// The mathematical outcome of rendering one key of a payload.
pub enum RenderModel {
    Missing,
    Vanished,
    Undecodable,
    Shown(Seq<char>, Seq<char>),
}

/// What rendering a key of an optional payload must come to: no payload is
/// `Missing`; a key absent from the payload is `Vanished`; a value that is
/// not well-formed UTF-8 is `Undecodable`; otherwise the key is shown with
/// its strictly decoded text.
pub open spec fn render_model(payload: Option<Seq<(String, Vec<u8>)>>, key: Seq<char>) -> RenderModel {
    match payload {
        Option::None => RenderModel::Missing,
        Option::Some(entries) => match lookup_model(entries, key) {
            Option::None => RenderModel::Vanished,
            Option::Some(bytes) => if valid_utf8(bytes) {
                RenderModel::Shown(key, decode_utf8(bytes))
            } else {
                RenderModel::Undecodable
            },
        },
    }
}

/// The payload of a record, as a sequence of entries, if the record has one.
pub open spec fn payload_view(rec: SecretRecord) -> Option<Seq<(String, Vec<u8>)>> {
    match rec.payload {
        Option::None => Option::None,
        Option::Some(entries) => Option::Some(entries@),
    }
}

/// The model that an executable outcome of `render_selected` stands for.
pub open spec fn rendered_model(r: Result<Rendered, RenderError>) -> RenderModel {
    match r {
        Result::Ok(out) => RenderModel::Shown(out.key@, out.value@),
        Result::Err(RenderError::PayloadMissing) => RenderModel::Missing,
        Result::Err(RenderError::KeyVanished) => RenderModel::Vanished,
        Result::Err(RenderError::DecodeError) => RenderModel::Undecodable,
    }
}

/// Relies on std's `str::from_utf8`: `Ok` exactly on well-formed UTF-8 input,
/// with strict validation — invalid byte sequences are an `Err`, never
/// replaced or truncated.
#[verifier::external_body]
fn utf8_to_string(bytes: &Vec<u8>) -> (r: Option<String>)
    ensures
        r is Some <==> valid_utf8(bytes@),
        r matches Some(s) ==> s@ == decode_utf8(bytes@),
{
    match std::str::from_utf8(bytes.as_slice()) {
        Ok(text) => Some(text.to_owned()),
        Err(_) => None,
    }
}

/// The keys of the record's payload, in the payload's own order, for the
/// pick-list; a record without a payload has no keys to offer.
pub fn payload_keys(record: &SecretRecord) -> (r: Result<Vec<String>, RenderError>)
    ensures
        match r {
            Result::Ok(keys) => record.payload matches Some(entries) && keys.deep_view()
                == keys_model(entries@),
            Result::Err(e) => record.payload is None && e == RenderError::PayloadMissing,
        },
{
    let entries = match &record.payload {
        Option::None => {
            return Err(RenderError::PayloadMissing);
        },
        Option::Some(entries) => entries,
    };
    let n = entries.len();
    let mut keys: Vec<String> = Vec::new();
    let mut i: usize = 0;
    while i < n
        invariant
            n == entries@.len(),
            0 <= i <= n,
            keys.deep_view() == keys_model(entries@.subrange(0, i as int)),
        decreases n - i,
    {
        keys.push(entries[i].0.clone());
        proof {
            assert(keys_model(entries@.subrange(0, i + 1)) =~= keys_model(
                entries@.subrange(0, i as int),
            ).push(entries@[i as int].0@));
        }
        i += 1;
    }
    proof {
        assert(entries@.subrange(0, n as int) =~= entries@);
    }
    Ok(keys)
}

/// Look the selected key up in the record's payload and decode its bytes:
/// the executable outcome stands for exactly `render_model` of the payload
/// and the key.
pub fn render_selected(record: &SecretRecord, key: &String) -> (r: Result<Rendered, RenderError>)
    ensures
        rendered_model(r) == render_model(payload_view(*record), key@),
{
    let entries = match &record.payload {
        Option::None => {
            return Err(RenderError::PayloadMissing);
        },
        Option::Some(entries) => entries,
    };
    let n = entries.len();
    proof {
        assert(entries@.subrange(0, n as int) =~= entries@);
    }
    let mut i: usize = 0;
    while i < n
        invariant
            n == entries@.len(),
            0 <= i <= n,
            payload_view(*record) == Some(entries@),
            lookup_model(entries@.subrange(i as int, n as int), key@) == lookup_model(
                entries@,
                key@,
            ),
        decreases n - i,
    {
        if entries[i].0 == *key {
            proof {
                assert(entries@.subrange(i as int, n as int)[0] == entries@[i as int]);
                assert(lookup_model(entries@, key@) == Some(entries@[i as int].1@));
            }
            let value = match utf8_to_string(&entries[i].1) {
                Option::None => {
                    return Err(RenderError::DecodeError);
                },
                Option::Some(text) => text,
            };
            return Ok(Rendered { key: key.clone(), value });
        }
        proof {
            let tail = entries@.subrange(i as int, n as int);
            assert(tail[0] == entries@[i as int]);
            assert(tail.subrange(1, tail.len() as int) =~= entries@.subrange(
                i + 1,
                n as int,
            ));
        }
        i += 1;
    }
    proof {
        assert(entries@.subrange(n as int, n as int) =~= Seq::<(String, Vec<u8>)>::empty());
    }
    Err(RenderError::KeyVanished)
}

/// The names of a list of secret records, in the list's order: the candidate
/// set for secret-name resolution.
pub fn secret_names(records: &Vec<SecretRecord>) -> (r: Vec<String>)
    ensures
        r.deep_view() == records@.map_values(|rec: SecretRecord| rec.name@),
{
    let n = records.len();
    let mut names: Vec<String> = Vec::new();
    let mut i: usize = 0;
    while i < n
        invariant
            n == records@.len(),
            0 <= i <= n,
            names.deep_view() == records@.subrange(0, i as int).map_values(
                |rec: SecretRecord| rec.name@,
            ),
        decreases n - i,
    {
        names.push(records[i].name.clone());
        proof {
            assert(records@.subrange(0, i + 1).map_values(|rec: SecretRecord| rec.name@)
                =~= records@.subrange(0, i as int).map_values(|rec: SecretRecord| rec.name@).push(
                records@[i as int].name@,
            ));
        }
        i += 1;
    }
    proof {
        assert(records@.subrange(0, n as int) =~= records@);
    }
    names
}

/// Find the first record carrying the given name: the re-derivation of the
/// chosen record after a pick, by name rather than by position.
pub fn find_secret_by_name(records: &Vec<SecretRecord>, name: &String) -> (r: Option<usize>)
    ensures
        match r {
            Option::Some(i) => i < records@.len() && records@[i as int].name@ == name@ && (forall|
                j: int,
            |
                0 <= j < i ==> records@[j].name@ != name@),
            Option::None => forall|j: int| 0 <= j < records@.len() ==> records@[j].name@ != name@,
        },
{
    let n = records.len();
    let mut i: usize = 0;
    while i < n
        invariant
            n == records@.len(),
            0 <= i <= n,
            forall|j: int| 0 <= j < i ==> records@[j].name@ != name@,
        decreases n - i,
    {
        if records[i].name == *name {
            return Some(i);
        }
        i += 1;
    }
    None
}

} // verus!
