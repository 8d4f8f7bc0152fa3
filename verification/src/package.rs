//! Package records: what the catalog keeps of one entry of a repository.
//!
//! A record arrives as the text of a JSON object. The catalog itself reads two
//! of its members, the identifier `uuid` and the composite name `full_name`;
//! the rest of the document travels along untouched.

use vstd::prelude::*;
use vstd::utf8::*;
use serde_json::Value;
use crate::text::utf8_text;

verus! {

/// Trusted: a JSON document of `serde_json`. Nothing of its inside is known
/// but what the functions below say.
#[verifier::external_type_specification]
#[verifier::external_body]
pub struct ExValue(Value);

/// The JSON value that `text` begins with, as the stream reader of
/// `serde_json` finds it: whitespace before the value is skipped, and what
/// follows a complete object, array or string is not read. `None` where the
/// text is empty or does not begin with a JSON value.
pub uninterp spec fn leading_json(text: Seq<char>) -> Option<Value>;

/// The member `key` of a JSON object; `None` for a value that is no object or
/// has no such member.
pub uninterp spec fn json_member(value: Value, key: Seq<char>) -> Option<Value>;

/// The characters of a JSON string; `None` for any other value.
pub uninterp spec fn json_text(value: Value) -> Option<Seq<char>>;

/// Trusted: the first item that `serde_json::Deserializer::from_str(text)`
/// yields as a stream of `Value`s. It is a function of the text alone and is
/// named `leading_json`; the end of the stream and a syntax error both count
/// as no value.
#[verifier::external_body]
fn read_leading_json(text: &str) -> (value: Option<Value>)
    ensures
        value == leading_json(text@),
{
    match serde_json::Deserializer::from_str(text).into_iter::<Value>().next() {
        Some(Ok(value)) => Some(value),
        Some(Err(_)) => None,
        None => None,
    }
}

/// Trusted: `serde_json::Value::get` with a string index. The member it finds
/// is named `json_member`.
#[verifier::external_body]
fn member<'a>(value: &'a Value, key: &str) -> (found: Option<&'a Value>)
    ensures
        match found {
            Some(inner) => json_member(*value, key@) == Some(*inner),
            None => json_member(*value, key@) is None,
        },
{
    value.get(key)
}

/// Trusted: `serde_json::Value::as_str`. The string it finds is named
/// `json_text`.
#[verifier::external_body]
fn text_of<'a>(value: &'a Value) -> (found: Option<&'a str>)
    ensures
        match found {
            Some(text) => json_text(*value) == Some(text@),
            None => json_text(*value) is None,
        },
{
    value.as_str()
}

/// One entry of a catalog.
pub struct PackageListing {
    uuid: String,
    full_name: String,
    document: Value,
}

/// A package record as contracts see it.
pub struct PackageListingView {
    /// The identifier: the key of the record in a catalog.
    pub uuid: Seq<char>,
    /// Namespace, name and version in one: what exclusion goes by.
    pub full_name: Seq<char>,
    /// The whole JSON object that the record was read from.
    pub document: Value,
}

impl View for PackageListing {
    type V = PackageListingView;

    closed spec fn view(&self) -> PackageListingView {
        PackageListingView {
            uuid: self.uuid@,
            full_name: self.full_name@,
            document: self.document,
        }
    }
}

/// The string member `key` of a JSON object.
pub open spec fn text_member(document: Value, key: Seq<char>) -> Option<Seq<char>> {
    match json_member(document, key) {
        Some(inner) => json_text(inner),
        None => None,
    }
}

/// The record that a JSON document describes: it must be an object whose
/// members `uuid` and `full_name` are strings.
pub open spec fn listing_of(document: Value) -> Option<PackageListingView> {
    match (text_member(document, "uuid"@), text_member(document, "full_name"@)) {
        (Some(uuid), Some(full_name)) => Some(PackageListingView { uuid, full_name, document }),
        _ => None,
    }
}

/// The record that a text describes: the JSON value it begins with, read as a
/// record.
pub open spec fn listing_of_text(text: Seq<char>) -> Option<PackageListingView> {
    match leading_json(text) {
        Some(document) => listing_of(document),
        None => None,
    }
}

/// The record that the bytes of a text describe. Bytes that are not UTF-8
/// describe none.
pub open spec fn listing_of_bytes(bytes: Seq<u8>) -> Option<PackageListingView> {
    if valid_utf8(bytes) {
        listing_of_text(decode_utf8(bytes))
    } else {
        None
    }
}

/// The view of a listing that may be absent.
pub open spec fn view_of(listing: Option<PackageListing>) -> Option<PackageListingView> {
    match listing {
        Some(listing) => Some(listing@),
        None => None,
    }
}

fn owned_member(document: &Value, key: &str) -> (found: Option<String>)
    ensures
        match found {
            Some(text) => text_member(*document, key@) == Some(text@),
            None => text_member(*document, key@) is None,
        },
{
    match member(document, key) {
        Some(inner) => match text_of(inner) {
            Some(text) => Some(text.to_owned()),
            None => None,
        },
        None => None,
    }
}

impl PackageListing {
    /// The record with the given identifier and composite name, which keeps
    /// the given document.
    pub fn new(uuid: String, full_name: String, document: Value) -> (listing: PackageListing)
        ensures
            listing@ == (PackageListingView { uuid: uuid@, full_name: full_name@, document }),
    {
        PackageListing { uuid, full_name, document }
    }

    /// Reads a record out of a JSON document, which it keeps.
    pub fn from_document(document: Value) -> (listing: Option<PackageListing>)
        ensures
            view_of(listing) == listing_of(document),
    {
        let uuid = match owned_member(&document, "uuid") {
            Some(uuid) => uuid,
            None => {
                return None;
            },
        };
        let full_name = match owned_member(&document, "full_name") {
            Some(full_name) => full_name,
            None => {
                return None;
            },
        };
        Some(PackageListing::new(uuid, full_name, document))
    }

    /// Reads a record out of the text of a JSON object. What follows the
    /// object in `text` is ignored.
    pub fn parse(text: &str) -> (listing: Option<PackageListing>)
        ensures
            view_of(listing) == listing_of_text(text@),
    {
        match read_leading_json(text) {
            Some(document) => PackageListing::from_document(document),
            None => None,
        }
    }

    /// Reads a record out of the UTF-8 bytes of the text of a JSON object.
    pub fn parse_bytes(bytes: &[u8]) -> (listing: Option<PackageListing>)
        ensures
            view_of(listing) == listing_of_bytes(bytes@),
    {
        match utf8_text(bytes) {
            Some(text) => {
                proof {
                    encode_utf8_decode_utf8(text@);
                }
                PackageListing::parse(text)
            },
            None => None,
        }
    }

    /// The identifier of the record.
    pub fn uuid(&self) -> (uuid: &str)
        ensures
            uuid@ == self@.uuid,
    {
        self.uuid.as_str()
    }

    /// The composite name of the record.
    pub fn full_name(&self) -> (full_name: &str)
        ensures
            full_name@ == self@.full_name,
    {
        self.full_name.as_str()
    }

    /// The JSON object that the record was read from.
    pub fn document(&self) -> (document: &Value)
        ensures
            *document == self@.document,
    {
        &self.document
    }
}

} // verus!
