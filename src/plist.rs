//! Lookups in Apple property lists, which may be XML or binary.
use vstd::prelude::*;

verus! {

/// The string array stored under `key` at the top level of the property
/// list `bytes`; `None` when the bytes are no property list, the key is
/// absent, or the value is not an array of strings.
pub uninterp spec fn plist_strings(bytes: Seq<u8>, key: Seq<char>) -> Option<Seq<Seq<char>>>;

/// The string stored under `key` at the top level of the property list
/// `bytes`; `None` when the bytes are no property list, the key is absent,
/// or the value is not a string.
pub uninterp spec fn plist_string(bytes: Seq<u8>, key: Seq<char>) -> Option<Seq<char>>;

/// The binary encoding of the XML property list `xml`, `None` when it
/// cannot be read.
pub uninterp spec fn binary_plist(xml: Seq<u8>) -> Option<Seq<u8>>;

/// Relies on `plist::Value::from_reader`, `as_dictionary`, `get`,
/// `as_array` and `as_string`: reads a property list of any encoding and
/// looks up a string array.
#[verifier::external_body]
pub fn get_string_array(bytes: &[u8], key: &str) -> (r: Option<Vec<String>>)
    ensures
        match r {
            Some(v) => plist_strings(bytes@, key@) == Some(v@.map_values(|s: String| s@)),
            None => plist_strings(bytes@, key@) is None,
        },
{
    let value = plist::Value::from_reader(std::io::Cursor::new(bytes)).ok()?;
    let items = value.as_dictionary()?.get(key)?.as_array()?;
    items.iter().map(|v| v.as_string().map(String::from)).collect()
}

/// Relies on `plist::Value::from_reader`, `as_dictionary`, `get` and
/// `as_string`: reads a property list of any encoding and looks up a string.
#[verifier::external_body]
pub fn get_string(bytes: &[u8], key: &str) -> (r: Option<String>)
    ensures
        match r {
            Some(s) => plist_string(bytes@, key@) == Some(s@),
            None => plist_string(bytes@, key@) is None,
        },
{
    let value = plist::Value::from_reader(std::io::Cursor::new(bytes)).ok()?;
    value.as_dictionary()?.get(key)?.as_string().map(String::from)
}

/// Relies on `plist::Value::from_reader_xml` and `to_writer_binary`:
/// re-encodes an XML property list as a binary one.
#[verifier::external_body]
fn encode_binary(xml: &[u8]) -> (r: Option<Vec<u8>>)
    ensures
        match r {
            Some(b) => binary_plist(xml@) == Some(b@),
            None => binary_plist(xml@) is None,
        },
{
    let value = plist::Value::from_reader_xml(std::io::Cursor::new(xml)).ok()?;
    let mut out: Vec<u8> = Vec::new();
    value.to_writer_binary(&mut out).ok()?;
    Some(out)
}

/// The bytes injected for an XML property list: its binary encoding, or
/// the original bytes when it cannot be re-encoded.
pub open spec fn metadata_to_inject(xml: Seq<u8>) -> Seq<u8> {
    match binary_plist(xml) {
        Some(b) => b,
        None => xml,
    }
}

/// Re-encodes an XML property list as binary, keeping the original bytes
/// when that fails.
pub fn xml_to_binary_plist(xml: &[u8]) -> (r: Vec<u8>)
    ensures
        r@ == metadata_to_inject(xml@),
{
    match encode_binary(xml) {
        Some(b) => b,
        None => {
            let mut v: Vec<u8> = Vec::new();
            let mut i: usize = 0;
            while i < xml.len()
                invariant
                    i <= xml@.len(),
                    v@ == xml@.take(i as int),
                decreases xml.len() - i,
            {
                v.push(xml[i]);
                i = i + 1;
                assert(v@ =~= xml@.take(i as int));
            }
            assert(xml@.take(xml@.len() as int) =~= xml@);
            v
        },
    }
}

} // verus!
