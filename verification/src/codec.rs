//! The bytes of a persisted store: MessagePack, written and read by
//! `rmp_serde` on headers and records taken as plain strings.

use vstd::prelude::*;

verus! {

/// `rmp_serde::encode::Error`, carried through and never looked into.
#[verifier::external_type_specification]
#[verifier::external_body]
pub struct ExEncodeError(rmp_serde::encode::Error);

/// `rmp_serde::decode::Error`, carried through and never looked into.
#[verifier::external_type_specification]
#[verifier::external_body]
pub struct ExDecodeError(rmp_serde::decode::Error);

/// The MessagePack bytes that `rmp_serde` writes for a pair of headers and
/// categories of records, each record being its name, summary, library and
/// documentation link; `None` where it reports an error.
pub uninterp spec fn msgpack_of(
    headers: Seq<Seq<char>>,
    categories: Seq<Seq<(Seq<char>, Seq<char>, Seq<char>, Seq<char>)>>,
) -> Option<Seq<u8>>;

/// The pair of headers and categories that `rmp_serde` reads from MessagePack
/// bytes; `None` where it reports an error.
pub uninterp spec fn msgpack_read(bytes: Seq<u8>) -> Option<
    (Seq<Seq<char>>, Seq<Seq<(Seq<char>, Seq<char>, Seq<char>, Seq<char>)>>),
>;

/// The text takes fewer than 2^32 bytes as UTF-8.
pub open spec fn short_text(text: Seq<char>) -> bool {
    vstd::utf8::encode_utf8(text).len() <= 0xffff_ffff
}

/// Every length that the bytes record fits the 32 bits that MessagePack has
/// for it.
pub open spec fn fits_msgpack(
    headers: Seq<Seq<char>>,
    categories: Seq<Seq<(Seq<char>, Seq<char>, Seq<char>, Seq<char>)>>,
) -> bool {
    &&& headers.len() <= 0xffff_ffff
    &&& categories.len() <= 0xffff_ffff
    &&& forall|i: int| 0 <= i < headers.len() ==> short_text(#[trigger] headers[i])
    &&& forall|k: int| 0 <= k < categories.len() ==> (#[trigger] categories[k]).len() <= 0xffff_ffff
    &&& forall|k: int, j: int|
        0 <= k < categories.len() && 0 <= j < categories[k].len() ==> {
            let record = #[trigger] categories[k][j];
            short_text(record.0) && short_text(record.1) && short_text(record.2) && short_text(
                record.3,
            )
        }
}

/// Calls `rmp_serde::encode::write` on the pair of `headers` and
/// `categories`, into a fresh vector. Trusted: the bytes are those named by
/// [`msgpack_of`], and where every length fits 32 bits, reading them back
/// gives the same headers and categories. A pair and a record are written as
/// arrays, a text as a string, each preceded by its length cut to 32 bits.
#[verifier::external_body]
pub(crate) fn write_msgpack(
    headers: &Vec<String>,
    categories: &Vec<Vec<(String, String, String, String)>>,
) -> (written: Result<Vec<u8>, rmp_serde::encode::Error>)
    ensures
        match written {
            Ok(bytes) => {
                &&& msgpack_of(headers.deep_view(), categories.deep_view()) == Some(bytes@)
                &&& fits_msgpack(headers.deep_view(), categories.deep_view()) ==> msgpack_read(bytes@)
                    == Some((headers.deep_view(), categories.deep_view()))
            },
            Err(_) => msgpack_of(headers.deep_view(), categories.deep_view()) is None,
        },
{
    let mut bytes: Vec<u8> = Vec::new();
    rmp_serde::encode::write(&mut bytes, &(headers, categories))?;
    Ok(bytes)
}

/// Calls `rmp_serde::from_read` on `bytes`, for a pair of headers and
/// categories. Trusted: what comes back is what [`msgpack_read`] names.
#[verifier::external_body]
pub(crate) fn read_msgpack(bytes: &[u8]) -> (read: Result<
    (Vec<String>, Vec<Vec<(String, String, String, String)>>),
    rmp_serde::decode::Error,
>)
    ensures
        match read {
            Ok(parts) => msgpack_read(bytes@) == Some(parts.deep_view()),
            Err(_) => msgpack_read(bytes@) is None,
        },
{
    rmp_serde::from_read(bytes)
}

} // verus!
