//! Loading an image as an inline data URI: the computing half of the load
//! command. Reading the file from disk happens outside this library; the
//! outcome of that read is handed in here as a plain value.
use vstd::prelude::*;

use crate::b64::base64_decode;
use crate::b64::base64_encode;
use crate::b64::encode_bytes;
use crate::b64::lemma_base64_round_trip;

verus! {

/// The fixed prefix of every successful load: the data-URI scheme with the
/// hardcoded JPEG MIME type.
pub open spec fn data_uri_prefix() -> Seq<char> {
    "data:image/jpeg;base64,"@
}

/// The data URI for a byte payload: the fixed prefix followed by the
/// standard base64 encoding of the bytes.
pub open spec fn data_uri_of(bytes: Seq<u8>) -> Seq<char> {
    data_uri_prefix() + base64_encode(bytes)
}

/// What a load returns, as a function of the outcome of the file read: the
/// data URI of the bytes read, or the read error's message unchanged.
pub open spec fn load_result(read: Result<Seq<u8>, Seq<char>>) -> Result<Seq<char>, Seq<char>> {
    match read {
        Ok(bytes) => Ok(data_uri_of(bytes)),
        Err(msg) => Err(msg),
    }
}

/// The mathematical value of a read outcome.
pub open spec fn read_view(read: Result<Vec<u8>, String>) -> Result<Seq<u8>, Seq<char>> {
    match read {
        Ok(bytes) => Ok(bytes@),
        Err(msg) => Err(msg@),
    }
}

/// The mathematical value of a load outcome.
pub open spec fn output_view(out: Result<String, String>) -> Result<Seq<char>, Seq<char>> {
    match out {
        Ok(uri) => Ok(uri@),
        Err(msg) => Err(msg@),
    }
}

/// Builds the data URI for a byte payload.
pub fn data_uri_from_bytes(bytes: &Vec<u8>) -> (r: String)
    requires
        bytes@.len() / 3 * 4 + 4 <= usize::MAX,
    ensures
        r@ == data_uri_of(bytes@),
{
    let mut uri = String::from_str("data:image/jpeg;base64,");
    let payload = encode_bytes(bytes);
    uri.append(payload.as_str());
    uri
}

/// Turns the outcome of reading an image file into the command's reply:
/// the bytes of a successful read become a base64 data URI, the message of
/// a failed read is passed through unchanged.
pub fn load_image_as_base64(read: Result<Vec<u8>, String>) -> (r: Result<String, String>)
    requires
        read matches Ok(bytes) ==> bytes@.len() / 3 * 4 + 4 <= usize::MAX,
    ensures
        output_view(r) == load_result(read_view(read)),
{
    match read {
        Ok(bytes) => Ok(data_uri_from_bytes(&bytes)),
        Err(msg) => Err(msg),
    }
}

/// Every data URI begins with exactly the fixed prefix, and what follows
/// it is the base64 encoding of the payload bytes.
pub proof fn lemma_data_uri_shape(bytes: Seq<u8>)
    ensures
        data_uri_of(bytes).len() >= 23,
        data_uri_of(bytes).take(23) == data_uri_prefix(),
        data_uri_of(bytes).skip(23) == base64_encode(bytes),
{
    reveal_strlit("data:image/jpeg;base64,");
    assert(data_uri_of(bytes).take(23) =~= data_uri_prefix());
    assert(data_uri_of(bytes).skip(23) =~= base64_encode(bytes));
}

/// Decoding the payload portion of a data URI reproduces the original
/// bytes exactly.
pub proof fn lemma_data_uri_round_trip(bytes: Seq<u8>)
    ensures
        base64_decode(data_uri_of(bytes).skip(23)) == bytes,
{
    lemma_data_uri_shape(bytes);
    lemma_base64_round_trip(bytes);
}

/// Loading is deterministic: two loads of the same read outcome agree.
pub proof fn lemma_load_deterministic(
    read: Result<Seq<u8>, Seq<char>>,
    r1: Result<Seq<char>, Seq<char>>,
    r2: Result<Seq<char>, Seq<char>>,
)
    requires
        r1 == load_result(read),
        r2 == load_result(read),
    ensures
        r1 == r2,
{
}

/// An empty payload produces the bare prefix: nothing follows the comma.
pub proof fn lemma_empty_payload()
    ensures
        data_uri_of(Seq::<u8>::empty()) == data_uri_prefix(),
{
    assert(data_uri_of(Seq::<u8>::empty()) =~= data_uri_prefix());
}

} // verus!
