//! The transmitted form of an asset's bytes: base64 text wrapped in a
//! data-URI-style prefix declaring an image payload.

use vstd::prelude::*;

verus! {

/// What the standard padded base64 encoding of a byte sequence is. The
/// encoding is a pure function of the bytes; its value is pinned only by
/// the outside implementation.
pub uninterp spec fn base64_of(bytes: Seq<u8>) -> Seq<char>;

/// Relies on `base64::encode`: standard-alphabet base64 with `=` padding,
/// four characters for every started three-byte block, a function of the
/// bytes alone.
#[verifier::external_body]
fn base64_encode(data: &[u8]) -> (r: String)
    requires
        4 * ((data@.len() + 2) / 3) <= usize::MAX,
    ensures
        r@ == base64_of(data@),
        r@.len() == 4 * ((data@.len() + 2) / 3),
{
    base64::encode(data)
}

/// The file payload for an upload request: the raw bytes base64-encoded and
/// prefixed as an inline image.
pub open spec fn data_uri_of(bytes: Seq<u8>) -> Seq<char> {
    "data:image/jpg;base64,"@ + base64_of(bytes)
}

/// Builds the transmitted file payload from an asset's raw bytes.
pub fn encode_image_payload(data: &[u8]) -> (r: String)
    requires
        4 * ((data@.len() + 2) / 3) <= usize::MAX,
    ensures
        r@ == data_uri_of(data@),
{
    let mut s = String::from_str("data:image/jpg;base64,");
    let encoded = base64_encode(data);
    s.append(encoded.as_str());
    s
}

} // verus!
