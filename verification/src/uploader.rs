//! Building one asset's upload request: the signed parameter set and the
//! multipart form fields submitted to the destination.
//!
//! The download and the submission themselves are network calls made by the
//! surrounding program; everything that decides what is sent — identifiers,
//! payload, timestamp rendering, signature — is built and pinned down here.

use vstd::prelude::*;
use crate::asset::Image;
use crate::encoding::{data_uri_of, encode_image_payload};
use crate::numeric::dec_of;
use crate::signature::{generate_signature, lemma_signing_payload_form, signature_of, signing_payload};

verus! {

/// Relies on `std::time::SystemTime::now` and `duration_since` against the
/// Unix epoch: the current time in whole seconds, zero if the clock reads
/// before the epoch. The value depends on the moment of the call, so
/// nothing is promised of it.
#[verifier::external_body]
fn system_clock_unix_seconds() -> u64 {
    match std::time::SystemTime::now().duration_since(std::time::UNIX_EPOCH) {
        Ok(elapsed) => elapsed.as_secs(),
        Err(_) => 0,
    }
}

/// The Unix timestamp (seconds) captured once per upload, at signing time.
/// Nothing is promised of the value: whatever the clock reads is signed and
/// transmitted as one and the same decimal rendering.
pub fn current_timestamp() -> u64 {
    system_clock_unix_seconds()
}

/// The values an upload is signed over: destination folder, the display and
/// public identifiers, and the Unix timestamp (seconds) captured at signing
/// time. The same timestamp rendering must be transmitted verbatim in the
/// form, or the destination rejects the signature.
pub struct UploadParameters {
    pub folder: String,
    pub display_name: String,
    pub public_id: String,
    pub timestamp: u64,
}

impl UploadParameters {
    /// Parameters for one asset: both identifiers are derived from the
    /// asset's display name.
    pub fn for_asset(image: &Image, folder: &str, timestamp: u64) -> (r: Self)
        ensures
            r.folder@ == folder@,
            r.display_name@ == image.name@,
            r.public_id@ == image.name@,
            r.timestamp == timestamp,
    {
        UploadParameters {
            folder: String::from_str(folder),
            display_name: image.name.clone(),
            public_id: image.name.clone(),
            timestamp,
        }
    }
}

/// Where an asset's bytes are fetched from: the configured base location
/// followed by the asset's relative access path.
pub fn asset_download_url(base_url: &str, image: &Image) -> (r: String)
    ensures
        r@ == base_url@ + image.url@,
{
    let mut s = String::from_str(base_url);
    s.append(image.url.as_str());
    s
}

/// The multipart form submitted to the destination, as key/value fields in
/// transmission order. The timestamp field carries exactly the decimal
/// rendering that the signature was computed over, and the signature field
/// is the digest of the canonical parameter string keyed with the secret.
pub fn build_upload_form(
    params: &UploadParameters,
    api_key: &str,
    api_secret: &str,
    file_payload: String,
) -> (r: Vec<(String, String)>)
    ensures
        r@.len() == 8,
        r@[0].0@ == "folder"@ && r@[0].1@ == params.folder@,
        r@[1].0@ == "file"@ && r@[1].1@ == file_payload@,
        r@[2].0@ == "public_id"@ && r@[2].1@ == params.public_id@,
        r@[3].0@ == "api_key"@ && r@[3].1@ == api_key@,
        r@[4].0@ == "timestamp"@ && r@[4].1@ == dec_of(params.timestamp as nat),
        r@[5].0@ == "display_name"@ && r@[5].1@ == params.display_name@,
        r@[6].0@ == "signature"@ && r@[6].1@ == signature_of(
            params.folder@,
            params.display_name@,
            params.public_id@,
            params.timestamp as nat,
            api_secret@,
        ),
        r@[7].0@ == "api_secret"@ && r@[7].1@ == api_secret@,
{
    let signature = generate_signature(
        params.folder.as_str(),
        params.display_name.as_str(),
        params.public_id.as_str(),
        params.timestamp,
        api_secret,
    );
    let timestamp_text = crate::numeric::u64_to_decimal(params.timestamp);
    let mut form: Vec<(String, String)> = Vec::new();
    form.push((String::from_str("folder"), params.folder.clone()));
    form.push((String::from_str("file"), file_payload));
    form.push((String::from_str("public_id"), params.public_id.clone()));
    form.push((String::from_str("api_key"), String::from_str(api_key)));
    form.push((String::from_str("timestamp"), timestamp_text));
    form.push((String::from_str("display_name"), params.display_name.clone()));
    form.push((String::from_str("signature"), signature));
    form.push((String::from_str("api_secret"), String::from_str(api_secret)));
    form
}

/// Builds the whole upload request for one asset from its downloaded bytes:
/// encodes the payload, derives both identifiers from the asset's name, and
/// signs with the given timestamp. The returned fields are the form to
/// submit to the destination endpoint.
pub fn prepare_upload(
    image: &Image,
    data: &[u8],
    folder: &str,
    api_key: &str,
    api_secret: &str,
    timestamp: u64,
) -> (r: Vec<(String, String)>)
    requires
        4 * ((data@.len() + 2) / 3) <= usize::MAX,
    ensures
        r@.len() == 8,
        r@[0].0@ == "folder"@ && r@[0].1@ == folder@,
        r@[1].0@ == "file"@ && r@[1].1@ == data_uri_of(data@),
        r@[2].0@ == "public_id"@ && r@[2].1@ == image.name@,
        r@[3].0@ == "api_key"@ && r@[3].1@ == api_key@,
        r@[4].0@ == "timestamp"@ && r@[4].1@ == dec_of(timestamp as nat),
        r@[5].0@ == "display_name"@ && r@[5].1@ == image.name@,
        r@[6].0@ == "signature"@ && r@[6].1@ == signature_of(
            folder@,
            image.name@,
            image.name@,
            timestamp as nat,
            api_secret@,
        ),
        r@[7].0@ == "api_secret"@ && r@[7].1@ == api_secret@,
{
    let payload = encode_image_payload(data);
    let params = UploadParameters::for_asset(image, folder, timestamp);
    build_upload_form(&params, api_key, api_secret, payload)
}

/// The decimal timestamp transmitted in the form appears verbatim inside
/// the signed payload: the signature covers exactly the string that is
/// sent, so signing and transmission cannot drift apart.
pub proof fn lemma_timestamp_in_payload(
    folder: Seq<char>,
    display_name: Seq<char>,
    public_id: Seq<char>,
    timestamp: nat,
    secret: Seq<char>,
)
    ensures
        ({
            let payload = signing_payload(folder, display_name, public_id, timestamp, secret);
            let rendered = dec_of(timestamp);
            let start = 43 + display_name.len() + folder.len() + public_id.len();
            payload.subrange(start as int, (start + rendered.len()) as int) == rendered
        }),
{
    lemma_signing_payload_form(folder, display_name, public_id, timestamp, secret);
    reveal_strlit("display_name=");
    reveal_strlit("&folder=");
    reveal_strlit("&public_id=");
    reveal_strlit("&timestamp=");
    let payload = signing_payload(folder, display_name, public_id, timestamp, secret);
    let rendered = dec_of(timestamp);
    let start = 43 + display_name.len() + folder.len() + public_id.len();
    assert(payload.subrange(start as int, (start + rendered.len()) as int) =~= rendered);
}

} // verus!
