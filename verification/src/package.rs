//! Result packaging: the mime type and the base64 `data:` URL.

use vstd::prelude::*;
use vstd::string::StringExecFns;
use crate::b64::{b64_decode, b64_encode, encode_bytes, lemma_b64_encode_ascii,
    lemma_b64_round_trip};
use crate::format::FormatTag;
use crate::format::mime_type;

verus! {

/// The ASCII bytes of `s`, read as characters.
pub open spec fn ascii_chars(s: Seq<u8>) -> Seq<char> {
    Seq::new(s.len(), |i: int| s[i] as char)
}

/// Relies on `String::from_utf8`: a vector of ASCII bytes is valid UTF-8
/// and converts to the string of exactly those characters.
#[verifier::external_body]
fn ascii_string(v: Vec<u8>) -> (r: String)
    requires
        forall|i: int| 0 <= i < v@.len() ==> v@[i] < 128,
    ensures
        r@ == ascii_chars(v@),
{
    String::from_utf8(v).unwrap_or_default()
}

/// The self-describing payload: `data:<mime>;base64,<payload>`.
pub open spec fn data_url_chars(mime: Seq<char>, encoded: Seq<u8>) -> Seq<char> {
    "data:"@ + mime + ";base64,"@ + ascii_chars(b64_encode(encoded))
}

/// A processed image ready for transport.
pub struct Packaged {
    pub mime: String,
    pub data_url: String,
    pub encoded: Vec<u8>,
}

/// Packages encoded image bytes: picks the mime type from the format tag
/// (`image/png` iff PNG, otherwise `image/jpeg`) and renders the bytes as
/// a base64 `data:` URL a client can use without a second round trip.
pub fn package(encoded: Vec<u8>, tag: FormatTag) -> (r: Packaged)
    ensures
        tag == FormatTag::Png ==> r.mime@ == "image/png"@,
        tag != FormatTag::Png ==> r.mime@ == "image/jpeg"@,
        r.encoded@ == encoded@,
        r.data_url@ == data_url_chars(r.mime@, encoded@),
{
    let mime = mime_type(tag);
    let payload = encode_bytes(&encoded);
    proof {
        lemma_b64_encode_ascii(encoded@);
    }
    let ptext = ascii_string(payload);
    let mut url = String::from_str("data:");
    url.append(mime);
    url.append(";base64,");
    url.append(ptext.as_str());
    proof {
        assert(url@ =~= "data:"@ + mime@ + ";base64,"@ + ascii_chars(b64_encode(encoded@)));
    }
    Packaged { mime: String::from_str(mime), data_url: url, encoded }
}

/// The payload round-trips: in the data URL built for `encoded`, the
/// characters after the `data:<mime>;base64,` prefix are exactly the
/// base64 of `encoded`, and decoding that base64 reproduces `encoded`
/// byte for byte.
pub proof fn lemma_payload_round_trip(mime: Seq<char>, encoded: Seq<u8>)
    ensures
        ({
            let url = data_url_chars(mime, encoded);
            let plen = "data:"@.len() + mime.len() + ";base64,"@.len();
            let payload = url.skip(plen as int);
            &&& url.len() == plen + b64_encode(encoded).len()
            &&& Seq::new(payload.len(), |i: int| payload[i] as u8) == b64_encode(encoded)
            &&& b64_decode(b64_encode(encoded)) == Some(encoded)
        }),
{
    lemma_b64_round_trip(encoded);
    lemma_b64_encode_ascii(encoded);
    let url = data_url_chars(mime, encoded);
    let plen = "data:"@.len() + mime.len() + ";base64,"@.len();
    let payload = url.skip(plen as int);
    assert(payload =~= ascii_chars(b64_encode(encoded)));
    assert(Seq::new(payload.len(), |i: int| payload[i] as u8) =~= b64_encode(encoded));
}

} // verus!
