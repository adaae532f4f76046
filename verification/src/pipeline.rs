//! The end-to-end processing pipeline, from upload bytes to the packaged
//! result: decode, histogram, threshold, binarize, re-encode, package.

use vstd::prelude::*;
use crate::codec::{decode_luma, decoded_gray, encode_gray, encoded_image};
use crate::errors::ProcessError;
use crate::format::FormatTag;
use crate::gray::{GrayBuffer, MAX_PIXELS, apply, binarize_pixel};
use crate::histogram::{build, count_val, lemma_count_val_le_len};
use crate::otsu::{is_otsu_threshold, lemma_threshold_unique, solve};
use crate::package::{data_url_chars, package};

verus! {

/// The histogram of a pixel sequence, as its 256 bin counts.
pub open spec fn spec_hist(s: Seq<u8>) -> Seq<usize>
    recommends
        s.len() <= usize::MAX,
{
    Seq::new(256, |v: int| count_val(s, v as u8) as usize)
}

/// The binarization of a pixel sequence at threshold `t`.
pub open spec fn spec_binarized(s: Seq<u8>, t: u8) -> Seq<u8> {
    Seq::new(s.len(), |i: int| binarize_pixel(s[i], t))
}

/// The outcome of processing one upload.
#[derive(Debug)]
pub struct Processed {
    /// The Otsu threshold that was applied.
    pub threshold: u8,
    /// `image/png` for a PNG-tagged upload, `image/jpeg` otherwise.
    pub mime: String,
    /// `data:<mime>;base64,<payload>` over the encoded bytes.
    pub data_url: String,
    /// The re-encoded binarized image.
    pub encoded: Vec<u8>,
}

/// Everything a successful run promises about its result, given the
/// decoded samples `d`, the dimensions, and the chosen format.
pub open spec fn processed_ok(d: Seq<u8>, w: nat, h: nat, png: bool, r: Processed) -> bool {
    let enc = encoded_image(w, h, spec_binarized(d, r.threshold), png);
    &&& is_otsu_threshold(spec_hist(d), r.threshold as int)
    &&& enc is Some
    &&& r.encoded@ == enc.unwrap()
    &&& (png ==> r.mime@ == "image/png"@)
    &&& (!png ==> r.mime@ == "image/jpeg"@)
    &&& r.data_url@ == data_url_chars(r.mime@, r.encoded@)
}

/// Determinism: the Otsu threshold of a buffer's pixel data is a single
/// value, so repeated runs of the histogram builder and the solver on
/// equal data return equal thresholds.
pub proof fn lemma_processing_deterministic(d: Seq<u8>, r1: u8, r2: u8)
    requires
        is_otsu_threshold(spec_hist(d), r1 as int),
        is_otsu_threshold(spec_hist(d), r2 as int),
    ensures
        r1 == r2,
{
    lemma_threshold_unique(spec_hist(d), r1 as int, r2 as int);
}

/// The re-encoder refused the binarized buffer, whatever the (unique)
/// threshold was.
pub open spec fn encode_refused(d: Seq<u8>, w: nat, h: nat, png: bool) -> bool {
    forall|t: u8| is_otsu_threshold(spec_hist(d), t as int)
        ==> encoded_image(w, h, spec_binarized(d, t), png) is None
}

/// Processes an already-decoded grayscale buffer: builds the histogram,
/// solves for the threshold, binarizes, re-encodes in the tagged format
/// and packages the result. Fails only with `EncodeFailure`, exactly when
/// the encoder refuses the binarized buffer.
pub fn process_buffer(g: &GrayBuffer, tag: FormatTag) -> (r: Result<Processed, ProcessError>)
    requires
        g.wf(),
    ensures
        ({
            let png = tag == FormatTag::Png;
            match r {
                Ok(res) => processed_ok(g.data@, g.width as nat, g.height as nat, png, res),
                Err(e) => e == ProcessError::EncodeFailure
                    && encode_refused(g.data@, g.width as nat, g.height as nat, png),
            }
        }),
{
    let hist = build(g);
    proof {
        assert forall|v: int| 0 <= v < 256 implies hist.counts@[v]
            == spec_hist(g.data@)[v] by {
            assert(hist.counts@[(v as u8) as int] == count_val(g.data@, v as u8));
            lemma_count_val_le_len(g.data@, v as u8);
        }
        assert(hist.counts@ =~= spec_hist(g.data@));
    }
    let t = solve(&hist);
    let bin = apply(g, t);
    proof {
        assert(bin.data@ =~= spec_binarized(g.data@, t));
    }
    let png = match tag {
        FormatTag::Png => true,
        FormatTag::Jpeg => false,
    };
    match encode_gray(g.width, g.height, &bin.data, png) {
        None => {
            proof {
                assert forall|t2: u8| is_otsu_threshold(spec_hist(g.data@), t2 as int)
                    implies encoded_image(g.width as nat, g.height as nat,
                        spec_binarized(g.data@, t2), png) is None by {
                    lemma_threshold_unique(spec_hist(g.data@), t2 as int, t as int);
                }
            }
            Err(ProcessError::EncodeFailure)
        },
        Some(enc) => {
            let pk = package(enc, tag);
            Ok(Processed {
                threshold: t,
                mime: pk.mime,
                data_url: pk.data_url,
                encoded: pk.encoded,
            })
        },
    }
}

/// Processes the raw bytes of one upload. The bytes are decoded by the
/// codec adapter; bytes that are no readable image, a zero-area image,
/// and an image larger than [`MAX_PIXELS`] are rejected as unreadable.
pub fn process_bytes(bytes: &Vec<u8>, tag: FormatTag) -> (r: Result<Processed, ProcessError>)
    ensures
        ({
            let png = tag == FormatTag::Png;
            match decoded_gray(bytes@) {
                None => r == Err::<Processed, ProcessError>(ProcessError::UnreadableImage),
                Some((w, h, d)) => if d.len() == 0 || d.len() > MAX_PIXELS as nat {
                    r == Err::<Processed, ProcessError>(ProcessError::UnreadableImage)
                } else {
                    match r {
                        Ok(res) => processed_ok(d, w, h, png, res),
                        Err(e) => e == ProcessError::EncodeFailure
                            && encode_refused(d, w, h, png),
                    }
                },
            }
        }),
{
    match decode_luma(bytes) {
        None => Err(ProcessError::UnreadableImage),
        Some((w, h, data)) => {
            match GrayBuffer::new(w, h, data) {
                None => Err(ProcessError::UnreadableImage),
                Some(g) => process_buffer(&g, tag),
            }
        },
    }
}

} // verus!
