//! Request-scoped ingestion of the multipart upload stream.
//!
//! The transport layer drives this state machine: it announces each field
//! it encounters, hands over every chunk it reads, and finally asks for
//! the assembled upload. Chunks of the `image` field are appended in
//! arrival order; none is dropped or reordered. Stream-framing failures
//! and storage failures are the transport's to report; it maps them to
//! [`ProcessError::MalformedStream`] and [`ProcessError::IoFailure`].

use vstd::prelude::*;
use vstd::string::StrSliceExecFns;
use crate::errors::ProcessError;
use crate::format::{FormatTag, infer_format, spec_infer_format};

verus! {

/// Character-wise equality of two string slices.
fn str_eq(a: &str, b: &str) -> (r: bool)
    ensures
        r == (a@ == b@),
{
    let la = a.unicode_len();
    let lb = b.unicode_len();
    if la != lb {
        return false;
    }
    let mut i: usize = 0;
    while i < la
        invariant
            i <= la,
            la == a@.len(),
            lb == b@.len(),
            la == lb,
            forall|j: int| 0 <= j < i ==> a@[j] == b@[j],
        decreases la - i,
    {
        if a.get_char(i) != b.get_char(i) {
            return false;
        }
        i = i + 1;
    }
    proof {
        assert(a@ =~= b@);
    }
    true
}

/// The accumulating state of one upload request. Fresh for every request;
/// nothing is shared across requests.
pub struct UploadIngest {
    /// Whether a field named `image` has been seen.
    pub image_found: bool,
    /// Whether the field currently being read is the `image` field.
    pub in_image: bool,
    /// The declared original filename of the image, if any.
    pub filename: Option<String>,
    /// The image bytes received so far, in arrival order.
    pub data: Vec<u8>,
}

impl UploadIngest {
    /// A fresh request: nothing seen yet.
    pub fn new() -> (r: UploadIngest)
        ensures
            !r.image_found,
            !r.in_image,
            r.filename is None,
            r.data@ == Seq::<u8>::empty(),
    {
        UploadIngest { image_found: false, in_image: false, filename: None, data: Vec::new() }
    }

    /// The transport announces the next field. Only a field whose name is
    /// exactly `image` is consumed; its declared filename, when present,
    /// replaces the recorded one. Data already received is kept.
    pub fn begin_field(&mut self, name: &str, filename: Option<&str>)
        ensures
            final(self).in_image == (name@ == "image"@),
            final(self).image_found == (old(self).image_found || name@ == "image"@),
            final(self).data@ == old(self).data@,
            (name@ == "image"@ && filename is Some) ==> (final(self).filename is Some
                && final(self).filename.unwrap()@ == filename.unwrap()@),
            !(name@ == "image"@ && filename is Some) ==> final(self).filename
                == old(self).filename,
    {
        let is_image = str_eq(name, "image");
        self.in_image = is_image;
        if is_image {
            self.image_found = true;
            match filename {
                Some(f) => {
                    self.filename = Some(f.to_owned());
                },
                None => {},
            }
        }
    }

    /// A chunk of the current field arrives: appended in order iff the
    /// current field is the `image` field, otherwise ignored.
    pub fn chunk(&mut self, bytes: &Vec<u8>)
        ensures
            final(self).image_found == old(self).image_found,
            final(self).in_image == old(self).in_image,
            final(self).filename == old(self).filename,
            old(self).in_image ==> final(self).data@ == old(self).data@ + bytes@,
            !old(self).in_image ==> final(self).data@ == old(self).data@,
    {
        if self.in_image {
            let mut i: usize = 0;
            while i < bytes.len()
                invariant
                    i <= bytes@.len(),
                    self.data@ == old(self).data@ + bytes@.take(i as int),
                    self.image_found == old(self).image_found,
                    self.in_image == old(self).in_image,
                    self.filename == old(self).filename,
                decreases bytes@.len() - i,
            {
                self.data.push(bytes[i]);
                proof {
                    assert(old(self).data@ + bytes@.take(i as int + 1)
                        =~= (old(self).data@ + bytes@.take(i as int)).push(bytes@[i as int]));
                }
                i = i + 1;
            }
            proof {
                assert(bytes@.take(bytes@.len() as int) =~= bytes@);
            }
        } else {
            proof {
                assert(self.data@ =~= old(self).data@);
            }
        }
    }

    /// The stream is exhausted: yields the assembled bytes and the format
    /// tag inferred from the declared filename, or `NoImageField` when no
    /// `image` field ever arrived.
    pub fn finish(self) -> (r: Result<(Vec<u8>, FormatTag), ProcessError>)
        ensures
            self.image_found ==> (r is Ok && r.unwrap().0@ == self.data@
                && r.unwrap().1 == spec_infer_format(match self.filename {
                    Some(f) => Some(f@),
                    None => None,
                })),
            !self.image_found ==> r == Err::<(Vec<u8>, FormatTag), ProcessError>(
                ProcessError::NoImageField),
    {
        if !self.image_found {
            return Err(ProcessError::NoImageField);
        }
        let tag = infer_format(match &self.filename {
            Some(f) => Some(f.as_str()),
            None => None,
        });
        Ok((self.data, tag))
    }
}

} // verus!
