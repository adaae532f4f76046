//! Format tag of a stored image, inferred from the upload's filename.

use vstd::prelude::*;
use vstd::string::StrSliceExecFns;

verus! {

/// The format family that decides which codec re-encodes the result.
///
/// It is fixed once when the upload is ingested and never changes.
#[derive(Clone, Copy, PartialEq, Eq, Structural, Debug)]
pub enum FormatTag {
    Png,
    Jpeg,
}

/// A filename selects the PNG path iff it ends in `.png`, matched
/// case-insensitively on its last four characters.
pub open spec fn is_png_name(s: Seq<char>) -> bool {
    &&& s.len() >= 4
    &&& s[s.len() - 4] == '.'
    &&& (s[s.len() - 3] == 'p' || s[s.len() - 3] == 'P')
    &&& (s[s.len() - 2] == 'n' || s[s.len() - 2] == 'N')
    &&& (s[s.len() - 1] == 'g' || s[s.len() - 1] == 'G')
}

/// The format tag an upload receives: `.png` filenames take the PNG path;
/// every other filename, and a missing one, defaults to JPEG.
pub open spec fn spec_infer_format(name: Option<Seq<char>>) -> FormatTag {
    match name {
        Some(s) => if is_png_name(s) {
            FormatTag::Png
        } else {
            FormatTag::Jpeg
        },
        None => FormatTag::Jpeg,
    }
}

/// Derives the format tag from the declared original filename.
pub fn infer_format(name: Option<&str>) -> (r: FormatTag)
    ensures
        r == spec_infer_format(match name {
            Some(s) => Some(s@),
            None => None,
        }),
{
    match name {
        None => FormatTag::Jpeg,
        Some(s) => {
            let n = s.unicode_len();
            if n >= 4 {
                let dot = s.get_char(n - 4);
                let p = s.get_char(n - 3);
                let g = s.get_char(n - 2);
                let t = s.get_char(n - 1);
                if dot == '.' && (p == 'p' || p == 'P') && (g == 'n' || g == 'N')
                    && (t == 'g' || t == 'G') {
                    FormatTag::Png
                } else {
                    FormatTag::Jpeg
                }
            } else {
                FormatTag::Jpeg
            }
        },
    }
}

/// The mime type carried by the result: `image/png` iff the tag is PNG,
/// otherwise `image/jpeg`.
pub fn mime_type(tag: FormatTag) -> (r: &'static str)
    ensures
        tag == FormatTag::Png ==> r@ == "image/png"@,
        tag != FormatTag::Png ==> r@ == "image/jpeg"@,
{
    match tag {
        FormatTag::Png => "image/png",
        FormatTag::Jpeg => "image/jpeg",
    }
}

} // verus!
