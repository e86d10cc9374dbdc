//! Media types: supported audio extensions, image MIME types and file
//! extensions, stream content types.

use vstd::prelude::*;
use crate::strings::chars_of;
use crate::text::{chars_eq_str, lower_chars, lower_seq};

verus! {

/// The view of an optional string slice.
pub open spec fn opt_str_view(o: Option<&str>) -> Option<Seq<char>> {
    match o {
        Some(s) => Some(s@),
        None => None,
    }
}

/// `pat` occurs in `s`.
pub open spec fn contains(s: Seq<char>, pat: Seq<char>) -> bool {
    exists|i: int| 0 <= i && i + pat.len() <= s.len() && #[trigger] s.subrange(i, i + pat.len()) == pat
}

/// Whether `pat` occurs in `s` (`str::contains`).
pub fn contains_chars(s: &[char], pat: &[char]) -> (r: bool)
    ensures
        r == contains(s@, pat@),
{
    if pat.len() > s.len() {
        return false;
    }
    let mut i: usize = 0;
    while i <= s.len() - pat.len()
        invariant
            pat@.len() <= s@.len(),
            i <= s@.len() - pat@.len() + 1,
            forall|k: int| 0 <= k < i ==> #[trigger] s@.subrange(k, k + pat@.len()) != pat@,
        decreases s@.len() - i,
    {
        let mut j: usize = 0;
        let mut same = true;
        while j < pat.len()
            invariant
                i + pat.len() <= s.len(),
                j <= pat@.len(),
                same == (forall|m: int| 0 <= m < j ==> s@[i + m] == pat@[m]),
            decreases pat@.len() - j,
        {
            if s[i + j] != pat[j] {
                same = false;
            }
            j = j + 1;
        }
        if same {
            assert(s@.subrange(i as int, i + pat@.len()) =~= pat@);
            return true;
        }
        proof {
            assert(s@.subrange(i as int, i + pat@.len()) != pat@) by {
                let m = choose|m: int| 0 <= m < pat@.len() && s@[i + m] != pat@[m];
                assert(s@.subrange(i as int, i + pat@.len())[m] == s@[i + m]);
            }
        }
        i = i + 1;
    }
    false
}

/// Whether `lit` occurs in `s`.
fn contains_str(s: &[char], lit: &str) -> (r: bool)
    ensures
        r == contains(s@, lit@),
{
    let p = chars_of(lit);
    contains_chars(s, p.as_slice())
}

/// Audio file extensions the library scanner recognizes.
pub open spec fn supported_extension(ext: Seq<char>) -> bool {
    ||| ext == "flac"@
    ||| ext == "wav"@
    ||| ext == "aiff"@
    ||| ext == "aif"@
    ||| ext == "mp3"@
    ||| ext == "m4a"@
    ||| ext == "aac"@
    ||| ext == "alac"@
    ||| ext == "ogg"@
    ||| ext == "oga"@
    ||| ext == "opus"@
}

/// Whether `ext` (already lowercase) is a supported audio extension.
pub fn is_supported_extension(ext: &str) -> (b: bool)
    ensures
        b == supported_extension(ext@),
{
    let e = chars_of(ext);
    let e = e.as_slice();
    chars_eq_str(e, "flac") || chars_eq_str(e, "wav") || chars_eq_str(e, "aiff") || chars_eq_str(
        e,
        "aif",
    ) || chars_eq_str(e, "mp3") || chars_eq_str(e, "m4a") || chars_eq_str(e, "aac")
        || chars_eq_str(e, "alac") || chars_eq_str(e, "ogg") || chars_eq_str(e, "oga")
        || chars_eq_str(e, "opus")
}

/// File extension for an image MIME type in the cover cache: matched
/// case-insensitively by substring.
pub open spec fn cover_extension_for_mime(mime: Seq<char>) -> Option<Seq<char>> {
    let m = lower_seq(mime);
    if contains(m, "jpeg"@) || contains(m, "jpg"@) {
        Some("jpg"@)
    } else if contains(m, "png"@) {
        Some("png"@)
    } else if contains(m, "webp"@) {
        Some("webp"@)
    } else {
        None
    }
}

/// File extension for a cover-art MIME type (`image/jpeg` gives `jpg`).
pub fn cover_extension_for_mime_type(mime: &str) -> (r: Option<&'static str>)
    ensures
        opt_str_view(r) == cover_extension_for_mime(mime@),
{
    let m = chars_of(mime);
    let lower = lower_chars(m.as_slice());
    let l = lower.as_slice();
    if contains_str(l, "jpeg") || contains_str(l, "jpg") {
        Some("jpg")
    } else if contains_str(l, "png") {
        Some("png")
    } else if contains_str(l, "webp") {
        Some("webp")
    } else {
        None
    }
}

/// MIME type of a cover image file by its extension (case-insensitive).
pub open spec fn mime_for_extension_spec(ext: Option<Seq<char>>) -> Option<Seq<char>> {
    match ext {
        None => None,
        Some(e) => {
            let l = lower_seq(e);
            if l == "jpg"@ || l == "jpeg"@ {
                Some("image/jpeg"@)
            } else if l == "png"@ {
                Some("image/png"@)
            } else if l == "webp"@ {
                Some("image/webp"@)
            } else {
                None
            }
        },
    }
}

/// MIME type of a cover image file by its extension.
pub fn mime_for_extension(ext: Option<&str>) -> (r: Option<&'static str>)
    ensures
        opt_str_view(r) == mime_for_extension_spec(opt_str_view(ext)),
{
    let e = match ext {
        Some(e) => e,
        None => {
            return None;
        },
    };
    let c = chars_of(e);
    let l = lower_chars(c.as_slice());
    let l = l.as_slice();
    if chars_eq_str(l, "jpg") || chars_eq_str(l, "jpeg") {
        Some("image/jpeg")
    } else if chars_eq_str(l, "png") {
        Some("image/png")
    } else if chars_eq_str(l, "webp") {
        Some("image/webp")
    } else {
        None
    }
}

/// File extension for a stored media asset, by exact MIME type.
pub open spec fn asset_extension_for_mime(mime: Seq<char>) -> Option<Seq<char>> {
    if mime == "image/jpeg"@ || mime == "image/jpg"@ {
        Some("jpg"@)
    } else if mime == "image/png"@ {
        Some("png"@)
    } else if mime == "image/webp"@ {
        Some("webp"@)
    } else {
        None
    }
}

/// File extension for a stored media asset (`image/jpeg` gives `jpg`).
pub fn extension_for_mime(mime: &str) -> (r: Option<&'static str>)
    ensures
        opt_str_view(r) == asset_extension_for_mime(mime@),
{
    let c = chars_of(mime);
    let m = c.as_slice();
    if chars_eq_str(m, "image/jpeg") || chars_eq_str(m, "image/jpg") {
        Some("jpg")
    } else if chars_eq_str(m, "image/png") {
        Some("png")
    } else if chars_eq_str(m, "image/webp") {
        Some("webp")
    } else {
        None
    }
}

/// Stream content type announced to cast receivers for a file extension.
pub open spec fn content_type_for(ext: Seq<char>) -> Seq<char> {
    let l = lower_seq(ext);
    if l == "flac"@ {
        "audio/flac"@
    } else if l == "mp3"@ {
        "audio/mpeg"@
    } else if l == "wav"@ {
        "audio/wav"@
    } else if l == "aac"@ || l == "m4a"@ {
        "audio/mp4"@
    } else if l == "ogg"@ || l == "opus"@ {
        "audio/ogg"@
    } else {
        "audio/mpeg"@
    }
}

/// Stream content type for a file extension (`audio/mpeg` when unknown).
pub fn content_type_for_ext(ext_hint: &str) -> (r: &'static str)
    ensures
        r@ == content_type_for(ext_hint@),
{
    let c = chars_of(ext_hint);
    let l = lower_chars(c.as_slice());
    let l = l.as_slice();
    if chars_eq_str(l, "flac") {
        "audio/flac"
    } else if chars_eq_str(l, "mp3") {
        "audio/mpeg"
    } else if chars_eq_str(l, "wav") {
        "audio/wav"
    } else if chars_eq_str(l, "aac") || chars_eq_str(l, "m4a") {
        "audio/mp4"
    } else if chars_eq_str(l, "ogg") || chars_eq_str(l, "opus") {
        "audio/ogg"
    } else {
        "audio/mpeg"
    }
}

} // verus!
