//! Media helpers: the MIME type guessed from a file name, and data
//! URLs built over base64, including the AVIF re-encoding used for
//! dropped-in images.

use vstd::prelude::*;

use crate::util::chars_of;
use vstd::string::{StrSliceExecFns, StringExecFns};

verus! {

/// What the standard base64 engine produces for these bytes; a pure
/// function of the bytes.
pub uninterp spec fn base64_of(b: Seq<u8>) -> Seq<char>;

/// Relies on base64's `Engine::encode` with the `STANDARD` engine:
/// the output is a function of the input bytes alone, four characters
/// long for every started three-byte group (standard padding). The
/// engine panics when that length overflows, so the input is bounded.
#[verifier::external_body]
fn base64_encode(bytes: &Vec<u8>) -> (r: String)
    requires
        bytes@.len() <= usize::MAX / 2,
    ensures
        r@ == base64_of(bytes@),
        r@.len() == 4 * ((bytes@.len() + 2) / 3),
{
    base64::engine::Engine::encode(&base64::engine::general_purpose::STANDARD, bytes)
}

/// Relies on image's `load_from_memory`, `DynamicImage::to_rgba8` and
/// `AvifEncoder::write_image` only for a payload of *some* bytes, or
/// for failure. The payload carries no name and no equation: the
/// encoder splits the picture into tiles by the machine's thread
/// count, so equal inputs can encode to different bytes on different
/// machines, and nothing more can be promised of the result.
#[verifier::external_body]
fn transcode_to_avif(bytes: &Vec<u8>) -> (r: Option<Vec<u8>>)
{
    let decoded = image::load_from_memory(bytes).ok()?;
    let rgba = decoded.to_rgba8();
    let (width, height) = rgba.dimensions();
    let mut out = Vec::new();
    let encoder = image::codecs::avif::AvifEncoder::new(&mut out);
    image::ImageEncoder::write_image(
        encoder,
        &rgba,
        width,
        height,
        image::ExtendedColorType::Rgba8,
    ).ok()?;
    Some(out)
}

/// Builds a data URL carrying these bytes under the given MIME type.
pub fn data_url_from_bytes(mime: &str, bytes: Vec<u8>) -> (r: String)
    requires
        bytes@.len() <= usize::MAX / 2,
    ensures
        r@ == "data:"@ + mime@ + ";base64,"@ + base64_of(bytes@),
{
    let encoded = base64_encode(&bytes);
    let mut out = String::from_str("data:");
    out.append(mime);
    out.append(";base64,");
    out.append(encoded.as_str());
    out
}

/// Re-encodes an image as AVIF and wraps the payload in a data URL;
/// bytes that do not decode as an image yield nothing. Whatever
/// payload the encoder chose, the result is exactly the AVIF data-URL
/// prefix followed by that payload's base64 encoding.
pub fn avif_data_url_from_bytes(bytes: Vec<u8>) -> (r: Option<String>)
    ensures
        r matches Some(u) ==> exists|v: Seq<u8>|
            v.len() <= usize::MAX / 2 && u@ == "data:"@ + "image/avif"@ + ";base64,"@
                + base64_of(v),
{
    match transcode_to_avif(&bytes) {
        Some(out) => {
            if out.len() > usize::MAX / 2 {
                return None;
            }
            let ghost payload = out@;
            let url = data_url_from_bytes("image/avif", out);
            proof {
                assert(url@ == "data:"@ + "image/avif"@ + ";base64,"@ + base64_of(payload));
            }
            Some(url)
        },
        None => None,
    }
}

/// The extension after the last dot of a file name: empty when the
/// name ends in a dot, the whole name when it holds no dot.
pub open spec fn spec_ext(name: Seq<char>) -> Seq<char>
    decreases name.len(),
{
    if name.len() == 0 {
        Seq::empty()
    } else if name.last() == '.' {
        Seq::empty()
    } else {
        spec_ext(name.drop_last()).push(name.last())
    }
}

/// Whether `x` matches the lowercase reference character `y`, either
/// exactly or as its ASCII uppercase counterpart.
pub open spec fn lower_matches(x: char, y: char) -> bool {
    x == y || ('a' as int <= y as int <= 'z' as int && x as int + 32 == y as int)
}

/// Whether the extension equals the lowercase reference string,
/// ignoring ASCII case.
pub open spec fn ci_eq(ext: Seq<char>, lit: Seq<char>) -> bool {
    ext.len() == lit.len() && forall|i: int| 0 <= i < ext.len() ==> lower_matches(ext[i], lit[i])
}

/// The MIME type the application guesses for a file name, from its
/// extension, ignoring ASCII case; unknown extensions fall back to the
/// generic byte-stream type.
pub open spec fn spec_mime(name: Seq<char>) -> Seq<char> {
    let ext = spec_ext(name);
    if ci_eq(ext, "png"@) {
        "image/png"@
    } else if ci_eq(ext, "jpg"@) || ci_eq(ext, "jpeg"@) {
        "image/jpeg"@
    } else if ci_eq(ext, "gif"@) {
        "image/gif"@
    } else if ci_eq(ext, "webp"@) {
        "image/webp"@
    } else {
        "application/octet-stream"@
    }
}

/// The extension, characterized by the position right after the last
/// dot (or 0 when there is no dot).
proof fn lemma_ext_at(name: Seq<char>, d: int)
    requires
        0 <= d <= name.len(),
        forall|k: int| d <= k < name.len() ==> name[k] != '.',
        d > 0 ==> name[d - 1] == '.',
    ensures
        spec_ext(name) == name.subrange(d, name.len() as int),
    decreases name.len(),
{
    if name.len() == 0 {
        assert(spec_ext(name) =~= name.subrange(0, 0));
    } else if name.last() == '.' {
        assert(d == name.len());
        assert(spec_ext(name) =~= name.subrange(d, name.len() as int));
    } else {
        assert(d < name.len());
        let t = name.drop_last();
        assert forall|k: int| d <= k < t.len() implies t[k] != '.' by {
            assert(t[k] == name[k]);
        }
        if d > 0 {
            assert(t[d - 1] == name[d - 1]);
        }
        lemma_ext_at(t, d);
        assert(t.subrange(d, t.len() as int).push(name.last()) =~= name.subrange(
            d,
            name.len() as int,
        ));
    }
}

/// Decides whether `x` matches the lowercase reference `y` ignoring
/// ASCII case.
fn lower_matches_exec(x: char, y: char) -> (b: bool)
    ensures
        b == lower_matches(x, y),
{
    let xv = x as u32;
    let yv = y as u32;
    xv == yv || (97 <= yv && yv <= 122 && xv + 32 == yv)
}

/// Decides whether the characters from `start` on match the lowercase
/// reference string, ignoring ASCII case.
fn ext_matches(cs: &Vec<char>, start: usize, lit: &str) -> (b: bool)
    requires
        start <= cs@.len(),
    ensures
        b == ci_eq(cs@.subrange(start as int, cs@.len() as int), lit@),
{
    let ghost ext = cs@.subrange(start as int, cs@.len() as int);
    let m = lit.unicode_len();
    let total = cs.len();
    if total - start != m {
        return false;
    }
    for i in 0..m
        invariant
            m == lit@.len(),
            total == cs@.len(),
            start + m == total,
            ext == cs@.subrange(start as int, cs@.len() as int),
            forall|k: int| 0 <= k < i ==> lower_matches(ext[k], lit@[k]),
    {
        assert(start + i < total);
        if !lower_matches_exec(cs[start + i], lit.get_char(i)) {
            proof {
                assert(ext[i as int] == cs@[start + i]);
            }
            return false;
        }
        proof {
            assert(ext[i as int] == cs@[start + i]);
        }
    }
    true
}

/// Guesses the MIME type of a file from its name's extension,
/// ignoring ASCII case; unknown extensions fall back to the generic
/// byte-stream type.
pub fn mime_from_filename(name: &str) -> (r: &'static str)
    ensures
        r@ == spec_mime(name@),
{
    let cs = chars_of(name);
    let n = cs.len();
    let mut d: usize = 0;
    let mut i: usize = 0;
    while i < n
        invariant
            i <= n,
            n == cs@.len(),
            cs@ == name@,
            d <= i,
            d > 0 ==> cs@[d - 1] == '.',
            forall|k: int| d <= k < i ==> cs@[k] != '.',
        decreases n - i,
    {
        if cs[i] == '.' {
            d = i + 1;
        }
        i = i + 1;
    }
    proof {
        lemma_ext_at(name@, d as int);
    }
    if ext_matches(&cs, d, "png") {
        "image/png"
    } else if ext_matches(&cs, d, "jpg") {
        "image/jpeg"
    } else if ext_matches(&cs, d, "jpeg") {
        "image/jpeg"
    } else if ext_matches(&cs, d, "gif") {
        "image/gif"
    } else if ext_matches(&cs, d, "webp") {
        "image/webp"
    } else {
        "application/octet-stream"
    }
}

} // verus!
