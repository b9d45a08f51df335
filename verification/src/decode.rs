//! Decoding of capture payloads.
//!
//! The capture service hands frames over as `data:image/png;base64,` URIs.
//! The library checks the prefix itself and calls the outside decoders for
//! the base64 text and the PNG bytes through the two trusted wrappers
//! below; everything around the calls is verified. A malformed payload
//! yields `None`, which the caller treats as fatal.

use vstd::prelude::*;
use base64::Engine;
use crate::frame::{Screenshot, OWContext};
use crate::layout::{SCREEN_WIDTH, SCREEN_HEIGHT};

verus! {

/// What base64 decoding yields on the given text: the decoded bytes, or
/// nothing for text that is not valid standard-alphabet base64.
pub uninterp spec fn b64_decoded(s: Seq<char>) -> Option<Seq<u8>>;

/// Relies on base64's standard-alphabet decode (`Engine::decode` of the
/// `STANDARD` engine): the result is a function of the input text alone,
/// and decoding fails exactly on invalid base64.
#[verifier::external_body]
fn decode_base64(s: &str) -> (r: Option<Vec<u8>>)
    ensures
        r matches Some(v) ==> b64_decoded(s@) == Some(v@),
        r is None ==> b64_decoded(s@) is None,
{
    match base64::engine::general_purpose::STANDARD.decode(s) {
        Ok(v) => Some(v),
        Err(_) => None,
    }
}

/// What PNG decoding yields on the given bytes: width, height and the
/// row-major RGB samples, or nothing for bytes that are not a decodable
/// PNG.
pub uninterp spec fn png_rgb_of(bytes: Seq<u8>) -> Option<(u32, u32, Seq<u8>)>;

/// Relies on image's PNG support: `load_from_memory_with_format` decodes
/// the bytes deterministically, `to_rgb8` converts to an RGB buffer, and an
/// `RgbImage`'s raw buffer holds exactly `width * height` three-byte
/// samples in row-major order.
#[verifier::external_body]
fn decode_png_rgb(bytes: &Vec<u8>) -> (r: Option<(u32, u32, Vec<u8>)>)
    ensures
        r matches Some(t) ==> png_rgb_of(bytes@) == Some((t.0, t.1, t.2@))
            && t.2@.len() == 3 * (t.0 as int) * (t.1 as int),
        r is None ==> png_rgb_of(bytes@) is None,
{
    match image::load_from_memory_with_format(bytes.as_slice(), image::ImageFormat::Png) {
        Ok(img) => {
            let rgb = img.to_rgb8();
            Some((rgb.width(), rgb.height(), rgb.into_raw()))
        },
        Err(_) => None,
    }
}

/// The frame bytes a capture payload decodes to: the URI must carry the
/// PNG data prefix, the rest must be valid base64, and the decoded bytes a
/// PNG at exactly the capture resolution.
pub open spec fn spec_payload_pixels(s: Seq<char>) -> Option<Seq<u8>> {
    let prefix = "data:image/png;base64,"@;
    if s.len() < prefix.len() || s.subrange(0, prefix.len() as int) != prefix {
        None
    } else {
        match b64_decoded(s.skip(prefix.len() as int)) {
            None => None,
            Some(bytes) => match png_rgb_of(bytes) {
                None => None,
                Some((w, h, px)) => if w == SCREEN_WIDTH && h == SCREEN_HEIGHT {
                    Some(px)
                } else {
                    None
                },
            },
        }
    }
}

impl<C: OWContext> Screenshot<C> {
    /// Decodes a capture payload: a `data:image/png;base64,` URI holding a
    /// PNG at the fixed capture resolution. Any malformed payload — wrong
    /// prefix, invalid base64, undecodable PNG, wrong dimensions — yields
    /// `None`, which the job treats as fatal.
    pub fn new(data_uri: &str) -> (r: Option<Screenshot<C>>)
        ensures
            r is Some <==> spec_payload_pixels(data_uri@) is Some,
            r matches Some(f) ==> f.wf()
                && spec_payload_pixels(data_uri@) == Some(f.raw()),
    {
        proof {
            reveal_strlit("data:image/png;base64,");
        }
        if !crate::text::starts_with_str(data_uri, "data:image/png;base64,") {
            return None;
        }
        let n = data_uri.unicode_len();
        let rest = data_uri.substring_char(22, n);
        proof {
            assert(("data:image/png;base64,"@).len() == 22);
            assert(rest@ =~= data_uri@.skip(22));
        }
        let bytes = match decode_base64(rest) {
            Some(b) => b,
            None => {
                return None;
            },
        };
        let decoded = match decode_png_rgb(&bytes) {
            Some(t) => t,
            None => {
                return None;
            },
        };
        let (w, h, px) = decoded;
        if w != SCREEN_WIDTH || h != SCREEN_HEIGHT {
            return None;
        }
        match Screenshot::from_rgb_bytes(px) {
            Some(f) => Some(f),
            None => {
                proof {
                    assert(false);
                }
                None
            },
        }
    }
}

} // verus!
