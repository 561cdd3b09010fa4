use vstd::prelude::*;

use crate::error::{CustomError, MyError};
use crate::text::{chars_of, find_from, is_first_at, occurs_from};

verus! {

/// The text that opens the payload of a base64 data URI.
pub open spec fn data_uri_mark() -> Seq<char> {
    "base64,"@
}

/// The quote that closes an HTML attribute holding a data URI.
pub open spec fn attribute_quote() -> Seq<char> {
    "'"@
}

/// `b` is the first single quote after the `base64,` that stands at `a`.
pub open spec fn closes_payload(html: Seq<char>, a: int, b: int) -> bool {
    is_first_at(html, attribute_quote(), a + data_uri_mark().len(), b)
}

/// The payload of the first base64 data URI in `html`: the text after the
/// first `base64,` up to the next single quote.
pub open spec fn is_data_uri_payload(html: Seq<char>, t: Seq<char>) -> bool {
    exists|a: int, b: int|
        #[trigger] is_first_at(html, data_uri_mark(), 0, a) && #[trigger] closes_payload(html, a, b)
            && t == html.subrange(a + data_uri_mark().len(), b)
}

/// `html` holds a `base64,` and, after its first one, a single quote.
pub open spec fn has_data_uri(html: Seq<char>) -> bool {
    exists|a: int|
        #[trigger] is_first_at(html, data_uri_mark(), 0, a) && occurs_from(
            html,
            attribute_quote(),
            a + data_uri_mark().len(),
        )
}

/// Finds the payload of the first base64 data URI in an HTML page.
pub fn extract_base64_from_html(html: &str) -> (r: Result<&str, CustomError>)
    ensures
        r is Ok <==> has_data_uri(html@),
        r matches Ok(t) ==> is_data_uri_payload(html@, t@),
        !occurs_from(html@, data_uri_mark(), 0) ==> (r matches Err(e) && e.details@
            == "Base64 string not found"@),
        occurs_from(html@, data_uri_mark(), 0) && !has_data_uri(html@) ==> (r matches Err(e)
            && e.details@ == "End of base64 string not found"@),
{
    let cs = chars_of(html);
    let mark = chars_of("base64,");
    let quote = chars_of("'");
    let n = cs.len();
    match find_from(&cs, &mark, 0) {
        None => Err(CustomError::new("Base64 string not found")),
        Some(a) => {
            assert(is_first_at(html@, data_uri_mark(), 0, a as int));
            let start = a + mark.len();
            match find_from(&cs, &quote, start) {
                None => {
                    assert forall|a2: int|
                        is_first_at(html@, data_uri_mark(), 0, a2) implies a2 == a by {
                        if a2 < a {
                        } else if a < a2 {
                        }
                    }
                    Err(CustomError::new("End of base64 string not found"))
                },
                Some(b) => {
                    assert(closes_payload(html@, a as int, b as int));
                    let t = html.substring_char(start, b);
                    Ok(t)
                },
            }
        },
    }
}

/// What `base64::decode` makes of a text: `None` where it refuses it.
pub uninterp spec fn base64_decoded(s: Seq<char>) -> Option<Seq<u8>>;

/// What `base64::encode` makes of bytes.
pub uninterp spec fn base64_encoded(b: Seq<u8>) -> Seq<char>;

/// The PNG encoding of the image that `image::load_from_memory` reads from
/// bytes: `None` where it reads no image or the encoder refuses it.
pub uninterp spec fn png_reencoded(b: Seq<u8>) -> Option<Seq<u8>>;

/// Relies on `base64::decode` (standard alphabet, padded).
#[verifier::external_body]
fn decode_base64(s: &str) -> (r: Option<Vec<u8>>)
    ensures
        match r {
            Some(b) => base64_decoded(s@) == Some(b@),
            None => base64_decoded(s@) is None,
        },
{
    #[allow(deprecated)]
    let decoded = base64::decode(s);
    decoded.ok()
}

/// Relies on `base64::encode` (standard alphabet, padded).
#[verifier::external_body]
fn encode_base64(b: &Vec<u8>) -> (r: String)
    ensures
        r@ == base64_encoded(b@),
{
    #[allow(deprecated)]
    let encoded = base64::encode(b);
    encoded
}

/// Relies on `image::load_from_memory`, which guesses the format, and on
/// `DynamicImage::write_to` with `ImageFormat::Png` into an in-memory buffer.
#[verifier::external_body]
fn reencode_png(b: &Vec<u8>) -> (r: Option<Vec<u8>>)
    ensures
        match r {
            Some(p) => png_reencoded(b@) == Some(p@),
            None => png_reencoded(b@) is None,
        },
{
    let img = image::load_from_memory(b).ok()?;
    let mut buf: Vec<u8> = Vec::new();
    img.write_to(&mut std::io::Cursor::new(&mut buf), image::ImageFormat::Png).ok()?;
    Some(buf)
}

/// The image of a page's first data URI, re-encoded as PNG and then as
/// base64.
pub open spec fn png_base64_of(html: Seq<char>) -> Option<Seq<char>> {
    if has_data_uri(html) {
        let t = choose|t: Seq<char>| is_data_uri_payload(html, t);
        match base64_decoded(t) {
            Some(bytes) => match png_reencoded(bytes) {
                Some(png) => Some(base64_encoded(png)),
                None => None,
            },
            None => None,
        }
    } else {
        None
    }
}

/// Takes the image that a page embeds as a base64 data URI and returns it
/// as PNG, base64-encoded.
pub fn html_image_to_base64_png(html: &str) -> (r: Result<String, MyError>)
    ensures
        match r {
            Ok(s) => png_base64_of(html@) == Some(s@),
            Err(_) => png_base64_of(html@) is None,
        },
{
    let payload = match extract_base64_from_html(html) {
        Ok(t) => t,
        Err(e) => return Err(MyError::Custom(e)),
    };
    proof {
        let t = choose|t: Seq<char>| is_data_uri_payload(html@, t);
        assert(is_data_uri_payload(html@, t));
        assert(t == payload@);
    }
    let bytes = match decode_base64(payload) {
        Some(b) => b,
        None => return Err(MyError::Decode(String::from_str("image data is not base64"))),
    };
    let png = match reencode_png(&bytes) {
        Some(p) => p,
        None => return Err(MyError::Decode(String::from_str("image data is not a readable image"))),
    };
    Ok(encode_base64(&png))
}

} // verus!
