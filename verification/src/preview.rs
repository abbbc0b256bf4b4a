//! The model preview: the GR2 mesh of a visual asset converted to GLB and carried as Base64.
//!
//! Base64 rather than a byte vector: bytes would serialize into a JSON array of numbers (one per
//! byte), inflating a multi-MB model to tens of MB of JSON, while Base64 only grows by a third.

use base64::Engine;
use vstd::prelude::*;


verus! {

/// 3D preview payload: the GR2 mesh converted to GLB, Base64-encoded
#[derive(Debug)]
pub struct ModelPreview {
    pub base64: String,
}

/// The character of a 6-bit group in the standard Base64 alphabet (`A`–`Z`, `a`–`z`, `0`–`9`,
/// `+`, `/`)
pub open spec fn base64_digit(n: int) -> char {
    if n < 26 {
        (65 + n) as char
    } else if n < 52 {
        (97 + n - 26) as char
    } else if n < 62 {
        (48 + n - 52) as char
    } else if n == 62 {
        '+'
    } else {
        '/'
    }
}

/// Standard Base64 with padding: every three bytes become four characters, and a final group of
/// one or two bytes is padded with `=` to four
pub open spec fn base64_spec(b: Seq<u8>) -> Seq<char>
    decreases b.len(),
{
    if b.len() == 0 {
        Seq::empty()
    } else if b.len() == 1 {
        let x = b[0] as int;
        seq![base64_digit(x / 4), base64_digit((x % 4) * 16), '=', '=']
    } else if b.len() == 2 {
        let (x, y) = (b[0] as int, b[1] as int);
        seq![base64_digit(x / 4), base64_digit((x % 4) * 16 + y / 16), base64_digit((y % 16) * 4), '=']
    } else {
        let (x, y, z) = (b[0] as int, b[1] as int, b[2] as int);
        seq![
            base64_digit(x / 4),
            base64_digit((x % 4) * 16 + y / 16),
            base64_digit((y % 16) * 4 + z / 64),
            base64_digit(z % 64),
        ] + base64_spec(b.skip(3))
    }
}

/// The Base64 of `b` is four characters for every three bytes, a final short group counting as a
/// full one: a preview grows by a third over the GLB it carries, where a JSON array of numbers
/// would take up to four characters a byte
pub proof fn law_base64_grows_by_a_third(b: Seq<u8>)
    ensures
        base64_spec(b).len() == 4 * ((b.len() + 2) / 3),
    decreases b.len(),
{
    if b.len() >= 3 {
        law_base64_grows_by_a_third(b.skip(3));
    }
}

/// `base64::engine::general_purpose::STANDARD.encode`: the standard alphabet, padded
#[verifier::external_body]
fn encode_base64(bytes: &[u8]) -> (r: String)
    ensures
        r@ == base64_spec(bytes@),
{
    base64::engine::general_purpose::STANDARD.encode(bytes)
}

impl ModelPreview {
    /// The preview payload of GLB bytes
    pub fn from_glb(glb: &[u8]) -> (r: Self)
        ensures
            r.base64@ == base64_spec(glb@),
    {
        ModelPreview { base64: encode_base64(glb) }
    }
}

/// The preview of what the GR2 → GLB conversion gave: the GLB Base64-encoded, or the
/// conversion's message unchanged (a mesh-less GR2 fails with maclarian's own "No meshes found in
/// GR2 file (...)", which the frontend maps to dedicated copy). The conversion is maclarian's, run
/// by the caller: its GR2 reader trusts the offsets it finds inside the unpacked sections as they
/// stand, and the caller keeps what it does with a malformed file from taking the app down.
pub fn preview_from(converted: Result<Vec<u8>, String>) -> (r: Result<ModelPreview, String>)
    ensures
        match converted {
            Ok(glb) => r matches Ok(p) && p.base64@ == base64_spec(glb@),
            Err(message) => r matches Err(m) && m@ == message@,
        },
{
    match converted {
        Ok(glb) => Ok(ModelPreview::from_glb(glb.as_slice())),
        Err(message) => Err(message),
    }
}

} // verus!
