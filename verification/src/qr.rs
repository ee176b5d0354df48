//! The enrollment QR payload and its encodings: the module grid and the
//! terminal rendering.

use vstd::prelude::*;
use vstd::string::StringExecFns;
use vstd::string::StringSliceAdditionalSpecFns;

use crate::error::AdminError;
use crate::text::owned;

verus! {

/// The QR payload: a `microtak-enroll:` URI carrying the enrollment URL and
/// the token as query parameters.
pub open spec fn payload_text(enrollment_url: Seq<char>, token: Seq<char>) -> Seq<char> {
    "microtak-enroll:?url="@ + enrollment_url + "&token="@ + token
}

/// Builds the QR payload for an enrollment URL and a token.
pub fn enrollment_payload(enrollment_url: &str, token: &str) -> (r: String)
    ensures
        r@ == payload_text(enrollment_url@, token@),
{
    let mut r = owned("microtak-enroll:?url=");
    r.append(enrollment_url);
    r.append("&token=");
    r.append(token);
    r
}

#[verifier::external_type_specification]
#[verifier::external_body]
pub struct ExQrError(qrcode::types::QrError);

/// The module grid `qrcode` encodes `data` into (medium error correction,
/// smallest version): its width in modules and the dark/light state of each
/// module, row by row; `None` when the data fits no QR code.
pub uninterp spec fn qr_modules(data: Seq<u8>) -> Option<(usize, Seq<bool>)>;

/// The text `qrcode`'s `Dense1x2` unicode renderer draws for `data` (two
/// module rows per text line, with the quiet zone); `None` when the data
/// fits no QR code.
pub uninterp spec fn qr_terminal_art(data: Seq<u8>) -> Option<Seq<char>>;

/// `qrcode::QrCode::new`, then `QrCode::width` and `QrCode::to_colors` with
/// each `Color` read as "is dark". Besides naming the grid, the contract
/// states what the crate's source shows: automatic encoding picks a normal
/// version 1..=40, whose width 4v+17 lies in 21..=177, and the colors hold
/// one entry per module.
#[verifier::external_body]
pub(crate) fn qr_module_grid(data: &[u8]) -> (r: Result<(usize, Vec<bool>), qrcode::types::QrError>)
    ensures
        match r {
            Ok((width, cells)) => {
                &&& qr_modules(data@) == Some((width, cells@))
                &&& 21 <= width <= 177
                &&& cells@.len() == width * width
            },
            Err(_) => qr_modules(data@) is None,
        },
{
    match qrcode::QrCode::new(data) {
        Ok(code) => Ok(
            (
                code.width(),
                code.to_colors().into_iter().map(|c| c == qrcode::Color::Dark).collect(),
            ),
        ),
        Err(e) => Err(e),
    }
}

/// `qrcode::QrCode::new`, then `render::<unicode::Dense1x2>()` with dark and
/// light colors set and `build()`. Only the name `qr_terminal_art` of the
/// data is stated.
#[verifier::external_body]
fn dense_terminal_rendering(data: &[u8]) -> (r: Result<String, qrcode::types::QrError>)
    ensures
        match r {
            Ok(text) => qr_terminal_art(data@) == Some(text@),
            Err(_) => qr_terminal_art(data@) is None,
        },
{
    match qrcode::QrCode::new(data) {
        Ok(code) => Ok(
            code.render::<qrcode::render::unicode::Dense1x2>().dark_color(
                qrcode::render::unicode::Dense1x2::Dark,
            ).light_color(qrcode::render::unicode::Dense1x2::Light).build(),
        ),
        Err(e) => Err(e),
    }
}

/// The terminal rendering of a payload's QR code, ready to print.
pub fn terminal_qr(payload: &str) -> (r: Result<String, AdminError>)
    ensures
        match qr_terminal_art(payload.spec_bytes()) {
            Some(text) => r matches Ok(s) && s@ == text,
            None => r matches Err(e) && e is QrEncoding,
        },
{
    let bytes = payload.as_bytes();
    match dense_terminal_rendering(bytes) {
        Ok(text) => Ok(text),
        Err(_) => Err(AdminError::QrEncoding),
    }
}

} // verus!
