//! What the library decides about a fetched page: whether the response
//! succeeded, what text its bytes hold, and where a profile page lives.
//! Fetching itself is left to the caller.

use crate::error::MinerError;
use vstd::prelude::*;
use vstd::string::StringExecFns;

verus! {

/// The address of the catalog document.
pub const ICHARTS_URI: &'static str = "http://www.finam.ru/cache/icharts/icharts.js";

/// The address under which the profile pages live.
pub const MARKETS_BASE_URI: &'static str = "http://www.finam.ru/profile/";

/// What decoding `bytes` as Windows-1251 with replacement of undecodable
/// bytes gives in the `encoding` crate: the text, or the text of the
/// decoder's error.
pub uninterp spec fn windows_1251_decoded(bytes: Seq<u8>) -> Result<Seq<char>, Seq<char>>;

/// Calls `hyper::status::StatusCode::is_success` on the status with the
/// number `code`. Assumed: the class of success is the range from 200 to
/// 299.
#[verifier::external_body]
fn status_is_success(code: u16) -> (success: bool)
    ensures
        success == (200 <= code <= 299),
{
    hyper::status::StatusCode::from_u16(code).is_success()
}

/// Calls `encoding::Encoding::decode` of `encoding::all::WINDOWS_1251` with
/// `encoding::DecoderTrap::Replace`. Assumed: the result is
/// [`windows_1251_decoded`] of the bytes. The decoder writes one character
/// for each byte, the byte itself below 0x80, and with this trap it goes on
/// after a byte that it cannot decode; so it is also assumed that the call
/// succeeds, with as many characters as there are bytes, and with each byte
/// below 0x80 as the character of the same number.
#[verifier::external_body]
fn decode_windows_1251(bytes: &[u8]) -> (decoded: Result<String, String>)
    ensures
        match decoded {
            Ok(text) => windows_1251_decoded(bytes@) == Ok::<Seq<char>, Seq<char>>(text@),
            Err(cause) => windows_1251_decoded(bytes@) == Err::<Seq<char>, Seq<char>>(cause@),
        },
        decoded is Ok,
        decoded matches Ok(text) ==> text@.len() == bytes@.len(),
        decoded matches Ok(text) ==> forall|i: int|
            0 <= i < bytes@.len() && bytes@[i] < 0x80 ==> #[trigger] text@[i] == bytes@[i] as char,
{
    encoding::Encoding::decode(
        encoding::all::WINDOWS_1251,
        bytes,
        encoding::DecoderTrap::Replace,
    ).map_err(|cause| cause.into_owned())
}

/// Accepts a response by its status: a status in the class of success is
/// handed back, any other is the error that carries it.
pub fn ensure_http_success(status: u16) -> (checked: Result<u16, MinerError>)
    ensures
        200 <= status <= 299 ==> checked == Ok::<u16, MinerError>(status),
        !(200 <= status <= 299) ==> checked == Err::<u16, MinerError>(
            MinerError::HttpErrorStatus(status),
        ),
{
    if status_is_success(status) {
        Ok(status)
    } else {
        Err(MinerError::HttpErrorStatus(status))
    }
}

/// Whether `outcome` is the text that `decoded` gives, or the encoding
/// error with the cause that `decoded` gives.
pub open spec fn reports_decoded(
    outcome: Result<String, MinerError>,
    decoded: Result<Seq<char>, Seq<char>>,
) -> bool {
    match outcome {
        Ok(text) => decoded == Ok::<Seq<char>, Seq<char>>(text@),
        Err(MinerError::EncodingError(cause)) => decoded == Err::<Seq<char>, Seq<char>>(cause@),
        Err(_) => false,
    }
}

/// Turns the decoder's result into the document or the encoding error.
pub fn document_from_decoded(decoded: Result<String, String>) -> (outcome: Result<
    String,
    MinerError,
>)
    ensures
        reports_decoded(
            outcome,
            match decoded {
                Ok(text) => Ok(text@),
                Err(cause) => Err(cause@),
            },
        ),
{
    match decoded {
        Ok(text) => Ok(text),
        Err(cause) => Err(MinerError::EncodingError(cause)),
    }
}

/// Decodes the bytes of a fetched page as Windows-1251, with undecodable
/// bytes replaced. Every byte gives one character, and a byte below 0x80
/// gives the character of the same number, so decoding always succeeds.
pub fn decode_document(bytes: &[u8]) -> (outcome: Result<String, MinerError>)
    ensures
        reports_decoded(outcome, windows_1251_decoded(bytes@)),
        outcome is Ok,
        outcome matches Ok(text) ==> text@.len() == bytes@.len(),
        outcome matches Ok(text) ==> forall|i: int|
            0 <= i < bytes@.len() && bytes@[i] < 0x80 ==> #[trigger] text@[i] == bytes@[i] as char,
{
    document_from_decoded(decode_windows_1251(bytes))
}

/// The address of the profile page with the slug `slug`: the base address,
/// a slash, and the slug.
pub fn profile_url(slug: &str) -> (url: String)
    ensures
        url@ == MARKETS_BASE_URI@ + "/"@ + slug@,
{
    let mut url = MARKETS_BASE_URI.to_owned();
    url.append("/");
    url.append(slug);
    url
}

} // verus!
