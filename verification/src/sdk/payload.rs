//! Values that cross the request and response body boundary.
use crate::sdk::error::Error;
use vstd::prelude::*;
use vstd::utf8::{decode_utf8, encode_utf8, valid_utf8};

verus! {

/// A type that can cross the request/response body boundary: built from the
/// raw request body bytes, and turned into response body bytes.
pub trait Payload: Sized {
    /// Builds the payload from the raw request body bytes.
    fn from_body(body: &[u8]) -> Result<Self, Error>;

    /// Serializes the payload into response body bytes.
    fn into_body(self) -> Result<Vec<u8>, Error>;
}

impl Payload for () {
    /// The empty payload ignores the body.
    fn from_body(body: &[u8]) -> (r: Result<(), Error>)
        ensures
            r is Ok,
    {
        Ok(())
    }

    /// The empty payload has an empty body.
    fn into_body(self) -> (r: Result<Vec<u8>, Error>)
        ensures
            r matches Ok(b) && b@.len() == 0,
    {
        Ok(Vec::new())
    }
}

/// The message of the error that `String::from_utf8` reports for `bytes`.
pub uninterp spec fn spec_utf8_error(bytes: Seq<u8>) -> Seq<char>;

/// `String::from_utf8`: the text that the bytes encode when they are valid
/// UTF-8; otherwise the message of its error, which is named and not written
/// out here.
#[verifier::external_body]
fn decode_utf8_text(bytes: &[u8]) -> (r: Result<String, String>)
    ensures
        r is Ok <==> valid_utf8(bytes@),
        r matches Ok(s) ==> s@ == decode_utf8(bytes@),
        r matches Err(m) ==> m@ == spec_utf8_error(bytes@),
{
    String::from_utf8(bytes.to_vec()).map_err(|error| error.to_string())
}

/// The UTF-8 bytes of a string.
pub fn utf8_bytes(s: &str) -> (r: Vec<u8>)
    ensures
        r@ == encode_utf8(s@),
{
    let bytes = s.as_bytes();
    let mut r: Vec<u8> = Vec::new();
    let mut i: usize = 0;
    while i < bytes.len()
        invariant
            i <= bytes@.len(),
            bytes@ == encode_utf8(s@),
            r@ == bytes@.take(i as int),
        decreases bytes.len() - i,
    {
        r.push(bytes[i]);
        i = i + 1;
        assert(r@ =~= bytes@.take(i as int));
    }
    assert(bytes@.take(bytes@.len() as int) =~= bytes@);
    r
}

impl Payload for String {
    /// A text body must be valid UTF-8.
    fn from_body(body: &[u8]) -> (r: Result<String, Error>)
        ensures
            r is Ok <==> valid_utf8(body@),
            r matches Ok(s) ==> s@ == decode_utf8(body@),
            r matches Err(e) ==> e@ == spec_utf8_error(body@),
    {
        match decode_utf8_text(body) {
            Ok(text) => Ok(text),
            Err(message) => Err(Error::from_message(message)),
        }
    }

    /// A text body is its UTF-8 bytes.
    fn into_body(self) -> (r: Result<Vec<u8>, Error>)
        ensures
            r matches Ok(b) && b@ == encode_utf8(self@),
    {
        Ok(utf8_bytes(self.as_str()))
    }
}

} // verus!
