//! UTF-8 conversion of payload bytes.

use vstd::prelude::*;
use vstd::string::StringSliceAdditionalSpecFns;
use vstd::utf8::{decode_utf8, encode_utf8_decode_utf8, valid_utf8};

verus! {

/// Relies on std::str::from_utf8: it succeeds exactly on UTF-8 input, and the
/// resulting str is made of the same bytes.
#[verifier::external_body]
fn str_from_utf8(data: &[u8]) -> (r: Result<&str, std::str::Utf8Error>)
    ensures
        r is Ok <==> valid_utf8(data@),
        r matches Ok(s) ==> s.spec_bytes() == data@,
{
    std::str::from_utf8(data)
}

/// Transforms a u8 slice into an owned String.
pub fn bytes_to_string(data: &[u8]) -> (r: Result<String, std::str::Utf8Error>)
    ensures
        r is Ok <==> valid_utf8(data@),
        r matches Ok(s) ==> s@ == decode_utf8(data@),
{
    match str_from_utf8(data) {
        Ok(s) => {
            proof {
                encode_utf8_decode_utf8(s@);
            }
            Ok(s.to_owned())
        },
        Err(e) => Err(e),
    }
}

} // verus!
