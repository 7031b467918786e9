use vstd::prelude::*;
use vstd::string::StringSliceAdditionalSpecFns;
use vstd::utf8::valid_utf8;

verus! {

/// Taken on trust of `core::str::from_utf8`: it accepts a slice exactly
/// when its bytes are well-formed UTF-8, and the string it then returns is
/// made of those same bytes.
pub assume_specification[ core::str::from_utf8 ](v: &[u8]) -> (res: core::result::Result<
    &str,
    core::str::Utf8Error,
>)
    ensures
        res is Ok <==> valid_utf8(v@),
        res matches Ok(text) ==> text.spec_bytes() == v@,
;

} // verus!
