use vstd::prelude::*;

verus! {

/// `core::str::Utf8Error`, which `core::str::from_utf8` fails with. It is
/// carried through unread: nothing is claimed of what it holds.
#[verifier::external_type_specification]
#[verifier::external_body]
pub struct ExUtf8Error(core::str::Utf8Error);

/// Decoding failed: the input ended inside an item, a header used a reserved
/// or meaningless form, or a text string was not UTF-8.
#[derive(Copy, Clone, Debug)]
pub struct Error;

impl From<core::str::Utf8Error> for Error {
    fn from(_error: core::str::Utf8Error) -> (error: Error) {
        Error
    }
}

impl vstd::std_specs::convert::FromSpecImpl<core::str::Utf8Error> for Error {
    open spec fn obeys_from_spec() -> bool {
        true
    }

    open spec fn from_spec(_error: core::str::Utf8Error) -> Error {
        Error
    }
}

/// What a decoding step returns.
pub type Result<T> = core::result::Result<T, Error>;

} // verus!
