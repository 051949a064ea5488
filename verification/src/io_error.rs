use vstd::prelude::*;

verus! {

/// `std::io::Error`, carried opaquely.
#[verifier::external_type_specification]
#[verifier::external_body]
pub struct ExIoError(std::io::Error);

/// Calls `std::io::Error::new` with kind `InvalidData` and the given
/// message.  Nothing is stated of the error value.
#[verifier::external_body]
pub(crate) fn invalid_data(message: &str) -> std::io::Error {
    std::io::Error::new(std::io::ErrorKind::InvalidData, message.to_string())
}

/// Calls `std::io::Error::new` with kind `UnexpectedEof`, as a read past
/// the end of the data reports it.  Nothing is stated of the error value.
#[verifier::external_body]
pub(crate) fn unexpected_eof() -> std::io::Error {
    std::io::Error::new(std::io::ErrorKind::UnexpectedEof, "failed to fill whole buffer")
}


/// The kinds of I/O failure the packer's messages tell apart.
#[derive(Clone, Copy, Debug, PartialEq, Eq, Structural)]
pub enum IoFailureKind {
    NotFound,
    PermissionDenied,
    Other,
}

/// Calls `std::io::Error::kind` and sorts the kind into not found,
/// permission denied and the rest.  Nothing is stated of which it is: the
/// error value is opaque here.
#[verifier::external_body]
pub(crate) fn io_failure_kind(err: &std::io::Error) -> IoFailureKind {
    match err.kind() {
        std::io::ErrorKind::NotFound => IoFailureKind::NotFound,
        std::io::ErrorKind::PermissionDenied => IoFailureKind::PermissionDenied,
        _ => IoFailureKind::Other,
    }
}

} // verus!
