use vstd::prelude::*;

verus! {

/// The error type of `std::io`, carried through unchanged: the encoder never
/// looks inside it.
#[verifier::external_type_specification]
#[verifier::external_body]
pub struct ExIoError(std::io::Error);

/// Relies on `std::io::Write::write_all`: hands the whole buffer to the sink,
/// or reports the sink's failure. Nothing is claimed of what the sink does
/// with the bytes.
#[verifier::external_body]
pub(crate) fn write_all_to<W: std::io::Write>(w: &mut W, bytes: &[u8]) -> (r: Result<(), std::io::Error>) {
    w.write_all(bytes)
}

} // verus!
