//! Randomness from the operating system.

use vstd::prelude::*;

verus! {

/// `getrandom::Error`, why the system gave no randomness.
#[verifier::external_type_specification]
#[verifier::external_body]
pub struct ExRandomError(getrandom::Error);

/// `getrandom::getrandom`: fills an array with random bytes. Nothing is claimed of the bytes.
#[verifier::external_body]
pub(crate) fn random_bytes<const N: usize>() -> (r: Result<[u8; N], getrandom::Error>) {
    let mut bytes = [0u8; N];
    match getrandom::getrandom(&mut bytes) {
        Ok(()) => Ok(bytes),
        Err(e) => Err(e),
    }
}

/// `getrandom::Error`'s `Display`. Nothing is claimed of the text, which the system may give.
#[verifier::external_body]
pub(crate) fn random_error_text(e: &getrandom::Error) -> (r: String) {
    e.to_string()
}

/// Draw random bytes, or say why the system gave none.
pub(crate) fn draw<const N: usize>() -> (r: Result<[u8; N], String>) {
    match random_bytes::<N>() {
        Ok(bytes) => Ok(bytes),
        Err(e) => Err(random_error_text(&e)),
    }
}

} // verus!
