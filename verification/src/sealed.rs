//! Keeps the set of ciphertext types closed.

use crate::provider::CipherU32;
use tfhe::FheBool;
use vstd::prelude::*;

verus! {

/// Implemented by the library's ciphertext types only.
pub trait Sealed {
}

impl Sealed for CipherU32 {
}

impl Sealed for FheBool {
}

} // verus!
