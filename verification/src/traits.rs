//! Traits that the types of this crate share.
use vstd::prelude::*;

verus! {

/// A value with a canonical binary encoding.
pub trait Encode {
    /// The bytes that `encode` produces.
    spec fn spec_encode(&self) -> Seq<u8>;

    /// The encoding of the value, as a fresh byte vector.
    fn encode(&self) -> (out: Vec<u8>)
        ensures
            out@ == self.spec_encode(),
    ;
}

} // verus!
