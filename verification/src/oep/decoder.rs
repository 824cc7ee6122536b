//! The codec interface every fixed-layout wire struct implements.

use vstd::prelude::*;

verus! {

/// Returned when a buffer handed to `decode` does not hold exactly one
/// encoded value.
#[derive(Debug, Copy, Clone, PartialEq, Eq, Structural)]
pub struct DecodeError;

/// A fixed-layout little-endian wire struct: it encodes to exactly
/// `wire_size()` bytes and decodes from exactly that many.
///
/// `decodes_to` relates a buffer to the value its bytes denote; every
/// implementation proves in `round_trip` that decoding an encoding gives
/// the original value back.
pub trait Decoder: Sized {
    /// Well-formedness of a value; what `encode` needs and `decode` gives.
    spec fn wf(self) -> bool;

    /// The number of bytes of the wire layout.
    spec fn wire_size() -> usize;

    /// The bytes this value encodes to.
    spec fn spec_encode(self) -> Seq<u8>;

    /// Whether decoding `buf` (of length `wire_size()`) yields `r`.
    spec fn decodes_to(buf: Seq<u8>, r: Self) -> bool;

    fn encode(&self) -> (r: Vec<u8>)
        requires
            self.wf(),
        ensures
            r@ == self.spec_encode(),
            r@.len() == Self::wire_size(),
    ;

    fn decode(buffer: &[u8]) -> (r: Result<Self, DecodeError>)
        ensures
            (match r {
                Ok(v) => buffer@.len() == Self::wire_size() && Self::decodes_to(buffer@, v)
                    && v.wf(),
                Err(_) => buffer@.len() != Self::wire_size(),
            }),
    ;

    /// Decoding an encoding gives the original value back.
    proof fn round_trip(x: Self, r: Self)
        requires
            x.wf(),
            Self::decodes_to(x.spec_encode(), r),
        ensures
            r == x,
    ;
}

} // verus!
