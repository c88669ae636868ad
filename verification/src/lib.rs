//! Schema-driven accessor synthesis and build orchestration for
//! protocol-buffer-style message types.
//!
//! Given per-field metadata, the classifier assigns each field one of a
//! closed set of accessor shapes, and the synthesizer derives the fixed
//! method set of that shape. The build module carries the pure decisions
//! of the build pipeline: resolving the output location, mapping schema
//! sources to include-relative paths, and assembling the namespace unit
//! that mirrors dotted package names.

use vstd::prelude::*;

pub mod builder;
pub mod classify;
pub mod emit;
pub mod namespace;
pub mod sample;
pub mod schema;
pub mod strutil;
pub mod synth;

verus! {

/// Unifies the interfaces of message values across wire-codec backends.
/// The wire encoding itself is delegated to a backend; no contract is
/// stated here, and implementations come from outside generated code.
pub trait GenericMessage: Sized {
    type Error;

    /// The size of the encoded message.
    fn compute_size(&self) -> usize;

    /// Encode the message into `buf`.
    fn encode_into(&self, buf: &mut Vec<u8>) -> Result<(), Self::Error>;

    /// Decode a message from `data`.
    fn decode_from(data: &[u8]) -> Result<Self, Self::Error>;
}

/// The ordered value registry of an enumerated type: every declared
/// value, in declaration order, the same on every call.
pub trait GenericEnum: Sized {
    /// The declared values, in declaration order.
    spec fn spec_values() -> Seq<Self>;

    /// Return the declared values, in declaration order.
    fn values() -> (r: Vec<Self>)
        ensures
            r@ == Self::spec_values(),
    ;
}

} // verus!
