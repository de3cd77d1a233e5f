use vstd::prelude::*;

verus! {

/// The failure kinds that stream operations report.
#[derive(Clone, Copy, Debug, PartialEq, Eq, Structural)]
pub enum DhError {
    /// A value does not fit the requested width, or a position is not addressable.
    InvalidInput,
    /// A read, write or seek would leave the addressable range.
    UnexpectedEof,
    /// The bytes read do not form a value of the requested type.
    InvalidData,
}

} // verus!
