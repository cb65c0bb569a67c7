use vstd::prelude::*;

verus! {

/// The failure kinds that registry operations and coin aggregation surface.
/// The core never recovers from or masks one of these: every failure is
/// handed to the immediate caller unchanged.
#[derive(Debug, Clone, Copy, PartialEq, Eq, Structural)]
pub enum Error {
    /// A point lookup found no entry under the given key.
    NotFound,
    /// Stored bytes could not be encoded or decoded as the expected shape.
    Decode,
    /// A checked addition would exceed the representable amount range.
    Overflow,
    /// A caller-supplied key component is malformed: a connection id
    /// carrying a NUL byte, which the composite-key separator reserves.
    InvalidInput,
}

} // verus!
