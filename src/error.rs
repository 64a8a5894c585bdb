use vstd::prelude::*;

verus! {

/// Why a decode failed.
#[derive(Debug, Clone, Copy, PartialEq, Eq, Structural)]
pub enum Error {
    /// A value that the format fixes has another value: a bad magic number,
    /// a reserved stack-map frame type, a length that does not match its payload.
    Format,
    /// A read runs past the end of the input.
    Truncated,
    /// An index or offset points outside the table or buffer it refers to.
    IndexOutOfRange,
}

} // verus!
