use vstd::prelude::*;

verus! {

/// Every failure this library can report.  All of them are unrecoverable at
/// the point of occurrence: they surface to the caller of the evaluation or
/// interaction round instead of being swallowed.
#[derive(Debug, Clone, Copy, PartialEq, Eq, Structural)]
pub enum Error {
    /// A primitive met the wrong runtime type (a non-number where a number is
    /// required, a non-list where a list is required, a value applied that is
    /// not a function), including integer division by zero.
    TypeMismatch,
    /// An environment lookup missed.
    UnboundVariable,
    /// The reducer reached a form it cannot interpret further; the host
    /// program is malformed.
    UnreducibleExpression,
    /// A primitive's exact integer result does not fit the 64-bit signed
    /// number domain.
    NumericOverflow,
    /// The codec hit the end of input or an invalid shape mid-decode, or a
    /// decoded number does not fit the 64-bit signed number domain.
    MalformedEncoding,
    /// The driver could not destructure a protocol result as the expected
    /// flag/state/data triple.
    ProtocolShapeError,
    /// The network exchange failed or answered with an unexpected status.
    /// Produced by the unverified transport shell, never by this library.
    TransportFailure,
    /// The caller-supplied budget of reduction steps ran out before the
    /// evaluation reached a result.
    StepLimitExceeded,
    /// The reduction graph grew past the machine's addressable size.
    ArenaLimitExceeded,
    /// The caller-supplied structure-depth budget ran out while walking an
    /// evaluated value.
    DepthLimitExceeded,
}

} // verus!
