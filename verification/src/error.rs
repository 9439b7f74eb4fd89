//! The ways in which a pool operation can be refused.

use vstd::prelude::*;

verus! {

/// Why an operation was refused. A refused operation leaves the pool as it
/// was.
#[derive(Debug, Clone, Copy, PartialEq, Eq, Structural)]
pub enum AmmError {
    /// An output fell outside a caller-supplied bound. No operation raises
    /// it at present.
    SlippageExceeded,
    /// An amount that must be positive was zero.
    InvalidAmount,
    /// A sum, difference, quotient or narrowing left the 64-bit range, or a
    /// divisor was zero.
    Overflow,
    /// The second deposit amount does not match the pool's current ratio.
    InvalidRatio,
    /// The token offered to a swap is neither of the pool's two tokens.
    InvalidToken,
}

} // verus!
