//! The pool record and its creation.

use vstd::prelude::*;
use crate::key::MintKey;

verus! {

/// The state of one pool: the two token mints it trades and how much of
/// each it holds.
///
/// The mints and the bump are fixed at creation; operations change only the
/// two reserves.
#[derive(Debug, Clone, Copy, PartialEq, Eq)]
pub struct AmmAccount {
    /// Mint of the first token.
    pub token_a: MintKey,
    /// Mint of the second token.
    pub token_b: MintKey,
    /// Units of the first token held by the pool.
    pub reserve_a: u64,
    /// Units of the second token held by the pool.
    pub reserve_b: u64,
    /// Seed byte under which the pool's signing address was derived. The
    /// arithmetic never reads it.
    pub bump: u8,
}

impl AmmAccount {
    /// The pool holds nothing of either token.
    pub open spec fn is_empty(self) -> bool {
        self.reserve_a == 0 && self.reserve_b == 0
    }

    /// The pool holds either nothing or something of both tokens.
    pub open spec fn is_balanced(self) -> bool {
        self.reserve_a == 0 <==> self.reserve_b == 0
    }

    /// The product of the two reserves, as an unbounded number.
    pub open spec fn product(self) -> nat {
        self.reserve_a as nat * self.reserve_b as nat
    }

    /// This pool with its reserves replaced and all else kept.
    pub open spec fn with_reserves(self, reserve_a: u64, reserve_b: u64) -> AmmAccount {
        AmmAccount { reserve_a, reserve_b, ..self }
    }
}

/// Creates the empty pool for a pair of mints.
pub fn initialize(token_a: MintKey, token_b: MintKey, bump: u8) -> (amm: AmmAccount)
    ensures
        amm == (AmmAccount { token_a, token_b, reserve_a: 0, reserve_b: 0, bump }),
        amm.is_empty(),
        amm.is_balanced(),
{
    AmmAccount { token_a, token_b, reserve_a: 0, reserve_b: 0, bump }
}

} // verus!
