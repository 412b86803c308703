//! The token registry, as the ledger takes it to behave.
//!
//! The registry is kept outside this crate. What is written here is the
//! ledger's picture of it: which account owns which token, how many tokens an
//! account holds, and what reading a balance and minting a token do. Tokens
//! come into being by minting alone; nothing here moves or destroys one.

use crate::address::Address;
use vstd::prelude::*;

verus! {

/// The state of the registry.
#[verifier::ext_equal]
pub struct Registry {
    /// The owner of each token that was minted.
    pub owners: Map<nat, Address>,
    /// The number of tokens held, for each account that was ever given one.
    pub balances: Map<Address, nat>,
}

impl Registry {
    /// The registry in which no token was minted yet.
    pub open spec fn empty() -> Registry {
        Registry { owners: Map::empty(), balances: Map::empty() }
    }

    /// The number of tokens that `owner` holds.
    pub open spec fn holds(self, owner: Address) -> nat {
        if self.balances.dom().contains(owner) {
            self.balances[owner]
        } else {
            0
        }
    }

    /// What the registry answers when asked for the balance of `owner`: the
    /// number of tokens held, or nothing where it rejects the question, which
    /// it does for the zero address.
    pub open spec fn balance_of(self, owner: Address) -> Option<nat> {
        if owner.is_zero() {
            None
        } else {
            Some(self.holds(owner))
        }
    }

    /// The owner of the token `token_id`, if it was minted.
    pub open spec fn owner_of(self, token_id: nat) -> Option<Address> {
        if self.owners.dom().contains(token_id) {
            Some(self.owners[token_id])
        } else {
            None
        }
    }

    /// The registry after the token `token_id` was minted to `to`, or nothing
    /// where it rejects the minting, which it does for the zero address and
    /// for a token that exists already.
    pub open spec fn mint(self, to: Address, token_id: nat) -> Option<Registry> {
        if to.is_zero() || self.owners.dom().contains(token_id) {
            None
        } else {
            Some(
                Registry {
                    owners: self.owners.insert(token_id, to),
                    balances: self.balances.insert(to, self.holds(to) + 1),
                },
            )
        }
    }
}

} // verus!
