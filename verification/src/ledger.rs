//! The interaction ledger: three counters and the rules that bind them to the
//! issuing of collectibles.
//!
//! The ledger holds no tokens. Ownership lives in a token registry outside
//! this crate, and the two minting operations only decide: they say what to
//! ask of the registry next, and they are told what the registry answered.

use crate::address::Address;
use crate::uint256::{
    decimal_digits, greater_than, lemma_mod_window, modulus, remainder, to_decimal, wrapping_add,
    wrapping_sub, Uint256,
};
use vstd::prelude::*;
use vstd::string::*;

verus! {

/// A milestone is a counter value that is a positive multiple of ten.
pub open spec fn is_milestone(counter: nat) -> bool {
    counter > 0 && counter % 10 == 0
}

/// The least multiple of ten that is not below `counter`.
pub open spec fn next_multiple_of_ten(counter: nat) -> nat {
    ((counter + 9) / 10) * 10
}

/// The value after `n` in a 256-bit counter, which returns to zero after its
/// greatest value.
pub open spec fn successor(n: nat) -> nat {
    (n + 1) % modulus()
}

/// Where `counter` is a multiple of ten, zero included, the least multiple of
/// ten not below it is `counter` itself. Elsewhere it lies above `counter` by
/// what `counter` lacks to a full ten, and it is a milestone: the least value
/// not below `counter` that is a positive multiple of ten.
pub proof fn lemma_next_multiple_of_ten(counter: nat)
    ensures
        counter % 10 == 0 ==> next_multiple_of_ten(counter) == counter,
        counter % 10 != 0 ==> next_multiple_of_ten(counter) == counter + 10 - counter % 10,
        counter % 10 != 0 ==> is_milestone(next_multiple_of_ten(counter)),
        next_multiple_of_ten(counter) >= counter,
        next_multiple_of_ten(counter) % 10 == 0,
{
}

/// No multiple of ten lies between `counter` and the least multiple of ten
/// not below it.
pub proof fn lemma_next_multiple_of_ten_is_least(counter: nat, other: nat)
    requires
        other >= counter,
        other % 10 == 0,
    ensures
        next_multiple_of_ten(counter) <= other,
{
}

/// A 256-bit counter below its greatest value goes up by one; at its greatest
/// value it returns to zero.
pub proof fn lemma_successor(n: nat)
    requires
        n < modulus(),
    ensures
        n + 1 < modulus() ==> successor(n) == n + 1,
        n + 1 == modulus() ==> successor(n) == 0,
{
    lemma_mod_window(n as int + 1, modulus() as int);
}

/// The values of the three counters.
pub struct Counters {
    /// The highest token id issued so far.
    pub researcher_supply: nat,
    /// The number of interactions counted so far.
    pub global_counter: nat,
    /// The number of subscriptions made so far.
    pub subscription_counter: nat,
}

impl Counters {
    /// The counters of a contract that has just been deployed.
    pub open spec fn fresh() -> Counters {
        Counters { researcher_supply: 0, global_counter: 0, subscription_counter: 0 }
    }

    /// The counters after one more interaction was counted.
    pub open spec fn incremented(self) -> Counters {
        Counters { global_counter: successor(self.global_counter), ..self }
    }

    /// The counters after one more subscription, which also counts as an
    /// interaction.
    pub open spec fn subscribed(self) -> Counters {
        Counters {
            subscription_counter: successor(self.subscription_counter),
            global_counter: successor(self.global_counter),
            ..self
        }
    }

    /// The counters after the token `token_id` was issued.
    pub open spec fn issued(self, token_id: nat) -> Counters {
        Counters { researcher_supply: token_id, ..self }
    }
}

/// Why a request for a collectible is turned down.
#[derive(Clone, Copy, Debug, PartialEq, Eq)]
pub enum MintError {
    /// The interaction counter does not stand at a milestone.
    NotAtMilestone,
    /// The caller already holds a collectible.
    AlreadyHolds,
}

impl MintError {
    /// The payload with which the call is rejected: the bytes of a message
    /// that a person can read.
    pub open spec fn payload(self) -> Seq<u8> {
        match self {
            MintError::NotAtMilestone => "Counter not at milestone".spec_bytes(),
            MintError::AlreadyHolds => "User already has an NFT".spec_bytes(),
        }
    }

    /// The payload with which the call is rejected.
    pub fn message(&self) -> (r: Vec<u8>)
        ensures
            r@ == self.payload(),
    {
        match self {
            MintError::NotAtMilestone => "Counter not at milestone".as_bytes_vec(),
            MintError::AlreadyHolds => "User already has an NFT".as_bytes_vec(),
        }
    }
}

/// The condition on the interaction counter under which a minting operation
/// issues a collectible.
#[derive(Clone, Copy, Debug, PartialEq, Eq)]
pub enum MintGate {
    /// The counter has to stand at a milestone.
    Milestone,
    /// No condition.
    Open,
}

impl MintGate {
    /// Whether the condition holds at this value of the counter.
    pub open spec fn admits(self, counter: nat) -> bool {
        match self {
            MintGate::Milestone => is_milestone(counter),
            MintGate::Open => true,
        }
    }
}

/// What a minting operation is told.
#[derive(Clone, Copy, Debug, PartialEq, Eq)]
pub enum MintEvent {
    /// The caller asks for a collectible.
    Requested,
    /// The registry was asked, and this is the number of tokens that the
    /// caller holds.
    BalanceRead(Uint256),
}

/// What a minting operation asks of the registry next.
#[derive(Clone, Copy, Debug, PartialEq, Eq)]
pub enum MintStep {
    /// Read the number of tokens that `owner` holds, and report it.
    ReadBalance { owner: Address },
    /// Mint the token `token_id` to `to`. The request is granted.
    Mint { to: Address, token_id: Uint256 },
}

/// The decision of a minting operation, with numbers in place of machine
/// integers.
pub enum MintVerdict {
    /// The request is turned down.
    Rejected(MintError),
    /// The caller's balance has to be read first.
    ReadBalance,
    /// The token with this id is to be minted to the caller.
    Mint { token_id: nat },
}

/// The decision on a request for a collectible. `balance` is the caller's
/// balance where the registry has reported it.
///
/// The counter is looked at first, at every event: nothing is asked of the
/// registry for a request that the counter rules out. A caller whose balance
/// is not known has it read. A caller with a balance of zero is granted the
/// token after the highest id issued so far; any other caller is turned down.
pub open spec fn mint_verdict(counters: Counters, gate: MintGate, balance: Option<nat>)
    -> MintVerdict {
    if !gate.admits(counters.global_counter) {
        MintVerdict::Rejected(MintError::NotAtMilestone)
    } else {
        match balance {
            None => MintVerdict::ReadBalance,
            Some(b) => if b > 0 {
                MintVerdict::Rejected(MintError::AlreadyHolds)
            } else {
                MintVerdict::Mint { token_id: successor(counters.researcher_supply) }
            },
        }
    }
}

/// The counters after a minting operation came to this decision: only a
/// granted request changes them, and only the highest id issued.
pub open spec fn counters_after(counters: Counters, verdict: MintVerdict) -> Counters {
    match verdict {
        MintVerdict::Mint { token_id } => counters.issued(token_id),
        _ => counters,
    }
}

impl MintEvent {
    /// The balance that the event reports, if it reports one.
    pub open spec fn balance(self) -> Option<nat> {
        match self {
            MintEvent::Requested => None,
            MintEvent::BalanceRead(b) => Some(b@),
        }
    }
}

/// Whether what a minting operation returned to `caller` states this decision.
pub open spec fn states_verdict(
    returned: Result<MintStep, MintError>,
    caller: Address,
    verdict: MintVerdict,
) -> bool {
    match verdict {
        MintVerdict::Rejected(e) => returned == Err::<MintStep, MintError>(e),
        MintVerdict::ReadBalance => returned == Ok::<MintStep, MintError>(
            MintStep::ReadBalance { owner: caller },
        ),
        MintVerdict::Mint { token_id } => returned matches Ok(MintStep::Mint { to, token_id: id })
            && to == caller && id@ == token_id,
    }
}

/// The JSON text before the token id in a token's metadata.
pub open spec fn token_uri_head() -> Seq<char> {
    "{\"name\":\"Top Signals Researcher #"@
}

/// The JSON text after the token id in a token's metadata.
pub open spec fn token_uri_tail() -> Seq<char> {
    "\",\"description\":\"NFT awarded to users who have analyzed tokens in the Top Signals Browser.\",\"image\":\"/researcher-nft.svg\",\"attributes\":[{\"trait_type\":\"Role\",\"value\":\"Researcher\"},{\"trait_type\":\"Analytics Level\",\"value\":\"Expert\"}]}"@
}

/// The ledger of the Top Signals Browser contract.
#[derive(Clone, Copy, Debug, PartialEq, Eq)]
pub struct TopSignalsBrowserContract {
    /// The highest token id issued so far.
    pub researcher_supply: Uint256,
    /// The counter of interactions, shared by all callers.
    pub global_counter: Uint256,
    /// The counter of subscriptions; its value is the id of the latest one.
    pub subscription_counter: Uint256,
}

impl View for TopSignalsBrowserContract {
    type V = Counters;

    open spec fn view(&self) -> Counters {
        Counters {
            researcher_supply: self.researcher_supply@,
            global_counter: self.global_counter@,
            subscription_counter: self.subscription_counter@,
        }
    }
}

impl TopSignalsBrowserContract {
    /// The ledger of a contract that has just been deployed: every counter is
    /// zero.
    pub fn new() -> (r: TopSignalsBrowserContract)
        ensures
            r@ == Counters::fresh(),
    {
        TopSignalsBrowserContract {
            researcher_supply: Uint256::from_u64(0),
            global_counter: Uint256::from_u64(0),
            subscription_counter: Uint256::from_u64(0),
        }
    }

    /// The deployment hook. It changes nothing and always succeeds.
    pub fn initialize(&mut self) -> (r: Result<(), Vec<u8>>)
        ensures
            r is Ok,
            *final(self) == *old(self),
    {
        Ok(())
    }

    /// Counts one interaction. Always succeeds. The counter goes up by one;
    /// from the greatest value that 256 bits hold it returns to zero.
    pub fn increment_counter(&mut self) -> (r: Result<(), Vec<u8>>)
        ensures
            r is Ok,
            final(self)@ == old(self)@.incremented(),
            old(self)@.global_counter + 1 < modulus() ==> final(self)@.global_counter == old(
                self,
            )@.global_counter + 1,
            final(self).researcher_supply == old(self).researcher_supply,
            final(self).subscription_counter == old(self).subscription_counter,
    {
        let current = self.global_counter;
        proof {
            current.lemma_view_bound();
            lemma_successor(current@);
        }
        self.global_counter = wrapping_add(current, Uint256::from_u64(1));
        Ok(())
    }

    /// The number of interactions counted so far.
    pub fn get_counter(&self) -> (r: Result<Uint256, Vec<u8>>)
        ensures
            r == Ok::<Uint256, Vec<u8>>(self.global_counter),
    {
        Ok(self.global_counter)
    }

    /// Whether the interaction counter stands at a milestone.
    fn at_milestone(&self) -> (r: bool)
        ensures
            r == is_milestone(self@.global_counter),
    {
        let counter = self.global_counter;
        let rest = remainder(counter, Uint256::from_u64(10));
        rest.is_zero() && greater_than(counter, Uint256::from_u64(0))
    }

    /// Whether the interaction counter stands at a milestone: whether it is
    /// positive and a multiple of ten.
    pub fn is_counter_multiple_of_ten(&self) -> (r: Result<bool, Vec<u8>>)
        ensures
            r == Ok::<bool, Vec<u8>>(is_milestone(self@.global_counter)),
    {
        Ok(self.at_milestone())
    }

    /// The counter itself where it is a multiple of ten, zero included; else
    /// the next multiple of ten above it. A result that 256 bits cannot hold
    /// is reduced modulo `2^256`.
    pub fn get_next_counter_milestone(&self) -> (r: Result<Uint256, Vec<u8>>)
        ensures
            r matches Ok(m) && m@ == next_multiple_of_ten(self@.global_counter) % modulus(),
            self@.global_counter % 10 == 0 ==> r == Ok::<Uint256, Vec<u8>>(self.global_counter),
            next_multiple_of_ten(self@.global_counter) < modulus() ==> (r matches Ok(m) && m@
                == next_multiple_of_ten(self@.global_counter)),
    {
        let counter = self.global_counter;
        let rest = remainder(counter, Uint256::from_u64(10));
        proof {
            counter.lemma_view_bound();
            lemma_next_multiple_of_ten(counter@);
        }
        if rest.is_zero() {
            proof {
                lemma_mod_window(counter@ as int, modulus() as int);
            }
            Ok(counter)
        } else {
            let raised = wrapping_add(counter, Uint256::from_u64(10));
            let next = wrapping_sub(raised, rest);
            proof {
                let m = modulus() as int;
                lemma_mod_window((counter@ + 10) as int, m);
                lemma_mod_window(raised@ - rest@, m);
                lemma_mod_window(counter@ + 10 - rest@, m);
                if next_multiple_of_ten(counter@) < modulus() {
                    lemma_mod_window(next_multiple_of_ten(counter@) as int, m);
                }
            }
            Ok(next)
        }
    }

    /// Registers a subscription to alerts on an asset's threshold. Neither the
    /// asset nor the threshold is looked at. The subscription counts as one
    /// interaction; the new value of the subscription counter is its id.
    pub fn subscribe_to_token(&mut self, _fid: Uint256, _token: String, _threshold: Uint256) -> (r:
        Result<Uint256, Vec<u8>>)
        ensures
            final(self)@ == old(self)@.subscribed(),
            r == Ok::<Uint256, Vec<u8>>(final(self).subscription_counter),
            old(self)@.subscription_counter + 1 < modulus() ==> final(self)@.subscription_counter
                == old(self)@.subscription_counter + 1,
            old(self)@.global_counter + 1 < modulus() ==> final(self)@.global_counter == old(
                self,
            )@.global_counter + 1,
            final(self).researcher_supply == old(self).researcher_supply,
    {
        proof {
            self.subscription_counter.lemma_view_bound();
            self.global_counter.lemma_view_bound();
            lemma_successor(self.subscription_counter@);
            lemma_successor(self.global_counter@);
        }
        let subscription_id = wrapping_add(self.subscription_counter, Uint256::from_u64(1));
        self.subscription_counter = subscription_id;
        let current_counter = self.global_counter;
        self.global_counter = wrapping_add(current_counter, Uint256::from_u64(1));
        Ok(subscription_id)
    }

    /// The number of subscriptions made so far.
    pub fn get_subscription_counter(&self) -> (r: Result<Uint256, Vec<u8>>)
        ensures
            r == Ok::<Uint256, Vec<u8>>(self.subscription_counter),
    {
        Ok(self.subscription_counter)
    }

    /// The decision that both minting operations share; they differ in the
    /// gate alone.
    fn mint_if_eligible(&mut self, gate: MintGate, caller: Address, event: MintEvent) -> (r: Result<
        MintStep,
        MintError,
    >)
        ensures
            states_verdict(r, caller, mint_verdict(old(self)@, gate, event.balance())),
            final(self)@ == counters_after(
                old(self)@,
                mint_verdict(old(self)@, gate, event.balance()),
            ),
            r matches Ok(MintStep::Mint { token_id, .. }) ==> final(self).researcher_supply
                == token_id,
            !(r matches Ok(MintStep::Mint { .. })) ==> *final(self) == *old(self),
            final(self).global_counter == old(self).global_counter,
            final(self).subscription_counter == old(self).subscription_counter,
    {
        let admitted = match gate {
            MintGate::Milestone => self.at_milestone(),
            MintGate::Open => true,
        };
        if !admitted {
            return Err(MintError::NotAtMilestone);
        }
        match event {
            MintEvent::Requested => Ok(MintStep::ReadBalance { owner: caller }),
            MintEvent::BalanceRead(user_balance) => {
                if greater_than(user_balance, Uint256::from_u64(0)) {
                    return Err(MintError::AlreadyHolds);
                }
                let token_id = wrapping_add(self.researcher_supply, Uint256::from_u64(1));
                self.researcher_supply = token_id;
                Ok(MintStep::Mint { to: caller, token_id })
            },
        }
    }

    /// One step of the minting that a milestone earns. The caller is granted
    /// a collectible if the interaction counter stands at a milestone and the
    /// caller holds none yet. The counter is read, never advanced.
    ///
    /// The operation is called with `Requested` first, and again with the
    /// balance once the registry has reported it. It fails with
    /// `NotAtMilestone` at every counter that is no milestone, whatever the
    /// event; with `AlreadyHolds` where the balance reported is not zero.
    pub fn mint_nft_at_milestone(&mut self, caller: Address, event: MintEvent) -> (r: Result<
        MintStep,
        MintError,
    >)
        ensures
            states_verdict(
                r,
                caller,
                mint_verdict(old(self)@, MintGate::Milestone, event.balance()),
            ),
            final(self)@ == counters_after(
                old(self)@,
                mint_verdict(old(self)@, MintGate::Milestone, event.balance()),
            ),
            r matches Ok(MintStep::Mint { token_id, .. }) ==> final(self).researcher_supply
                == token_id,
            !(r matches Ok(MintStep::Mint { .. })) ==> *final(self) == *old(self),
            final(self).global_counter == old(self).global_counter,
            final(self).subscription_counter == old(self).subscription_counter,
    {
        self.mint_if_eligible(MintGate::Milestone, caller, event)
    }

    /// One step of the minting that asks for no milestone. The caller is
    /// granted a collectible if the caller holds none yet. Token ids come
    /// from the same sequence as those of the milestone minting.
    ///
    /// The operation is called with `Requested` first, and again with the
    /// balance once the registry has reported it. It fails with
    /// `AlreadyHolds` where the balance reported is not zero.
    pub fn mint_signal_scout_nft(&mut self, caller: Address, event: MintEvent) -> (r: Result<
        MintStep,
        MintError,
    >)
        ensures
            states_verdict(r, caller, mint_verdict(old(self)@, MintGate::Open, event.balance())),
            final(self)@ == counters_after(
                old(self)@,
                mint_verdict(old(self)@, MintGate::Open, event.balance()),
            ),
            r matches Ok(MintStep::Mint { token_id, .. }) ==> final(self).researcher_supply
                == token_id,
            !(r matches Ok(MintStep::Mint { .. })) ==> *final(self) == *old(self),
            final(self).global_counter == old(self).global_counter,
            final(self).subscription_counter == old(self).subscription_counter,
    {
        self.mint_if_eligible(MintGate::Open, caller, event)
    }

    /// The name of the collection.
    pub fn name(&self) -> (r: Result<String, Vec<u8>>)
        ensures
            r matches Ok(s) && s@ == "Top Signals Browser Researcher"@,
    {
        Ok(String::from_str("Top Signals Browser Researcher"))
    }

    /// The symbol of the collection.
    pub fn symbol(&self) -> (r: Result<String, Vec<u8>>)
        ensures
            r matches Ok(s) && s@ == "TSBR"@,
    {
        Ok(String::from_str("TSBR"))
    }

    /// The metadata of the token `token_id`: a JSON document with the
    /// token's name, which ends in the id as a decimal numeral, and the
    /// description, image and attributes that all tokens share. Whether the
    /// token was ever minted is not looked at.
    pub fn token_uri(&self, token_id: Uint256) -> (r: Result<String, Vec<u8>>)
        ensures
            r matches Ok(s) && s@ == token_uri_head() + decimal_digits(token_id@)
                + token_uri_tail(),
    {
        let mut metadata = String::from_str("{\"name\":\"Top Signals Researcher #");
        let numeral = to_decimal(token_id);
        metadata.append(numeral.as_str());
        metadata.append(
            "\",\"description\":\"NFT awarded to users who have analyzed tokens in the Top Signals Browser.\",\"image\":\"/researcher-nft.svg\",\"attributes\":[{\"trait_type\":\"Role\",\"value\":\"Researcher\"},{\"trait_type\":\"Analytics Level\",\"value\":\"Expert\"}]}",
        );
        Ok(metadata)
    }
}

} // verus!
