//! The ledger and the token registry together, and what holds of every state
//! that calls can bring them to.
//!
//! The registry is taken to change by the ledger's minting alone. What is
//! proved here says nothing of a registry whose tokens are also moved or
//! minted by other means.

use crate::address::{span, Address};
use crate::ledger::{
    counters_after, is_milestone, mint_verdict, Counters, MintError, MintGate, MintVerdict,
};
use crate::registry::Registry;
use crate::uint256::{lemma_mod_window, modulus};
use vstd::prelude::*;
use vstd::relations::injective_on;
use vstd::set_lib::{lemma_int_range, lemma_len_subset, lemma_map_size, set_int_range};

verus! {

/// A call that may change the state of the contract. The operations that only
/// read have no place here.
pub enum Call {
    /// The deployment hook.
    Initialize,
    /// One interaction is counted.
    IncrementCounter,
    /// A subscription is registered.
    SubscribeToToken,
    /// `caller` asks for the collectible that a milestone earns.
    MintNftAtMilestone { caller: Address },
    /// `caller` asks for the collectible that needs no milestone.
    MintSignalScoutNft { caller: Address },
}

/// How a call ends.
pub enum Outcome {
    /// The call succeeded. A minting call that succeeded issued `minted`.
    Done { minted: Option<nat> },
    /// The ledger turned the call down.
    Rejected(MintError),
    /// The registry rejected what it was asked.
    RegistryFailed,
    /// The ledger asked for something that has no place at that point of the
    /// exchange. No call ends so.
    Stalled,
}

/// The state of the contract: the ledger's counters and the registry.
#[verifier::ext_equal]
pub struct World {
    pub counters: Counters,
    pub registry: Registry,
}

impl World {
    /// The state of a contract that has just been deployed.
    pub open spec fn fresh() -> World {
        World { counters: Counters::fresh(), registry: Registry::empty() }
    }

    /// A minting call from start to end: the ledger decides, the registry is
    /// asked what the ledger says to ask, and the ledger decides again on what
    /// the registry answered. A call that does not succeed leaves no trace.
    pub open spec fn mint(self, gate: MintGate, caller: Address) -> (World, Outcome) {
        match mint_verdict(self.counters, gate, None) {
            MintVerdict::Rejected(e) => (self, Outcome::Rejected(e)),
            MintVerdict::Mint { .. } => (self, Outcome::Stalled),
            MintVerdict::ReadBalance => match self.registry.balance_of(caller) {
                None => (self, Outcome::RegistryFailed),
                Some(balance) => {
                    let verdict = mint_verdict(self.counters, gate, Some(balance));
                    match verdict {
                        MintVerdict::Rejected(e) => (self, Outcome::Rejected(e)),
                        MintVerdict::ReadBalance => (self, Outcome::Stalled),
                        MintVerdict::Mint { token_id } => match self.registry.mint(
                            caller,
                            token_id,
                        ) {
                            None => (self, Outcome::RegistryFailed),
                            Some(registry) => (
                                World { counters: counters_after(self.counters, verdict), registry },
                                Outcome::Done { minted: Some(token_id) },
                            ),
                        },
                    }
                },
            },
        }
    }

    /// The state after a call, and how the call ended.
    pub open spec fn call(self, call: Call) -> (World, Outcome) {
        match call {
            Call::Initialize => (self, Outcome::Done { minted: None }),
            Call::IncrementCounter => (
                World { counters: self.counters.incremented(), ..self },
                Outcome::Done { minted: None },
            ),
            Call::SubscribeToToken => (
                World { counters: self.counters.subscribed(), ..self },
                Outcome::Done { minted: None },
            ),
            Call::MintNftAtMilestone { caller } => self.mint(MintGate::Milestone, caller),
            Call::MintSignalScoutNft { caller } => self.mint(MintGate::Open, caller),
        }
    }

    /// What holds of the state of a contract at every moment of its life:
    /// - each counter fits in 256 bits;
    /// - the tokens that exist are those with the ids from one up to the
    ///   highest id issued, none left out;
    /// - every token is owned by an account other than the zero address;
    /// - no account owns two tokens;
    /// - an account holds one token if it owns one, and none if it does not.
    pub open spec fn sound(self) -> bool {
        let owners = self.registry.owners;
        &&& self.counters.researcher_supply < modulus()
        &&& self.counters.global_counter < modulus()
        &&& self.counters.subscription_counter < modulus()
        &&& forall|id: nat| #[trigger]
            owners.dom().contains(id) <==> 1 <= id <= self.counters.researcher_supply
        &&& forall|id: nat| #[trigger]
            owners.dom().contains(id) ==> !owners[id].is_zero() && self.registry.holds(owners[id])
                == 1
        &&& forall|i: nat, j: nat|
            owners.dom().contains(i) && owners.dom().contains(j) && #[trigger] owners[i]
                == #[trigger] owners[j] ==> i == j
        &&& forall|account: Address| #[trigger] self.registry.holds(account) <= 1
        &&& forall|account: Address| #[trigger]
            self.registry.holds(account) == 1 ==> exists|id: nat| #[trigger]
                owners.dom().contains(id) && owners[id] == account
    }

    /// The state after a sequence of calls, made one after the other.
    pub open spec fn run(self, calls: Seq<Call>) -> World
        decreases calls.len(),
    {
        if calls.len() == 0 {
            self
        } else {
            self.run(calls.drop_last()).call(calls.last()).0
        }
    }
}

/// There are `2^160` addresses, far fewer than a 256-bit counter has values.
pub proof fn lemma_addresses_are_few()
    ensures
        span(20) == 0x1_0000_0000_0000_0000_0000_0000_0000_0000_0000_0000nat,
        span(20) + 1 < modulus(),
{
    reveal_with_fuel(span, 21);
}

/// The state of a contract that has just been deployed is sound.
pub proof fn lemma_fresh_is_sound()
    ensures
        World::fresh().sound(),
{
}

/// In a sound state no more tokens were issued than there are addresses: the
/// tokens have owners, and no two of them have the same.
pub proof fn lemma_supply_is_bounded(world: World)
    requires
        world.sound(),
    ensures
        world.counters.researcher_supply <= span(20),
        world.counters.researcher_supply + 1 < modulus(),
{
    let supply = world.counters.researcher_supply;
    let owners = world.registry.owners;
    let number_of = |id: int| owners[id as nat].number() as int;
    let ids = set_int_range(1, supply as int + 1);
    let numbers = ids.map(number_of);
    let all_numbers = set_int_range(0, span(20) as int);
    lemma_int_range(1, supply as int + 1);
    lemma_int_range(0, span(20) as int);
    assert(injective_on(number_of, ids)) by {
        assert forall|x1: int, x2: int|
            ids.contains(x1) && ids.contains(x2) && #[trigger] number_of(x1) == #[trigger] number_of(
                x2,
            ) implies x1 == x2 by {
            assert(owners.dom().contains(x1 as nat));
            assert(owners.dom().contains(x2 as nat));
            owners[x1 as nat].lemma_number_injective(owners[x2 as nat]);
        }
    }
    lemma_map_size(ids, numbers, number_of);
    assert(numbers.subset_of(all_numbers)) by {
        assert forall|y: int| numbers.contains(y) implies all_numbers.contains(y) by {
            let x = choose|x: int| ids.contains(x) && y == number_of(x);
            owners[x as nat].lemma_number_bound();
        }
    }
    lemma_len_subset(numbers, all_numbers);
    lemma_addresses_are_few();
}

/// A call made in a sound state leaves a sound state.
pub proof fn lemma_call_keeps_sound(world: World, call: Call)
    requires
        world.sound(),
    ensures
        world.call(call).0.sound(),
{
    let after = world.call(call).0;
    match call {
        Call::Initialize => {},
        Call::IncrementCounter => {
            assert(after.registry == world.registry);
        },
        Call::SubscribeToToken => {
            assert(after.registry == world.registry);
        },
        Call::MintNftAtMilestone { caller } => {
            lemma_mint_keeps_sound(world, MintGate::Milestone, caller);
        },
        Call::MintSignalScoutNft { caller } => {
            lemma_mint_keeps_sound(world, MintGate::Open, caller);
        },
    }
}

/// A minting call made in a sound state leaves a sound state.
pub proof fn lemma_mint_keeps_sound(world: World, gate: MintGate, caller: Address)
    requires
        world.sound(),
    ensures
        world.mint(gate, caller).0.sound(),
{
    let (after, outcome) = world.mint(gate, caller);
    if outcome is Done {
        lemma_supply_is_bounded(world);
        let supply = world.counters.researcher_supply;
        let token_id = (supply + 1) as nat;
        lemma_mod_window(supply as int + 1, modulus() as int);
        let owners = world.registry.owners;
        let new_owners = after.registry.owners;
        assert(world.registry.holds(caller) == 0);
        assert(!owners.dom().contains(token_id));
        assert(new_owners == owners.insert(token_id, caller));
        assert forall|account: Address| #[trigger] after.registry.holds(account) <= 1 by {
            assert(world.registry.holds(account) <= 1);
        }
        assert forall|account: Address| #[trigger]
            after.registry.holds(account) == 1 implies exists|id: nat| #[trigger]
            new_owners.dom().contains(id) && new_owners[id] == account by {
            if account == caller {
                assert(new_owners.dom().contains(token_id) && new_owners[token_id] == account);
            } else {
                assert(world.registry.holds(account) == 1);
                let id = choose|id: nat| #[trigger]
                    owners.dom().contains(id) && owners[id] == account;
                assert(new_owners.dom().contains(id) && new_owners[id] == account);
            }
        }
        assert forall|id: nat| #[trigger] new_owners.dom().contains(id) implies !new_owners[id].is_zero()
            && after.registry.holds(new_owners[id]) == 1 by {
            if id != token_id {
                assert(owners.dom().contains(id));
            }
        }
        assert forall|i: nat, j: nat|
            new_owners.dom().contains(i) && new_owners.dom().contains(j) && #[trigger] new_owners[i]
                == #[trigger] new_owners[j] implies i == j by {
            if i != token_id {
                assert(owners.dom().contains(i));
            }
            if j != token_id {
                assert(owners.dom().contains(j));
            }
        }
        assert forall|id: nat| #[trigger]
            new_owners.dom().contains(id) <==> 1 <= id <= after.counters.researcher_supply by {
            if id != token_id {
                assert(new_owners.dom().contains(id) == owners.dom().contains(id));
            }
        }
    }
}

/// Every sequence of calls that starts in a sound state ends in one.
pub proof fn lemma_run_keeps_sound(world: World, calls: Seq<Call>)
    requires
        world.sound(),
    ensures
        world.run(calls).sound(),
    decreases calls.len(),
{
    if calls.len() > 0 {
        lemma_run_keeps_sound(world, calls.drop_last());
        lemma_call_keeps_sound(world.run(calls.drop_last()), calls.last());
    }
}

/// An account holds at most one token for the whole life of the contract:
/// whatever calls were made since it was deployed, in whatever order, and by
/// whichever of the two minting operations the tokens were issued.
pub proof fn lemma_one_token_per_account(calls: Seq<Call>, account: Address)
    ensures
        World::fresh().run(calls).registry.holds(account) <= 1,
{
    lemma_fresh_is_sound();
    lemma_run_keeps_sound(World::fresh(), calls);
}

/// How a minting call ends, in a sound state. It succeeds where the counter
/// meets the operation's condition and the caller, who is not the zero
/// address, holds no token; each way of failing has its own cases, and a call
/// that fails changes nothing.
///
/// A call that succeeds issues the id that follows the highest id issued so
/// far, whichever of the two operations it is: a token with that id did not
/// exist before, it belongs to the caller afterwards, and the caller then
/// holds one token. So ids are never repeated and none is left out.
pub proof fn lemma_mint_issues_next_id(world: World, gate: MintGate, caller: Address)
    requires
        world.sound(),
    ensures
        ({
            let (after, outcome) = world.mint(gate, caller);
            let counter = world.counters.global_counter;
            let supply = world.counters.researcher_supply;
            &&& outcome == Outcome::Rejected(MintError::NotAtMilestone) <==> !gate.admits(counter)
            &&& outcome == Outcome::RegistryFailed <==> gate.admits(counter) && caller.is_zero()
            &&& outcome == Outcome::Rejected(MintError::AlreadyHolds) <==> gate.admits(counter)
                && !caller.is_zero() && world.registry.holds(caller) > 0
            &&& outcome is Done <==> gate.admits(counter) && !caller.is_zero()
                && world.registry.holds(caller) == 0
            &&& !(outcome is Done) ==> after == world
            &&& outcome is Done ==> {
                &&& outcome == Outcome::Done { minted: Some((supply + 1) as nat) }
                &&& after.counters == world.counters.issued((supply + 1) as nat)
                &&& world.registry.owner_of((supply + 1) as nat) is None
                &&& after.registry.owner_of((supply + 1) as nat) == Some(caller)
                &&& after.registry.holds(caller) == 1
                &&& forall|id: nat|
                    id != supply + 1 ==> after.registry.owner_of(id) == world.registry.owner_of(id)
                &&& forall|account: Address|
                    account != caller ==> after.registry.holds(account) == world.registry.holds(
                        account,
                    )
            }
        }),
{
    lemma_supply_is_bounded(world);
    let supply = world.counters.researcher_supply;
    lemma_mod_window(supply as int + 1, modulus() as int);
    assert(!world.registry.owners.dom().contains((supply + 1) as nat));
    assert(world.registry.holds(caller) <= 1);
}

/// Whatever calls were made since the contract was deployed, the tokens that
/// exist are those with the ids from one up to the highest id issued: no id
/// was left out, and none was issued twice.
pub proof fn lemma_ids_are_consecutive(calls: Seq<Call>, id: nat)
    ensures
        ({
            let world = World::fresh().run(calls);
            world.registry.owner_of(id) is Some <==> 1 <= id <= world.counters.researcher_supply
        }),
{
    lemma_fresh_is_sound();
    lemma_run_keeps_sound(World::fresh(), calls);
    let world = World::fresh().run(calls);
    assert(world.registry.owners.dom().contains(id) <==> 1 <= id
        <= world.counters.researcher_supply);
}

/// The exchange between the ledger and the registry always comes to an end:
/// the ledger asks for a balance once, and decides when it is told.
pub proof fn lemma_no_call_stalls(world: World, call: Call)
    ensures
        !(world.call(call).1 is Stalled),
{
}

/// The milestone minting is turned down with `NotAtMilestone` at every value
/// of the counter that is no milestone, whatever calls came before: that a
/// milestone was reached earlier, and passed without minting, earns nothing.
pub proof fn lemma_milestone_has_to_be_current(calls: Seq<Call>, caller: Address)
    ensures
        ({
            let world = World::fresh().run(calls);
            !is_milestone(world.counters.global_counter) ==> world.call(
                Call::MintNftAtMilestone { caller },
            ) == (world, Outcome::Rejected(MintError::NotAtMilestone))
        }),
{
}

/// After `n` interactions were counted on a fresh contract, the interaction
/// counter stands at `n`, for every `n` that 256 bits can hold; beyond, at
/// `n` reduced modulo `2^256`.
pub proof fn lemma_counter_counts_increments(n: nat)
    ensures
        World::fresh().run(Seq::new(n, |i: int| Call::IncrementCounter)).counters.global_counter
            == n % modulus(),
        n < modulus() ==> World::fresh().run(
            Seq::new(n, |i: int| Call::IncrementCounter),
        ).counters.global_counter == n,
    decreases n,
{
    let calls = Seq::new(n, |i: int| Call::IncrementCounter);
    if n == 0 {
        lemma_mod_window(0, modulus() as int);
    } else {
        let before = Seq::new((n - 1) as nat, |i: int| Call::IncrementCounter);
        assert(calls.drop_last() =~= before);
        lemma_counter_counts_increments((n - 1) as nat);
        let c = (n - 1) as nat % modulus();
        assert(World::fresh().run(calls).counters.global_counter == (c + 1) % modulus());
        vstd::arithmetic::div_mod::lemma_add_mod_noop((n - 1) as int, 1, modulus() as int);
        lemma_mod_window(1, modulus() as int);
        if n < modulus() {
            lemma_mod_window(n as int, modulus() as int);
        }
    }
}

} // verus!
