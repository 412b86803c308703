use std::collections::HashMap;

use top_signals_browser::address::Address;
use top_signals_browser::ledger::{MintError, MintEvent, MintStep, TopSignalsBrowserContract};
use top_signals_browser::uint256::Uint256;

fn n(value: u64) -> Uint256 {
    Uint256::from_u64(value)
}

/// A stand-in for the token registry: it answers as the ledger expects a
/// registry to answer.
struct Registry {
    owners: HashMap<[u64; 4], Address>,
    balances: HashMap<[u8; 20], u64>,
}

#[derive(Debug, PartialEq)]
enum CallError {
    Ledger(MintError),
    Registry,
}

impl Registry {
    fn new() -> Registry {
        Registry { owners: HashMap::new(), balances: HashMap::new() }
    }

    fn balance_of(&self, owner: Address) -> Result<Uint256, CallError> {
        if owner.bytes == [0; 20] {
            return Err(CallError::Registry);
        }
        Ok(n(*self.balances.get(&owner.bytes).unwrap_or(&0)))
    }

    fn owner_of(&self, token_id: Uint256) -> Option<Address> {
        self.owners.get(&token_id.limbs).copied()
    }

    fn mint(&mut self, to: Address, token_id: Uint256) -> Result<(), CallError> {
        if to.bytes == [0; 20] || self.owners.contains_key(&token_id.limbs) {
            return Err(CallError::Registry);
        }
        self.owners.insert(token_id.limbs, to);
        *self.balances.entry(to.bytes).or_insert(0) += 1;
        Ok(())
    }
}

#[derive(Clone, Copy)]
enum Path {
    Milestone,
    Scout,
}

/// Runs one minting call to its end: asks the registry what the ledger says
/// to ask, and undoes the ledger's change where the call fails.
fn mint(
    ledger: &mut TopSignalsBrowserContract,
    registry: &mut Registry,
    path: Path,
    caller: Address,
) -> Result<Uint256, CallError> {
    let saved = *ledger;
    let mut event = MintEvent::Requested;
    loop {
        let step = match path {
            Path::Milestone => ledger.mint_nft_at_milestone(caller, event),
            Path::Scout => ledger.mint_signal_scout_nft(caller, event),
        };
        match step {
            Err(e) => {
                *ledger = saved;
                return Err(CallError::Ledger(e));
            }
            Ok(MintStep::ReadBalance { owner }) => match registry.balance_of(owner) {
                Ok(balance) => event = MintEvent::BalanceRead(balance),
                Err(e) => {
                    *ledger = saved;
                    return Err(e);
                }
            },
            Ok(MintStep::Mint { to, token_id }) => {
                return match registry.mint(to, token_id) {
                    Ok(()) => Ok(token_id),
                    Err(e) => {
                        *ledger = saved;
                        Err(e)
                    }
                };
            }
        }
    }
}

fn address_from_hex(hex: &str) -> Address {
    let mut bytes = [0u8; 20];
    for (i, byte) in bytes.iter_mut().enumerate() {
        *byte = u8::from_str_radix(&hex[2 * i..2 * i + 2], 16).unwrap();
    }
    Address::from_bytes(bytes)
}

#[test]
fn test_researcher_nft_minting() {
    let mut ledger = TopSignalsBrowserContract::new();
    let mut registry = Registry::new();
    let test_address = address_from_hex("1234567891234567891234567891234567891234");
    let token_id = n(1);
    let minted = mint(&mut ledger, &mut registry, Path::Scout, test_address);
    assert_eq!(minted, Ok(token_id));
    let owner = registry.owner_of(token_id).unwrap();
    assert_eq!(owner, test_address);
}

#[test]
fn ten_increments_reach_the_first_milestone() {
    let mut ledger = TopSignalsBrowserContract::new();
    let mut registry = Registry::new();
    let caller = Address::from_bytes([0xaa; 20]);
    for _ in 0..10 {
        assert_eq!(ledger.increment_counter(), Ok(()));
    }
    assert_eq!(ledger.is_counter_multiple_of_ten(), Ok(true));
    assert_eq!(ledger.get_next_counter_milestone(), Ok(n(10)));
    assert_eq!(registry.balance_of(caller), Ok(n(0)));
    assert_eq!(mint(&mut ledger, &mut registry, Path::Milestone, caller), Ok(n(1)));
    assert_eq!(registry.owner_of(n(1)), Some(caller));
    assert_eq!(registry.balance_of(caller), Ok(n(1)));
    assert_eq!(
        mint(&mut ledger, &mut registry, Path::Milestone, caller),
        Err(CallError::Ledger(MintError::AlreadyHolds))
    );
    assert_eq!(ledger.researcher_supply, n(1));
    assert_eq!(registry.balance_of(caller), Ok(n(1)));
}

#[test]
fn scout_holder_is_refused_at_a_milestone() {
    let mut ledger = TopSignalsBrowserContract::new();
    let mut registry = Registry::new();
    let a = Address::from_bytes([0x0a; 20]);
    assert_eq!(mint(&mut ledger, &mut registry, Path::Scout, a), Ok(n(1)));
    for _ in 0..10 {
        assert_eq!(ledger.increment_counter(), Ok(()));
    }
    assert_eq!(ledger.is_counter_multiple_of_ten(), Ok(true));
    assert_eq!(
        mint(&mut ledger, &mut registry, Path::Milestone, a),
        Err(CallError::Ledger(MintError::AlreadyHolds))
    );
    assert_eq!(registry.balance_of(a), Ok(n(1)));
    assert_eq!(ledger.researcher_supply, n(1));
}

#[test]
fn milestone_holder_is_refused_by_the_scout_path() {
    let mut ledger = TopSignalsBrowserContract::new();
    let mut registry = Registry::new();
    let a = Address::from_bytes([0x0b; 20]);
    for _ in 0..20 {
        assert_eq!(ledger.increment_counter(), Ok(()));
    }
    assert_eq!(mint(&mut ledger, &mut registry, Path::Milestone, a), Ok(n(1)));
    assert_eq!(
        mint(&mut ledger, &mut registry, Path::Scout, a),
        Err(CallError::Ledger(MintError::AlreadyHolds))
    );
    assert_eq!(registry.balance_of(a), Ok(n(1)));
}

#[test]
fn subscription_counter_scenario() {
    let mut ledger = TopSignalsBrowserContract::new();
    for _ in 0..3 {
        assert_eq!(ledger.increment_counter(), Ok(()));
    }
    assert_eq!(ledger.get_subscription_counter(), Ok(n(0)));
    let before = ledger.get_counter().unwrap();
    assert_eq!(before, n(3));
    assert_eq!(ledger.subscribe_to_token(n(77), String::from("DEGEN"), n(1000)), Ok(n(1)));
    assert_eq!(ledger.get_subscription_counter(), Ok(n(1)));
    assert_eq!(ledger.get_counter(), Ok(n(4)));
}

#[test]
fn a_passed_milestone_earns_nothing() {
    let mut ledger = TopSignalsBrowserContract::new();
    let mut registry = Registry::new();
    let caller = Address::from_bytes([0xcc; 20]);
    for _ in 0..11 {
        assert_eq!(ledger.increment_counter(), Ok(()));
    }
    assert_eq!(
        mint(&mut ledger, &mut registry, Path::Milestone, caller),
        Err(CallError::Ledger(MintError::NotAtMilestone))
    );
    assert_eq!(registry.balance_of(caller), Ok(n(0)));
    assert_eq!(ledger.researcher_supply, n(0));
}

#[test]
fn subscriptions_move_the_counter_to_a_milestone() {
    let mut ledger = TopSignalsBrowserContract::new();
    let mut registry = Registry::new();
    let caller = Address::from_bytes([0xdd; 20]);
    for i in 1..=10u64 {
        assert_eq!(ledger.subscribe_to_token(n(i), String::from("OP"), n(i)), Ok(n(i)));
    }
    assert_eq!(ledger.is_counter_multiple_of_ten(), Ok(true));
    assert_eq!(mint(&mut ledger, &mut registry, Path::Milestone, caller), Ok(n(1)));
    assert_eq!(ledger.get_counter(), Ok(n(10)));
}

#[test]
fn no_account_ever_holds_two_tokens() {
    let mut ledger = TopSignalsBrowserContract::new();
    let mut registry = Registry::new();
    let accounts: Vec<Address> = (1..=5u8).map(|i| Address::from_bytes([i; 20])).collect();
    let mut issued = 0u64;
    for round in 0..40u64 {
        assert_eq!(ledger.increment_counter(), Ok(()));
        for (i, account) in accounts.iter().enumerate() {
            let path = if (round + i as u64) % 2 == 0 { Path::Milestone } else { Path::Scout };
            if let Ok(id) = mint(&mut ledger, &mut registry, path, *account) {
                issued += 1;
                assert_eq!(id, n(issued));
                assert_eq!(registry.owner_of(id), Some(*account));
            }
            assert!(registry.balance_of(*account).unwrap().limbs[0] <= 1);
        }
    }
    assert_eq!(issued, 5);
    assert_eq!(ledger.researcher_supply, n(5));
    for id in 1..=5u64 {
        assert!(registry.owner_of(n(id)).is_some());
    }
    assert!(registry.owner_of(n(0)).is_none());
    assert!(registry.owner_of(n(6)).is_none());
}

#[test]
fn the_zero_address_gets_nothing() {
    let mut ledger = TopSignalsBrowserContract::new();
    let mut registry = Registry::new();
    let zero = Address::from_bytes([0; 20]);
    assert_eq!(mint(&mut ledger, &mut registry, Path::Scout, zero), Err(CallError::Registry));
    assert_eq!(ledger, TopSignalsBrowserContract::new());
}
