use kitties::errors::Error;
use kitties::events::Event;
use kitties::inventory::MAX_OWNER_KITTIES;
use kitties::pallet::{Config, Pallet};
use kitties::randomness::random_value;

/// A registry whose ledger gives accounts 1 and 2 ample funds; account 666
/// holds nothing, so its stake can never be reserved.
fn test_pallet() -> Pallet {
    let mut p = Pallet::new(Config { stake: 100 });
    p.balances.set_balance(1, 1_000_000);
    p.balances.set_balance(2, 1_000_000);
    p
}

fn seed() -> [u8; 32] {
    [0u8; 32]
}

#[test]
fn create_test() {
    let mut p = test_pallet();
    assert!(p.create(1, &seed(), None).is_ok());
    assert_eq!(p.next_kitty_id(), Some(1));
}

#[test]
fn create_kitties_overflow() {
    let mut p = test_pallet();
    p.put_next_kitty_id(u32::MAX);
    assert_eq!(p.create(1, &seed(), None), Err(Error::KittiesOverflow));
}

#[test]
fn create_stake_not_enough() {
    let mut p = test_pallet();
    assert_eq!(p.create(666, &seed(), None), Err(Error::StakeNotEnough));
}

#[test]
fn transfer_test() {
    let mut p = test_pallet();
    let _ = p.create(1, &seed(), None);
    assert!(p.transfer(1, 0, 2).is_ok());
}

#[test]
fn transfer_not_owner() {
    let mut p = test_pallet();
    let _ = p.create(1, &seed(), None);
    assert_eq!(p.transfer(2, 0, 1), Err(Error::NotOwner));
}

#[test]
fn breed_test() {
    let mut p = test_pallet();
    let _ = p.create(1, &seed(), None);
    let _ = p.create(1, &seed(), None);
    assert!(p.breed(1, 0, 1, &seed(), None).is_ok());
    assert_eq!(p.next_kitty_id(), Some(3));
}

#[test]
fn breed_same_id() {
    let mut p = test_pallet();
    let _ = p.create(1, &seed(), None);
    assert_eq!(p.breed(1, 0, 0, &seed(), None), Err(Error::SameId));
}

#[test]
fn breed_invalid_id() {
    let mut p = test_pallet();
    let _ = p.create(1, &seed(), None);
    assert_eq!(p.breed(1, 0, 1, &seed(), None), Err(Error::InvalidId));
}

#[test]
fn breed_kitties_overflow() {
    let mut p = test_pallet();
    let _ = p.create(1, &seed(), None);
    let _ = p.create(1, &seed(), None);
    p.put_next_kitty_id(u32::MAX);
    assert_eq!(p.breed(1, 0, 1, &seed(), None), Err(Error::KittiesOverflow));
}

#[test]
fn create_allocates_sequentially_and_escrows_stake() {
    let mut p = test_pallet();
    assert!(p.create(1, &seed(), None).is_ok());
    assert_eq!(p.next_kitty_id(), Some(1));
    assert_eq!(p.kitty_owner(0), Some(1));
    assert_eq!(p.owner_kitties(1), vec![0]);
    assert_eq!(p.balances.reserved_balance(1), 100);
    assert_eq!(p.balances.free_balance(1), 999_900);
}

#[test]
fn create_overflow_changes_nothing() {
    let mut p = test_pallet();
    let _ = p.create(1, &seed(), None);
    p.put_next_kitty_id(u32::MAX);
    assert_eq!(p.create(1, &seed(), None), Err(Error::KittiesOverflow));
    assert_eq!(p.next_kitty_id(), Some(u32::MAX));
    assert_eq!(p.balances.reserved_balance(1), 100);
    assert_eq!(p.balances.free_balance(1), 999_900);
    assert_eq!(p.owner_kitties(1), vec![0]);
    assert!(p.kitties(1).is_none());
}

#[test]
fn create_stake_not_enough_creates_nothing() {
    let mut p = test_pallet();
    assert_eq!(p.create(666, &seed(), None), Err(Error::StakeNotEnough));
    assert_eq!(p.next_kitty_id(), None);
    assert!(p.kitties(0).is_none());
    assert_eq!(p.owner_kitties(666).len(), 0);
    assert_eq!(p.balances.reserved_balance(666), 0);
}

#[test]
fn breed_follows_the_combination_law() {
    let mut p = test_pallet();
    let s1: [u8; 32] = [1u8; 32];
    let s2: [u8; 32] = [2u8; 32];
    let s3: [u8; 32] = [3u8; 32];
    assert!(p.create(1, &s1, None).is_ok());
    assert!(p.create(1, &s2, None).is_ok());
    assert!(p.breed(1, 0, 1, &s3, Some(5)).is_ok());
    let g0 = p.kitties(0).unwrap().0;
    let g1 = p.kitties(1).unwrap().0;
    let child = p.kitties(2).unwrap().0;
    let sel = random_value(&s3, 1, Some(5));
    for i in 0..16usize {
        assert_eq!(child[i], (g0[i] & sel[i]) | (g1[i] & !sel[i]));
    }
}

#[test]
fn genome_depends_on_seed_and_caller() {
    let mut p = test_pallet();
    let s1: [u8; 32] = [9u8; 32];
    let s2: [u8; 32] = [10u8; 32];
    assert!(p.create(1, &s1, None).is_ok());
    assert!(p.create(1, &s2, None).is_ok());
    assert!(p.create(2, &s1, None).is_ok());
    let g0 = p.kitties(0).unwrap().0;
    let g1 = p.kitties(1).unwrap().0;
    let g2 = p.kitties(2).unwrap().0;
    // the genome is a digest of the payload, not the seed handed through
    assert_ne!(g0, [9u8; 16]);
    // a different seed or a different caller gives a different genome
    assert_ne!(g0, g1);
    assert_ne!(g0, g2);
    // the same inputs derive the same genome on a fresh replica
    let mut q = test_pallet();
    assert!(q.create(1, &s1, None).is_ok());
    assert_eq!(q.kitties(0).unwrap().0, g0);
}

#[test]
fn transfer_moves_ownership_inventory_and_stake() {
    let mut p = test_pallet();
    let _ = p.create(1, &seed(), None);
    assert!(p.transfer(1, 0, 2).is_ok());
    assert_eq!(p.kitty_owner(0), Some(2));
    assert!(!p.owner_kitties(1).contains(&0));
    assert!(p.owner_kitties(2).contains(&0));
    assert_eq!(p.balances.reserved_balance(1), 0);
    assert_eq!(p.balances.free_balance(1), 1_000_000);
    assert_eq!(p.balances.reserved_balance(2), 100);
    assert_eq!(p.balances.free_balance(2), 999_900);
}

#[test]
fn transfer_not_owner_changes_nothing() {
    let mut p = test_pallet();
    let _ = p.create(1, &seed(), None);
    assert_eq!(p.transfer(2, 0, 1), Err(Error::NotOwner));
    assert_eq!(p.kitty_owner(0), Some(1));
    assert_eq!(p.owner_kitties(1), vec![0]);
    assert_eq!(p.owner_kitties(2).len(), 0);
    assert_eq!(p.balances.reserved_balance(1), 100);
    assert_eq!(p.balances.reserved_balance(2), 0);
}

#[test]
fn transfer_invalid_id() {
    let mut p = test_pallet();
    assert_eq!(p.transfer(1, 0, 2), Err(Error::InvalidId));
}

#[test]
fn transfer_stake_not_enough() {
    let mut p = test_pallet();
    let _ = p.create(1, &seed(), None);
    assert_eq!(p.transfer(1, 0, 666), Err(Error::StakeNotEnough));
    assert_eq!(p.kitty_owner(0), Some(1));
    assert_eq!(p.owner_kitties(1), vec![0]);
    assert_eq!(p.balances.reserved_balance(1), 100);
}

#[test]
fn full_scenario() {
    let mut p = test_pallet();
    assert!(p.create(1, &seed(), None).is_ok());
    assert_eq!(p.next_kitty_id(), Some(1));
    assert_eq!(p.kitty_owner(0), Some(1));
    assert!(p.create(1, &seed(), None).is_ok());
    assert_eq!(p.next_kitty_id(), Some(2));
    assert!(p.breed(1, 0, 1, &seed(), None).is_ok());
    assert_eq!(p.next_kitty_id(), Some(3));
    assert_eq!(p.kitty_owner(2), Some(1));
    // the offspring follows the combination law for the derived selector
    let g0 = p.kitties(0).unwrap().0;
    let g1 = p.kitties(1).unwrap().0;
    let child = p.kitties(2).unwrap().0;
    let sel = random_value(&seed(), 1, None);
    for i in 0..16usize {
        assert_eq!(child[i], (g0[i] & sel[i]) | (g1[i] & !sel[i]));
    }
    assert!(p.transfer(1, 0, 2).is_ok());
    assert_eq!(p.kitty_owner(0), Some(2));
    assert!(!p.owner_kitties(1).contains(&0));
    assert!(p.owner_kitties(2).contains(&0));
    // every step was announced, in order
    assert_eq!(p.events().len(), 4);
    match p.events()[3] {
        Event::KittyTransferred(from, to, id) => {
            assert_eq!((from, to, id), (1, 2, 0));
        },
        _ => panic!("expected a transfer event"),
    }
}

#[test]
fn inventory_capacity_is_enforced() {
    let mut p = test_pallet();
    for _ in 0..MAX_OWNER_KITTIES {
        assert!(p.create(1, &seed(), None).is_ok());
    }
    assert_eq!(p.owner_kitties(1).len(), MAX_OWNER_KITTIES);
    assert_eq!(p.create(1, &seed(), None), Err(Error::ExceedMaxOwnerKitties));
    assert_eq!(p.breed(1, 0, 1, &seed(), None), Err(Error::ExceedMaxOwnerKitties));
    // an incoming transfer is refused too, and every holding stays put
    assert!(p.create(2, &seed(), None).is_ok());
    let id: u32 = 256;
    assert_eq!(p.transfer(2, id, 1), Err(Error::ExceedMaxOwnerKitties));
    assert_eq!(p.owner_kitties(1).len(), MAX_OWNER_KITTIES);
    assert_eq!(p.kitty_owner(id), Some(2));
    assert!(p.owner_kitties(2).contains(&id));
    // a transfer to oneself frees its own slot first, so it still has room
    assert!(p.transfer(1, 0, 1).is_ok());
    assert_eq!(p.owner_kitties(1).len(), MAX_OWNER_KITTIES);
    assert_eq!(p.kitty_owner(0), Some(1));
}
