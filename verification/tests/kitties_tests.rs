use kitties::{combine_dna, random_value, Error, Event, KittyModule};

fn seed() -> [u8; 32] {
    [7u8; 32]
}

#[test]
fn kitty_create_works() {
    let mut reg = KittyModule::new();
    assert!(reg.create(1, &seed(), 10).is_ok());
    assert_eq!(reg.events()[0], Event::Create(1u64, 0));
    assert_eq!(reg.kitties_count(), 1);
    assert_eq!(reg.kitties_owners(0), Some(1u64));
    assert!(reg.owner_kitties(1u64, 0));
}

#[test]
fn kitty_transfer_works() {
    let mut reg = KittyModule::new();
    reg.create(1, &seed(), 10).unwrap();
    assert!(reg.transfer(1, 2, 0).is_ok());
    assert_eq!(reg.events()[1], Event::Transfer(1u64, 2u64, 0));
    assert_eq!(reg.kitties_owners(0), Some(2u64));
    // origin owner have removed kitty
    assert!(!reg.owner_kitties(1u64, 0));
    // new owner have kitty.
    assert!(reg.owner_kitties(2u64, 0));
}

#[test]
fn kitty_transfer_invalid_id() {
    let mut reg = KittyModule::new();
    reg.create(1, &seed(), 10).unwrap();
    assert_eq!(reg.transfer(1, 2, 1), Err(Error::InvalidKittyId));
    // nothing changed
    assert_eq!(reg.kitties_owners(0), Some(1u64));
    assert_eq!(reg.events().len(), 1);
}

#[test]
fn kitty_transfer_not_own() {
    let mut reg = KittyModule::new();
    reg.create(1, &seed(), 10).unwrap();
    assert_eq!(reg.transfer(3, 2, 0), Err(Error::KittyNotOwn));
    assert_eq!(reg.kitties_owners(0), Some(1u64));
    assert_eq!(reg.events().len(), 1);
}

#[test]
fn kitty_breed_works() {
    let mut reg = KittyModule::new();
    reg.create(1, &seed(), 10).unwrap();
    reg.create(1, &seed(), 11).unwrap();
    assert_eq!(reg.breed(1, 0, 1, &seed(), 12), Ok(2));
    assert_eq!(reg.events()[2], Event::Breed(1u64, 2, 0, 1));
    assert_eq!(reg.kitties_count(), 3);
    // new breed kitty owner
    assert_eq!(reg.kitties_owners(2), Some(1u64));
    assert!(reg.owner_kitties(1u64, 2));
    assert_eq!(reg.kitties_parents(2), Some((0, 1)));
    assert!(reg.kitties_children(0, 2));
    assert!(reg.kitties_children(1, 2));
    assert!(reg.kitties_breed(0, 1));
    assert!(reg.kitties_breed(1, 0));
}

#[test]
fn kitty_breed_different_parent() {
    let mut reg = KittyModule::new();
    reg.create(1, &seed(), 10).unwrap();
    reg.create(1, &seed(), 11).unwrap();
    assert_eq!(reg.breed(3, 1, 1, &seed(), 12), Err(Error::RequireDifferentParent));
    assert_eq!(reg.kitties_count(), 2);
    assert_eq!(reg.events().len(), 2);
}

#[test]
fn create_ids_are_sequential() {
    let mut reg = KittyModule::new();
    assert_eq!(reg.create(1, &seed(), 10), Ok(0));
    assert_eq!(reg.create(2, &seed(), 11), Ok(1));
    assert_eq!(reg.create(1, &seed(), 12), Ok(2));
    assert_eq!(reg.kitties_count(), 3);
    assert_eq!(reg.kitties_owners(0), Some(1u64));
    assert_eq!(reg.kitties_owners(1), Some(2u64));
    assert_eq!(reg.kitties_owners(2), Some(1u64));
}

#[test]
fn created_kitty_has_single_owner_entry() {
    let mut reg = KittyModule::new();
    reg.create(1, &seed(), 10).unwrap();
    assert!(reg.owner_kitties(1u64, 0));
    for other in [0u64, 2, 3, 99] {
        assert!(!reg.owner_kitties(other, 0));
    }
    assert_eq!(reg.kitties_parents(0), None);
}

#[test]
fn transfer_to_self_keeps_entries() {
    let mut reg = KittyModule::new();
    reg.create(1, &seed(), 10).unwrap();
    assert!(reg.transfer(1, 1, 0).is_ok());
    assert_eq!(reg.kitties_owners(0), Some(1u64));
    assert!(reg.owner_kitties(1u64, 0));
    for other in [0u64, 2, 3] {
        assert!(!reg.owner_kitties(other, 0));
    }
    assert_eq!(reg.events()[1], Event::Transfer(1u64, 1u64, 0));
}

#[test]
fn repeated_transfer_fails_not_own() {
    let mut reg = KittyModule::new();
    reg.create(1, &seed(), 10).unwrap();
    assert!(reg.transfer(1, 2, 0).is_ok());
    assert_eq!(reg.transfer(1, 3, 0), Err(Error::KittyNotOwn));
    assert_eq!(reg.kitties_owners(0), Some(2u64));
}

#[test]
fn breed_invalid_ids() {
    let mut reg = KittyModule::new();
    reg.create(1, &seed(), 10).unwrap();
    // the second parent does not exist
    assert_eq!(reg.breed(1, 0, 1, &seed(), 11), Err(Error::InvalidKittyId));
    // neither parent exists, even as an equal pair
    assert_eq!(reg.breed(1, 7, 7, &seed(), 12), Err(Error::InvalidKittyId));
    assert_eq!(reg.kitties_count(), 1);
    assert_eq!(reg.events().len(), 1);
}

#[test]
fn breed_selector_all_ones_copies_first_parent() {
    let mut reg = KittyModule::new();
    reg.create(1, &seed(), 10).unwrap();
    reg.create(1, &seed(), 11).unwrap();
    let dna0 = reg.kitties(0).unwrap().0;
    let dna1 = reg.kitties(1).unwrap().0;
    assert_ne!(dna0, dna1);
    assert_eq!(reg.do_breed(1, 0, 1, &[0xffu8; 16]), Ok(2));
    assert_eq!(reg.kitties(2).unwrap().0, dna0);
}

#[test]
fn breed_selector_all_zeroes_copies_second_parent() {
    let mut reg = KittyModule::new();
    reg.create(1, &seed(), 10).unwrap();
    reg.create(1, &seed(), 11).unwrap();
    let dna1 = reg.kitties(1).unwrap().0;
    assert_eq!(reg.do_breed(1, 0, 1, &[0x00u8; 16]), Ok(2));
    assert_eq!(reg.kitties(2).unwrap().0, dna1);
}

#[test]
fn breed_child_dna_follows_selector_rule() {
    let mut reg = KittyModule::new();
    reg.create(1, &seed(), 10).unwrap();
    reg.create(1, &seed(), 11).unwrap();
    let dna0 = reg.kitties(0).unwrap().0;
    let dna1 = reg.kitties(1).unwrap().0;
    let sel: [u8; 16] = [
        0x00, 0xff, 0x0f, 0xf0, 0xaa, 0x55, 0x01, 0x80, 0x33, 0xcc, 0x77, 0x88, 0x99, 0x66,
        0x12, 0xed,
    ];
    assert_eq!(reg.do_breed(1, 0, 1, &sel), Ok(2));
    let child = reg.kitties(2).unwrap().0;
    for i in 0..16 {
        assert_eq!(child[i], (sel[i] & dna0[i]) | (!sel[i] & dna1[i]));
        // each bit comes from the first parent where the selector bit is
        // set, and from the second parent where it is clear
        assert_eq!(child[i] & sel[i], dna0[i] & sel[i]);
        assert_eq!(child[i] & !sel[i], dna1[i] & !sel[i]);
    }
}

#[test]
fn breed_pairs_recorded_symmetrically() {
    let mut reg = KittyModule::new();
    for n in 0..4u64 {
        reg.create(1, &seed(), 10 + n).unwrap();
    }
    reg.breed(1, 0, 1, &seed(), 20).unwrap();
    reg.breed(2, 2, 3, &seed(), 21).unwrap();
    for (a, b) in [(0u32, 1u32), (2, 3)] {
        assert_eq!(reg.kitties_breed(a, b), reg.kitties_breed(b, a));
        assert!(reg.kitties_breed(a, b));
    }
    for (a, b) in [(0u32, 2u32), (1, 3), (0, 3)] {
        assert_eq!(reg.kitties_breed(a, b), reg.kitties_breed(b, a));
        assert!(!reg.kitties_breed(a, b));
    }
}

#[test]
fn breeder_owns_child_regardless_of_parent_owners() {
    let mut reg = KittyModule::new();
    reg.create(1, &seed(), 10).unwrap();
    reg.create(2, &seed(), 11).unwrap();
    // caller 3 owns neither parent
    assert_eq!(reg.breed(3, 0, 1, &seed(), 12), Ok(2));
    assert_eq!(reg.kitties_owners(2), Some(3u64));
    assert!(reg.owner_kitties(3u64, 2));
}

#[test]
fn combine_dna_exact_bytes() {
    assert_eq!(combine_dna(0xab, 0xcd, 0xf0), 0xad);
    assert_eq!(combine_dna(0x12, 0x34, 0xff), 0x12);
    assert_eq!(combine_dna(0x12, 0x34, 0x00), 0x34);
    assert_eq!(combine_dna(0b1100, 0b1010, 0b0110), 0b1100);
}

#[test]
fn random_value_matches_host_digest() {
    let s = seed();
    let sender: u64 = 1;
    let nonce: u64 = 10;
    let mut payload = Vec::new();
    payload.extend_from_slice(&s);
    payload.extend_from_slice(&sender.to_le_bytes());
    payload.extend_from_slice(&nonce.to_le_bytes());
    let expected = sp_io::hashing::blake2_128(&payload);
    assert_eq!(random_value(&s, sender, nonce), expected);
    // not a truncation of the payload, and it responds to the seed material
    assert_ne!(random_value(&s, sender, nonce)[..], s[..16]);
    assert_ne!(random_value(&s, sender, nonce), random_value(&s, sender, 11));
    assert_ne!(random_value(&s, sender, nonce), random_value(&s, 2, nonce));
}

#[test]
fn create_derives_dna_from_seed_material() {
    let mut reg = KittyModule::new();
    reg.create(1, &seed(), 10).unwrap();
    assert_eq!(reg.kitties(0).unwrap().0, random_value(&seed(), 1, 10));
}

#[test]
fn events_are_recorded_in_order() {
    let mut reg = KittyModule::new();
    reg.create(1, &seed(), 10).unwrap();
    reg.create(2, &seed(), 11).unwrap();
    reg.breed(2, 0, 1, &seed(), 12).unwrap();
    reg.transfer(2, 1, 2).unwrap();
    let events = reg.events();
    assert_eq!(events.len(), 4);
    assert_eq!(events[0], Event::Create(1u64, 0));
    assert_eq!(events[1], Event::Create(2u64, 1));
    assert_eq!(events[2], Event::Breed(2u64, 2, 0, 1));
    assert_eq!(events[3], Event::Transfer(2u64, 1u64, 2));
}
