use rusttorney::client::{Client, SPECTATOR_CHARACTER, UNCHOSEN_CHARACTER};
use rusttorney::client_manager::ClientManager;
use rusttorney::error::Error;

#[test]
fn new_client_record_is_fresh() {
    let client = Client::new(3, 77);
    assert_eq!(client.id(), 3);
    assert_eq!(client.ipid(), 77);
    assert_eq!(client.hdid(), "");
    assert_eq!(client.char_id(), UNCHOSEN_CHARACTER);
    assert!(client.is_player());
    let default = Client::default();
    assert_eq!(default.id(), 0);
    assert_eq!(default.ipid(), 0);
}

#[test]
fn clients_are_equal_by_identity() {
    let mut a = Client::new(1, 9);
    let b = Client::new(2, 9);
    let c = Client::new(1, 10);
    a.set_hdid("hdid".to_string());
    assert!(a == b);
    assert!(a != c);
    let copy = a.clone();
    assert_eq!(copy.hdid(), "hdid");
    assert_eq!(copy.id(), 1);
}

#[test]
fn slots_are_given_from_the_greatest_down() {
    let mut manager = ClientManager::new(3);
    assert_eq!(manager.player_limit(), 3);
    assert_eq!(manager.free_slots(), 3);
    assert_eq!(manager.new_client(100).unwrap().id(), 2);
    assert_eq!(manager.new_client(101).unwrap().id(), 1);
    assert_eq!(manager.new_client(102).unwrap().id(), 0);
    assert!(manager.is_full());
    assert!(matches!(manager.new_client(103), Err(Error::ServerFull)));
    assert_eq!(manager.free_slots(), 0);
    assert!(manager.get(103).is_none());
    assert_eq!(manager.player_count(), 3);
}

#[test]
fn full_server_leaves_the_registry_unchanged() {
    let mut manager = ClientManager::new(0);
    assert!(manager.is_full());
    assert!(matches!(manager.new_client(1), Err(Error::ServerFull)));
    assert_eq!(manager.free_slots(), 0);
    assert_eq!(manager.player_count(), 0);
    assert!(manager.get(1).is_none());
}

#[test]
fn admit_update_query() {
    let mut manager = ClientManager::new(10);
    let mut session = manager.new_client(42).unwrap();
    assert_eq!(session.id(), 9);
    assert_eq!(session.ipid(), 42);
    assert_eq!(manager.get(42).unwrap().hdid(), "");
    session.set_hdid("hdid".to_string());
    session.set_char_id(5);
    manager.update_client(session.clone());
    let held = manager.get(42).unwrap();
    assert_eq!(held.hdid(), "hdid");
    assert_eq!(held.char_id(), 5);
    assert_eq!(held.id(), 9);
    assert!(manager.get(43).is_none());
    manager.release_client(&session);
    assert!(manager.get(42).is_none());
    assert_eq!(manager.free_slots(), 10);
    assert_eq!(manager.new_client(43).unwrap().id(), 9);
}

#[test]
fn update_of_an_unknown_identity_adds_it() {
    let mut manager = ClientManager::new(4);
    manager.update_client(Client::new(200, 5));
    assert_eq!(manager.get(5).unwrap().id(), 200);
    assert_eq!(manager.free_slots(), 4);
    assert_eq!(manager.player_count(), 1);
}

#[test]
fn identity_is_the_low_32_bits() {
    let mut manager = ClientManager::new(4);
    assert_eq!(manager.new_client(0x1_0000_0007).unwrap().ipid(), 7);
    assert_eq!(manager.new_client(-1).unwrap().ipid(), u32::MAX);
    assert!(manager.get(7).is_some());
    assert!(manager.get(u32::MAX).is_some());
}

#[test]
fn second_admission_of_an_identity_replaces_its_record() {
    let mut manager = ClientManager::new(4);
    let mut first = manager.new_client(8).unwrap();
    assert_eq!(first.id(), 3);
    first.set_hdid("one".to_string());
    manager.update_client(first.clone());
    let second = manager.new_client(8).unwrap();
    assert_eq!(second.id(), 2);
    // the fresh record stands for the identity, and the slot of the old one is free again
    assert_eq!(manager.get(8).unwrap().id(), 2);
    assert_eq!(manager.get(8).unwrap().hdid(), "");
    assert_eq!(manager.free_slots(), 3);
    assert_eq!(manager.player_count(), 1);
    // the first session leaves: it holds nothing any more
    manager.release_client(&first);
    assert_eq!(manager.get(8).unwrap().id(), 2);
    assert_eq!(manager.free_slots(), 3);
    manager.release_client(&second);
    assert!(manager.get(8).is_none());
    assert_eq!(manager.free_slots(), 4);
    assert_eq!(manager.new_client(9).unwrap().id(), 3);
}

#[test]
fn every_slot_is_free_or_held_after_any_admissions() {
    let mut manager = ClientManager::new(3);
    for round in 0..20i64 {
        let identity = round % 2;
        match manager.new_client(identity) {
            Ok(client) => assert!(client.id() < 3),
            Err(e) => panic!("unexpected: {:?}", e),
        }
        let held = [0i64, 1].iter().filter(|i| manager.get(**i as u32).is_some()).count();
        assert_eq!(held + manager.free_slots(), 3);
    }
}

#[test]
fn release_is_harmless_when_repeated() {
    let mut manager = ClientManager::new(2);
    let client = manager.new_client(1).unwrap();
    manager.release_client(&client);
    manager.release_client(&client);
    assert_eq!(manager.free_slots(), 2);
    // a record that holds no slot of this registry frees nothing
    manager.release_client(&Client::new(2, 99));
    manager.release_client(&Client::new(255, 99));
    assert_eq!(manager.free_slots(), 2);
    assert_eq!(manager.new_client(3).unwrap().id(), 1);
    assert_eq!(manager.new_client(4).unwrap().id(), 0);
}

#[test]
fn released_slots_are_given_again_greatest_first() {
    let mut manager = ClientManager::new(5);
    let clients: Vec<Client> = (0..5).map(|i| manager.new_client(i).unwrap()).collect();
    assert!(manager.is_full());
    manager.release_client(&clients[3]); // slot 1
    manager.release_client(&clients[0]); // slot 4
    manager.release_client(&clients[2]); // slot 2
    assert_eq!(manager.free_slots(), 3);
    assert_eq!(manager.new_client(10).unwrap().id(), 4);
    assert_eq!(manager.new_client(11).unwrap().id(), 2);
    assert_eq!(manager.new_client(12).unwrap().id(), 1);
    assert!(manager.is_full());
}

#[test]
fn spectators_are_no_players() {
    let mut manager = ClientManager::new(5);
    let mut a = manager.new_client(1).unwrap();
    let mut b = manager.new_client(2).unwrap();
    let _c = manager.new_client(3).unwrap();
    assert_eq!(manager.player_count(), 3);
    a.set_char_id(SPECTATOR_CHARACTER);
    assert!(!a.is_player());
    manager.update_client(a.clone());
    assert_eq!(manager.player_count(), 2);
    b.set_char_id(7);
    manager.update_client(b);
    assert_eq!(manager.player_count(), 2);
    manager.release_client(&a);
    assert_eq!(manager.player_count(), 2);
}

#[test]
fn population_stays_within_the_limit() {
    let mut manager = ClientManager::new(255);
    let mut admitted = Vec::new();
    for ipid in 0..300 {
        match manager.new_client(ipid) {
            Ok(client) => admitted.push(client),
            Err(e) => assert!(matches!(e, Error::ServerFull)),
        }
        assert_eq!(admitted.len() + manager.free_slots(), 255);
    }
    assert_eq!(admitted.len(), 255);
    for client in &admitted {
        manager.release_client(client);
    }
    assert_eq!(manager.free_slots(), 255);
    assert_eq!(manager.player_count(), 0);
}
