//! Room and guest CRUD, the inventory count and the preference-based
//! recommendation query.

use hotel_management_backend::Error;
use hotel_management_backend::GuestPayload;
use hotel_management_backend::Hotel;
use hotel_management_backend::RoomPayload;

fn room_payload(number: &str, room_type: &str, availability: bool) -> RoomPayload {
    RoomPayload {
        room_number: number.to_string(),
        room_type: room_type.to_string(),
        availability,
    }
}

fn guest_payload(name: &str, email: &str, preferred: &str) -> GuestPayload {
    GuestPayload {
        name: name.to_string(),
        email: email.to_string(),
        preferred_room_type: preferred.to_string(),
    }
}

#[test]
fn created_room_is_stored_as_returned() {
    let mut h = Hotel::new();
    let room = h.create_room(room_payload("101", "Deluxe", true), 77).unwrap();
    assert_eq!(room.room_number, "101");
    assert_eq!(room.room_type, "Deluxe");
    assert!(room.availability);
    assert_eq!(room.created_at, 77);
    assert_eq!(room.updated_at, None);
    assert_eq!(h.get_room(room.id).unwrap(), room);
}

#[test]
fn get_room_unknown_id_is_not_found() {
    let h = Hotel::new();
    assert!(matches!(h.get_room(3), Err(Error::NotFound { .. })));
}

#[test]
fn update_room_replaces_fields_and_stamps_updated_at() {
    let mut h = Hotel::new();
    let room = h.create_room(room_payload("101", "Standard", true), 10).unwrap();
    let updated = h.update_room(room.id, room_payload("102", "Deluxe", false), 20).unwrap();
    assert_eq!(updated.id, room.id);
    assert_eq!(updated.room_number, "102");
    assert_eq!(updated.room_type, "Deluxe");
    assert!(!updated.availability);
    assert_eq!(updated.created_at, 10);
    assert_eq!(updated.updated_at, Some(20));
    assert_eq!(h.get_room(room.id).unwrap(), updated);
}

#[test]
fn update_room_unknown_id_is_not_found() {
    let mut h = Hotel::new();
    let r = h.update_room(5, room_payload("101", "Standard", true), 20);
    assert!(matches!(r, Err(Error::NotFound { .. })));
}

#[test]
fn delete_room_returns_record_and_forgets_it() {
    let mut h = Hotel::new();
    let room = h.create_room(room_payload("101", "Standard", true), 10).unwrap();
    let removed = h.delete_room(room.id).unwrap();
    assert_eq!(removed, room);
    assert!(matches!(h.get_room(room.id), Err(Error::NotFound { .. })));
    assert!(matches!(h.delete_room(room.id), Err(Error::NotFound { .. })));
}

#[test]
fn update_room_availability_flips_only_the_flag() {
    let mut h = Hotel::new();
    let room = h.create_room(room_payload("101", "Standard", true), 10).unwrap();
    h.update_room_availability(room.id, false).unwrap();
    let stored = h.get_room(room.id).unwrap();
    assert!(!stored.availability);
    assert_eq!(stored.room_number, room.room_number);
    assert_eq!(stored.room_type, room.room_type);
    assert_eq!(stored.created_at, room.created_at);
    assert!(matches!(
        h.update_room_availability(99, true),
        Err(Error::NotFound { .. })
    ));
}

#[test]
fn available_rooms_count_counts_type_and_flag() {
    let mut h = Hotel::new();
    h.create_room(room_payload("1", "Standard", true), 1).unwrap();
    h.create_room(room_payload("2", "Standard", false), 1).unwrap();
    h.create_room(room_payload("3", "Deluxe", true), 1).unwrap();
    h.create_room(room_payload("4", "Standard", true), 1).unwrap();
    assert_eq!(h.available_rooms_count("Standard"), 2);
    assert_eq!(h.available_rooms_count("Deluxe"), 1);
    assert_eq!(h.available_rooms_count("Suite"), 0);
}

#[test]
fn created_guest_is_stored_as_returned() {
    let mut h = Hotel::new();
    let guest = h.create_guest(guest_payload("Ada", "ada@example.com", "Deluxe"), 9).unwrap();
    assert_eq!(guest.name, "Ada");
    assert_eq!(guest.email, "ada@example.com");
    assert_eq!(guest.preferred_room_type, "Deluxe");
    assert_eq!(guest.created_at, 9);
    assert_eq!(h.get_guest(guest.id).unwrap(), guest);
}

#[test]
fn get_guest_unknown_id_is_not_found() {
    let h = Hotel::new();
    assert!(matches!(h.get_guest(0), Err(Error::NotFound { .. })));
}

#[test]
fn update_guest_changes_name_and_email_only() {
    let mut h = Hotel::new();
    let guest = h.create_guest(guest_payload("Ada", "ada@example.com", "Deluxe"), 9).unwrap();
    let updated = h
        .update_guest(guest.id, guest_payload("Grace", "grace@example.com", "Suite"))
        .unwrap();
    assert_eq!(updated.id, guest.id);
    assert_eq!(updated.name, "Grace");
    assert_eq!(updated.email, "grace@example.com");
    assert_eq!(updated.preferred_room_type, "Deluxe");
    assert_eq!(updated.created_at, 9);
    assert_eq!(h.get_guest(guest.id).unwrap(), updated);
    assert!(matches!(
        h.update_guest(99, guest_payload("X", "x@example.com", "")),
        Err(Error::NotFound { .. })
    ));
}

#[test]
fn delete_guest_returns_record_and_forgets_it() {
    let mut h = Hotel::new();
    let guest = h.create_guest(guest_payload("Ada", "ada@example.com", ""), 9).unwrap();
    let removed = h.delete_guest(guest.id).unwrap();
    assert_eq!(removed, guest);
    assert!(matches!(h.get_guest(guest.id), Err(Error::NotFound { .. })));
    assert!(matches!(h.delete_guest(guest.id), Err(Error::NotFound { .. })));
}

#[test]
fn get_all_guests_empty_table_is_not_found() {
    let h = Hotel::new();
    assert!(matches!(h.get_all_guests(), Err(Error::NotFound { .. })));
}

#[test]
fn get_all_guests_lists_in_id_order() {
    let mut h = Hotel::new();
    let a = h.create_guest(guest_payload("Ada", "ada@example.com", ""), 1).unwrap();
    let b = h.create_guest(guest_payload("Bob", "bob@example.com", ""), 2).unwrap();
    let c = h.create_guest(guest_payload("Cyd", "cyd@example.com", ""), 3).unwrap();
    let all = h.get_all_guests().unwrap();
    assert_eq!(all, vec![a, b, c]);
}

#[test]
fn recommendation_lists_available_rooms_of_preferred_type() {
    let mut h = Hotel::new();
    let wanted = h.create_room(room_payload("1", "Deluxe", true), 1).unwrap();
    h.create_room(room_payload("2", "Deluxe", false), 1).unwrap();
    h.create_room(room_payload("3", "Standard", true), 1).unwrap();
    let also_wanted = h.create_room(room_payload("4", "Deluxe", true), 1).unwrap();
    let guest = h.create_guest(guest_payload("Ada", "ada@example.com", "Deluxe"), 9).unwrap();
    let rooms = h.recommend_rooms_based_on_preferences(guest.id).unwrap();
    assert_eq!(rooms, vec![wanted, also_wanted]);
}

#[test]
fn recommendation_without_preference_or_guest_is_not_found() {
    let mut h = Hotel::new();
    let guest = h.create_guest(guest_payload("Ada", "ada@example.com", ""), 9).unwrap();
    assert!(matches!(
        h.recommend_rooms_based_on_preferences(guest.id),
        Err(Error::NotFound { .. })
    ));
    assert!(matches!(
        h.recommend_rooms_based_on_preferences(12345),
        Err(Error::NotFound { .. })
    ));
}
