//! The shared id allocator: distinct, strictly increasing identifiers across
//! every mix of entity creations.

use hotel_management_backend::GuestPayload;
use hotel_management_backend::Hotel;
use hotel_management_backend::ReservationPayload;
use hotel_management_backend::RoomPayload;

#[test]
fn ids_are_distinct_and_increase_across_entity_kinds() {
    let mut h = Hotel::new();
    let room = h
        .create_room(
            RoomPayload {
                room_number: "101".to_string(),
                room_type: "Standard".to_string(),
                availability: true,
            },
            1,
        )
        .unwrap();
    let guest = h
        .create_guest(
            GuestPayload {
                name: "Ada".to_string(),
                email: "ada@example.com".to_string(),
                preferred_room_type: "Standard".to_string(),
            },
            2,
        )
        .unwrap();
    let res = h
        .create_reservation(
            ReservationPayload { guest_id: guest.id, room_id: room.id, start_date: 10, end_date: 12 },
            5,
        )
        .unwrap();
    let second_room = h
        .create_room(
            RoomPayload {
                room_number: "102".to_string(),
                room_type: "Standard".to_string(),
                availability: true,
            },
            6,
        )
        .unwrap();
    let ids = [room.id, guest.id, res.id, second_room.id];
    assert_eq!(ids, [0, 1, 2, 3]);
    for window in ids.windows(2) {
        assert!(window[0] < window[1]);
    }
}

#[test]
fn generate_new_id_never_repeats() {
    let mut h = Hotel::new();
    let a = h.generate_new_id();
    let b = h.generate_new_id();
    let c = h.generate_new_id();
    assert_eq!((a, b, c), (0, 1, 2));
}
