//! Reservation admission: the ordered gates, the half-open overlap rule and
//! deletion reconciliation, on concrete scenarios.

use hotel_management_backend::Error;
use hotel_management_backend::Hotel;
use hotel_management_backend::ReservationPayload;
use hotel_management_backend::RoomPayload;

fn standard_room(number: &str) -> RoomPayload {
    RoomPayload {
        room_number: number.to_string(),
        room_type: "Standard".to_string(),
        availability: true,
    }
}

fn request(room_id: u64, start_date: u64, end_date: u64) -> ReservationPayload {
    ReservationPayload { guest_id: 7, room_id, start_date, end_date }
}

#[test]
fn valid_reservation_succeeds_and_is_retrievable() {
    let mut h = Hotel::new();
    let room = h.create_room(standard_room("101"), 1).unwrap();
    let res = h.create_reservation(request(room.id, 10, 12), 5).unwrap();
    assert_eq!(res.guest_id, 7);
    assert_eq!(res.room_id, room.id);
    assert_eq!(res.start_date, 10);
    assert_eq!(res.end_date, 12);
    assert_eq!(res.created_at, 5);
    let found = h.get_reservation(res.id).unwrap();
    assert_eq!(found, res);
}

#[test]
fn overlapping_reservation_rejected_boundary_accepted() {
    let mut h = Hotel::new();
    let room = h.create_room(standard_room("A"), 1).unwrap();
    let req1 = h.create_reservation(request(room.id, 10, 12), 5);
    assert!(req1.is_ok());
    let req2 = h.create_reservation(request(room.id, 11, 13), 5);
    assert!(matches!(req2, Err(Error::RoomUnavailable { .. })));
    let req3 = h.create_reservation(request(room.id, 12, 14), 5);
    assert!(req3.is_ok());
}

#[test]
fn back_to_back_bookings_both_succeed() {
    let mut h = Hotel::new();
    let room = h.create_room(standard_room("B"), 1).unwrap();
    let first = h.create_reservation(request(room.id, 20, 30), 5);
    assert!(first.is_ok());
    let second = h.create_reservation(request(room.id, 30, 40), 5);
    assert!(second.is_ok());
}

#[test]
fn start_not_before_end_rejected_regardless_of_state() {
    let mut h = Hotel::new();
    let empty_state = h.create_reservation(request(0, 12, 12), 5);
    assert!(matches!(empty_state, Err(Error::InvalidDateRange { .. })));
    let room = h.create_room(standard_room("C"), 1).unwrap();
    let reversed = h.create_reservation(request(room.id, 14, 12), 5);
    assert!(matches!(reversed, Err(Error::InvalidDateRange { .. })));
}

#[test]
fn past_dates_rejected() {
    let mut h = Hotel::new();
    let room = h.create_room(standard_room("D"), 1).unwrap();
    let starts_in_past = h.create_reservation(request(room.id, 50, 120), 100);
    assert!(matches!(starts_in_past, Err(Error::InvalidDateRange { .. })));
}

#[test]
fn deletion_restores_availability_and_forgets_reservation() {
    let mut h = Hotel::new();
    let room = h.create_room(standard_room("E"), 1).unwrap();
    let res = h.create_reservation(request(room.id, 10, 12), 5).unwrap();
    h.update_room_availability(room.id, false).unwrap();
    let removed = h.delete_reservation(res.id).unwrap();
    assert_eq!(removed, res);
    assert!(h.get_room(room.id).unwrap().availability);
    assert!(matches!(h.get_reservation(res.id), Err(Error::NotFound { .. })));
}

#[test]
fn deleting_unknown_reservation_is_not_found() {
    let mut h = Hotel::new();
    assert!(matches!(h.delete_reservation(42), Err(Error::NotFound { .. })));
}

#[test]
fn deletion_without_the_room_changes_nothing() {
    let mut h = Hotel::new();
    let room = h.create_room(standard_room("F"), 1).unwrap();
    let res = h.create_reservation(request(room.id, 10, 12), 5).unwrap();
    h.delete_room(room.id).unwrap();
    assert!(matches!(h.delete_reservation(res.id), Err(Error::NotFound { .. })));
    assert_eq!(h.get_reservation(res.id).unwrap(), res);
}

#[test]
fn sold_out_inventory_fails_before_interval_check() {
    let mut h = Hotel::new();
    // no rooms at all: the interval check would pass, yet admission stops at
    // the inventory gate
    let no_rooms = h.create_reservation(request(9, 10, 12), 5);
    assert!(matches!(no_rooms, Err(Error::Overbooking { .. })));
    // a room that exists but is marked unavailable is no inventory either
    let room = h.create_room(standard_room("G"), 1).unwrap();
    h.update_room_availability(room.id, false).unwrap();
    let unavailable = h.create_reservation(request(room.id, 10, 12), 5);
    assert!(matches!(unavailable, Err(Error::Overbooking { .. })));
}

#[test]
fn unknown_room_resolves_to_empty_type_for_the_inventory_gate() {
    let mut h = Hotel::new();
    // an unknown room id resolves to the empty room type; with an available
    // room of that (empty) type the inventory gate passes and, there being no
    // reservations, the request commits against the nonexistent room
    let oddly_typed = RoomPayload {
        room_number: "X".to_string(),
        room_type: String::new(),
        availability: true,
    };
    h.create_room(oddly_typed, 1).unwrap();
    let res = h.create_reservation(request(999, 10, 12), 5);
    assert!(res.is_ok());
    assert_eq!(res.unwrap().room_id, 999);
}

#[test]
fn free_sibling_room_keeps_inventory_but_interval_gate_refuses() {
    let mut h = Hotel::new();
    let busy = h.create_room(standard_room("H1"), 1).unwrap();
    let _idle = h.create_room(standard_room("H2"), 1).unwrap();
    h.create_reservation(request(busy.id, 10, 12), 5).unwrap();
    // inventory of the type is nonzero thanks to the idle sibling, so the
    // refusal comes from the per-room interval gate
    let clash = h.create_reservation(request(busy.id, 10, 12), 5);
    assert!(matches!(clash, Err(Error::RoomUnavailable { .. })));
}
