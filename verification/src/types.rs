//! Entity records, request payloads and the error kinds of the service.
//!
//! Timestamps are opaque monotonically comparable `u64` values; a reservation
//! occupies the half-open interval `[start_date, end_date)` of its room.

use vstd::prelude::*;

verus! {

/// A room record as stored in the room table.
#[derive(Debug, PartialEq, Eq)]
pub struct Room {
    pub id: u64,
    pub room_number: String,
    pub room_type: String,
    pub availability: bool,
    pub created_at: u64,
    pub updated_at: Option<u64>,
}

impl Clone for Room {
    fn clone(&self) -> (r: Self)
        ensures
            r == *self,
    {
        Room {
            id: self.id,
            room_number: self.room_number.clone(),
            room_type: self.room_type.clone(),
            availability: self.availability,
            created_at: self.created_at,
            updated_at: self.updated_at,
        }
    }
}

/// A guest record as stored in the guest table.
#[derive(Debug, PartialEq, Eq)]
pub struct Guest {
    pub id: u64,
    pub name: String,
    pub email: String,
    pub created_at: u64,
    pub preferred_room_type: String,
}

impl Clone for Guest {
    fn clone(&self) -> (r: Self)
        ensures
            r == *self,
    {
        Guest {
            id: self.id,
            name: self.name.clone(),
            email: self.email.clone(),
            created_at: self.created_at,
            preferred_room_type: self.preferred_room_type.clone(),
        }
    }
}

/// A reservation record: guest `guest_id` occupies room `room_id` for the
/// half-open interval `[start_date, end_date)`.
#[derive(Clone, Copy, Debug, PartialEq, Eq)]
pub struct Reservation {
    pub id: u64,
    pub guest_id: u64,
    pub room_id: u64,
    pub start_date: u64,
    pub end_date: u64,
    pub created_at: u64,
}

/// The caller-supplied part of a room record.
pub struct RoomPayload {
    pub room_number: String,
    pub room_type: String,
    pub availability: bool,
}

/// The caller-supplied part of a guest record.
pub struct GuestPayload {
    pub name: String,
    pub email: String,
    pub preferred_room_type: String,
}

/// The caller-supplied part of a reservation request.
#[derive(Clone, Copy)]
pub struct ReservationPayload {
    pub guest_id: u64,
    pub room_id: u64,
    pub start_date: u64,
    pub end_date: u64,
}

/// Every failure an operation can report. Failures are returned, never
/// thrown, and an operation that fails leaves every table unmodified.
#[derive(Debug)]
pub enum Error {
    NotFound { msg: String },
    RoomUnavailable { msg: String },
    InvalidDateRange { msg: String },
    Overbooking { msg: String },
}

/// Half-open interval overlap: `[s1, e1)` and `[s2, e2)` share an instant.
/// Touching at an endpoint (`e1 == s2` or `e2 == s1`) is not an overlap.
pub open spec fn overlaps(s1: u64, e1: u64, s2: u64, e2: u64) -> bool {
    !(e1 <= s2 || s1 >= e2)
}

} // verus!
