//! Service-level guarantees, each stated over the operation contracts and
//! proved once and for all: what admission owes a valid request, what it
//! refuses, and what the shared id allocator guarantees.

use crate::hotel::Hotel;
use crate::hotel::allocates;
use crate::hotel::conflict_exists;
use crate::hotel::create_reservation_post;
use crate::hotel::delete_reservation_post;
use crate::hotel::exists_available;
use crate::hotel::room_type_of;
use crate::types::Error;
use crate::types::Reservation;
use crate::types::ReservationPayload;
use crate::types::overlaps;
use vstd::prelude::*;

verus! {

/// A reservation the admission pipeline accepts is stored under its id,
/// exactly as returned: a lookup of that id after the call yields the
/// identical record.
pub proof fn lemma_admitted_reservation_is_stored(
    pre: Hotel,
    post: Hotel,
    p: ReservationPayload,
    now: u64,
    res: Reservation,
)
    requires
        create_reservation_post(pre, post, p, now, Ok(res)),
    ensures
        post.reservations@.contains_key(res.id),
        post.reservations@[res.id] == res,
{
}

/// Admission owes success: a request with a proper, future-dated interval,
/// available inventory of the resolved room type and no overlapping
/// reservation on the requested room is accepted and committed.
pub proof fn lemma_valid_request_is_admitted(
    pre: Hotel,
    post: Hotel,
    p: ReservationPayload,
    now: u64,
    r: Result<Reservation, Error>,
)
    requires
        create_reservation_post(pre, post, p, now, r),
        p.start_date < p.end_date,
        p.start_date >= now,
        p.end_date >= now,
        exists_available(pre.rooms@, room_type_of(pre.rooms@, p.room_id)),
        !conflict_exists(pre.reservations@, p.room_id, p.start_date, p.end_date),
    ensures
        r is Ok,
        post.reservations@.contains_key(r->Ok_0.id),
        post.reservations@[r->Ok_0.id] == r->Ok_0,
{
}

/// Of two requests whose intervals overlap on one room, at most one is
/// admitted; and when the later request is itself well-formed, future-dated
/// and covered by inventory, it is refused exactly as `RoomUnavailable`.
pub proof fn lemma_overlapping_second_request_fails(
    pre: Hotel,
    mid: Hotel,
    post: Hotel,
    p1: ReservationPayload,
    now1: u64,
    res1: Reservation,
    p2: ReservationPayload,
    now2: u64,
    r2: Result<Reservation, Error>,
)
    requires
        create_reservation_post(pre, mid, p1, now1, Ok(res1)),
        create_reservation_post(mid, post, p2, now2, r2),
        p1.room_id == p2.room_id,
        overlaps(p1.start_date, p1.end_date, p2.start_date, p2.end_date),
    ensures
        !(r2 is Ok),
        (p2.start_date < p2.end_date && p2.start_date >= now2 && p2.end_date >= now2
            && exists_available(mid.rooms@, room_type_of(mid.rooms@, p2.room_id))) ==> (
        r2 matches Err(e) && e is RoomUnavailable),
{
    assert(mid.reservations@.contains_key(res1.id));
    assert(mid.reservations@[res1.id] == res1);
    assert(conflict_exists(mid.reservations@, p2.room_id, p2.start_date, p2.end_date));
}

/// Back-to-back bookings: after a reservation ending exactly where a second,
/// otherwise admissible request begins is committed, the second request is
/// admitted too — a shared boundary instant is no conflict under half-open
/// intervals.
pub proof fn lemma_back_to_back_requests_both_succeed(
    pre: Hotel,
    mid: Hotel,
    post: Hotel,
    p1: ReservationPayload,
    now1: u64,
    res1: Reservation,
    p2: ReservationPayload,
    now2: u64,
    r2: Result<Reservation, Error>,
)
    requires
        create_reservation_post(pre, mid, p1, now1, Ok(res1)),
        create_reservation_post(mid, post, p2, now2, r2),
        p1.room_id == p2.room_id,
        p2.start_date == p1.end_date,
        p2.start_date < p2.end_date,
        p2.start_date >= now2,
        p2.end_date >= now2,
        exists_available(mid.rooms@, room_type_of(mid.rooms@, p2.room_id)),
        !conflict_exists(pre.reservations@, p2.room_id, p2.start_date, p2.end_date),
    ensures
        r2 is Ok,
{
    if conflict_exists(mid.reservations@, p2.room_id, p2.start_date, p2.end_date) {
        let id = choose|id: u64|
            #[trigger] mid.reservations@.contains_key(id) && mid.reservations@[id].room_id
                == p2.room_id && overlaps(
                p2.start_date,
                p2.end_date,
                mid.reservations@[id].start_date,
                mid.reservations@[id].end_date,
            );
        if id == res1.id {
            assert(mid.reservations@[id].start_date == p1.start_date);
            assert(false);
        } else {
            assert(pre.reservations@.contains_key(id));
            assert(conflict_exists(pre.reservations@, p2.room_id, p2.start_date, p2.end_date));
            assert(false);
        }
    }
}

/// An ill-ordered interval (`start >= end`) is always refused as
/// `InvalidDateRange`, whatever the rest of the state, and nothing changes.
pub proof fn lemma_invalid_range_always_rejected(
    pre: Hotel,
    post: Hotel,
    p: ReservationPayload,
    now: u64,
    r: Result<Reservation, Error>,
)
    requires
        create_reservation_post(pre, post, p, now, r),
        p.start_date >= p.end_date,
    ensures
        r matches Err(e) && e is InvalidDateRange,
        post == pre,
{
}

/// After a deletion succeeds, the affected room is marked available again
/// and the deleted reservation's id no longer resolves.
pub proof fn lemma_deletion_frees_room(pre: Hotel, post: Hotel, id: u64, res: Reservation)
    requires
        delete_reservation_post(pre, post, id, Ok(res)),
    ensures
        post.rooms@.contains_key(res.room_id),
        post.rooms@[res.room_id].availability,
        !post.reservations@.contains_key(id),
{
}

/// Identifiers allocated by any two creations — of rooms, guests or
/// reservations, with any operations in between — are distinct and strictly
/// increasing in call order: the shared counter only grows, and each
/// allocation consumes its value.
pub proof fn lemma_allocated_ids_strictly_increase(
    h0: Hotel,
    h1: Hotel,
    h2: Hotel,
    h3: Hotel,
    first: u64,
    second: u64,
)
    requires
        allocates(h0, h1, first),
        h1.next_id <= h2.next_id,
        allocates(h2, h3, second),
    ensures
        first < second,
{
}

} // verus!
