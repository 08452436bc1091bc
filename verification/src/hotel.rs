//! The hotel service state and its operations: CRUD over rooms, guests and
//! reservations, monotonic id allocation shared by all three, and the
//! reservation admission pipeline with its two-tier gate.

use crate::store::Store;
use crate::types::Error;
use crate::types::Guest;
use crate::types::GuestPayload;
use crate::types::Reservation;
use crate::types::ReservationPayload;
use crate::types::Room;
use crate::types::RoomPayload;
use crate::types::overlaps;
use vstd::prelude::*;

verus! {

/// The room type a reservation request resolves to: the type of the room it
/// names, or the empty string when no such room exists.
pub open spec fn room_type_of(rooms: Map<u64, Room>, room_id: u64) -> Seq<char> {
    if rooms.contains_key(room_id) {
        rooms[room_id].room_type@
    } else {
        Seq::<char>::empty()
    }
}

/// Some stored room of this type is marked available.
pub open spec fn exists_available(rooms: Map<u64, Room>, room_type: Seq<char>) -> bool {
    exists|id: u64|
        #[trigger] rooms.contains_key(id) && rooms[id].room_type@ == room_type
            && rooms[id].availability
}

/// Some stored reservation of this room overlaps the half-open interval
/// `[start, end)`.
pub open spec fn conflict_exists(
    reservations: Map<u64, Reservation>,
    room_id: u64,
    start: u64,
    end: u64,
) -> bool {
    exists|id: u64|
        #[trigger] reservations.contains_key(id) && reservations[id].room_id == room_id
            && overlaps(start, end, reservations[id].start_date, reservations[id].end_date)
}

/// How many of the scanned room entries have this type and are available.
pub open spec fn count_available(s: Seq<(u64, Room)>, room_type: Seq<char>) -> nat
    decreases s.len(),
{
    if s.len() == 0 {
        0
    } else {
        count_available(s.drop_last(), room_type) + (
        if s.last().1.room_type@ == room_type && s.last().1.availability {
            1nat
        } else {
            0nat
        })
    }
}

/// No two live reservations of one room overlap.
pub open spec fn no_room_double_booked(reservations: Map<u64, Reservation>) -> bool {
    forall|a: u64, b: u64|
        #![trigger reservations[a], reservations[b]]
        reservations.contains_key(a) && reservations.contains_key(b) && a != b
            && reservations[a].room_id == reservations[b].room_id ==> !overlaps(
            reservations[a].start_date,
            reservations[a].end_date,
            reservations[b].start_date,
            reservations[b].end_date,
        )
}

/// `room` with its availability flag forced to `flag`.
pub open spec fn set_availability(room: Room, flag: bool) -> Room {
    Room {
        id: room.id,
        room_number: room.room_number,
        room_type: room.room_type,
        availability: flag,
        created_at: room.created_at,
        updated_at: room.updated_at,
    }
}

/// A count of zero over the scanned entries means no entry matches, and a
/// nonzero count names a matching entry.
proof fn lemma_count_available_indices(s: Seq<(u64, Room)>, room_type: Seq<char>)
    ensures
        count_available(s, room_type) == 0 ==> (forall|i: int|
            0 <= i < s.len() ==> !((#[trigger] s[i]).1.room_type@ == room_type
                && s[i].1.availability)),
        count_available(s, room_type) != 0 ==> (exists|i: int|
            0 <= i < s.len() && (#[trigger] s[i]).1.room_type@ == room_type
                && s[i].1.availability),
    decreases s.len(),
{
    if s.len() > 0 {
        lemma_count_available_indices(s.drop_last(), room_type);
        assert(s.last() == s[s.len() - 1]);
        if count_available(s, room_type) == 0 {
            assert forall|i: int| 0 <= i < s.len() implies !((#[trigger] s[i]).1.room_type@
                == room_type && s[i].1.availability) by {
                if i < s.len() - 1 {
                    assert(s.drop_last()[i] == s[i]);
                } else {
                    assert(s[i] == s.last());
                }
            }
        }
        if count_available(s, room_type) != 0 {
            if s.last().1.room_type@ == room_type && s.last().1.availability {
                assert((#[trigger] s[s.len() - 1]).1.room_type@ == room_type && s[s.len()
                    - 1].1.availability);
            } else {
                let i = choose|i: int|
                    0 <= i < s.drop_last().len() && (#[trigger] s.drop_last()[i]).1.room_type@
                        == room_type && s.drop_last()[i].1.availability;
                assert((#[trigger] s[i]).1.room_type@ == room_type && s[i].1.availability);
            }
        }
    }
}

/// The inventory count over the room table is zero exactly when no room of
/// the type is marked available.
pub proof fn lemma_count_zero_iff_none_available(rooms: Store<Room>, room_type: Seq<char>)
    requires
        rooms.wf(),
    ensures
        (count_available(rooms.entry_seq(), room_type) == 0) <==> !exists_available(
            rooms@,
            room_type,
        ),
{
    let s = rooms.entry_seq();
    lemma_count_available_indices(s, room_type);
    rooms.lemma_view_entries();
    if count_available(s, room_type) == 0 {
        if exists_available(rooms@, room_type) {
            let id = choose|id: u64|
                #[trigger] rooms@.contains_key(id) && rooms@[id].room_type@ == room_type
                    && rooms@[id].availability;
            let i = choose|i: int|
                0 <= i < rooms.entry_seq().len() && #[trigger] rooms.entry_seq()[i] == (
                id,
                rooms@[id],
                );
            assert(s[i].1.room_type@ == room_type && s[i].1.availability);
            assert(false);
        }
    } else {
        let i = choose|i: int|
            0 <= i < s.len() && (#[trigger] s[i]).1.room_type@ == room_type
                && s[i].1.availability;
        let id = s[i].0;
        assert(rooms@.contains_key(id) && rooms@[id] == s[i].1);
        assert(exists_available(rooms@, room_type));
    }
}

/// The room type a guest prefers: the stored preference, or the empty string
/// when no such guest exists.
pub open spec fn preferred_type_of(guests: Map<u64, Guest>, guest_id: u64) -> Seq<char> {
    if guests.contains_key(guest_id) {
        guests[guest_id].preferred_room_type@
    } else {
        Seq::<char>::empty()
    }
}

/// The scanned room entries of this type that are marked available, kept in
/// scan order.
pub open spec fn matching_rooms(s: Seq<(u64, Room)>, room_type: Seq<char>) -> Seq<Room>
    decreases s.len(),
{
    if s.len() == 0 {
        Seq::<Room>::empty()
    } else {
        matching_rooms(s.drop_last(), room_type) + (
        if s.last().1.room_type@ == room_type && s.last().1.availability {
            seq![s.last().1]
        } else {
            Seq::<Room>::empty()
        })
    }
}

/// One identifier was allocated between the two states: the id handed out is
/// the old counter value, and the counter advanced past it.
pub open spec fn allocates(pre: Hotel, post: Hotel, id: u64) -> bool {
    id == pre.next_id && post.next_id == pre.next_id + 1
}

/// The whole service state: three independent ordered id-to-record tables and
/// the one counter every entity kind allocates its id from.
pub struct Hotel {
    pub rooms: Store<Room>,
    pub guests: Store<Guest>,
    pub reservations: Store<Reservation>,
    pub next_id: u64,
}

impl Hotel {
    /// Cross-entity consistency: every table is well-formed, each record is
    /// keyed by its own id, no stored id has reached the allocator counter,
    /// every reservation interval is proper, and no room is double-booked.
    pub open spec fn inv(self) -> bool {
        &&& self.rooms.wf()
        &&& self.guests.wf()
        &&& self.reservations.wf()
        &&& forall|id: u64| #[trigger]
            self.rooms@.contains_key(id) ==> self.rooms@[id].id == id && id < self.next_id
        &&& forall|id: u64| #[trigger]
            self.guests@.contains_key(id) ==> self.guests@[id].id == id && id < self.next_id
        &&& forall|id: u64| #[trigger]
            self.reservations@.contains_key(id) ==> self.reservations@[id].id == id && id
                < self.next_id
        &&& forall|id: u64| #[trigger]
            self.reservations@.contains_key(id) ==> self.reservations@[id].start_date
                < self.reservations@[id].end_date
        &&& no_room_double_booked(self.reservations@)
    }

    /// A fresh service state: empty tables, counter at zero.
    pub fn new() -> (h: Hotel)
        ensures
            h.inv(),
            h.rooms@ == Map::<u64, Room>::empty(),
            h.guests@ == Map::<u64, Guest>::empty(),
            h.reservations@ == Map::<u64, Reservation>::empty(),
            h.rooms.entry_seq().len() == 0,
            h.guests.entry_seq().len() == 0,
            h.reservations.entry_seq().len() == 0,
            h.next_id == 0,
    {
        Hotel {
            rooms: Store::new(),
            guests: Store::new(),
            reservations: Store::new(),
            next_id: 0,
        }
    }

    /// Allocates the next identifier: returns the counter value and advances
    /// the counter, so no two calls ever return the same id.
    pub fn generate_new_id(&mut self) -> (id: u64)
        requires
            old(self).next_id < u64::MAX,
        ensures
            allocates(*old(self), *final(self), id),
            final(self).rooms == old(self).rooms,
            final(self).guests == old(self).guests,
            final(self).reservations == old(self).reservations,
    {
        let id = self.next_id;
        self.next_id = self.next_id + 1;
        id
    }

    /// Creates a room from the payload: allocates an id, stamps `created_at`,
    /// stores the record and returns it. Always succeeds.
    pub fn create_room(&mut self, payload: RoomPayload, now: u64) -> (r: Option<Room>)
        requires
            old(self).inv(),
            old(self).next_id < u64::MAX,
        ensures
            final(self).inv(),
            r matches Some(room) && {
                &&& room == (Room {
                    id: old(self).next_id,
                    room_number: payload.room_number,
                    room_type: payload.room_type,
                    availability: payload.availability,
                    created_at: now,
                    updated_at: None,
                })
                &&& final(self).rooms@ == old(self).rooms@.insert(room.id, room)
                &&& final(self).guests == old(self).guests
                &&& final(self).reservations == old(self).reservations
                &&& allocates(*old(self), *final(self), room.id)
            },
    {
        let id = self.generate_new_id();
        let room = Room {
            id,
            room_number: payload.room_number,
            room_type: payload.room_type,
            availability: payload.availability,
            created_at: now,
            updated_at: None,
        };
        let result = room.clone();
        self.rooms.put(id, room);
        Some(result)
    }

    /// Point lookup of a room; `NotFound` when no room has this id.
    pub fn get_room(&self, id: u64) -> (r: Result<Room, Error>)
        requires
            self.inv(),
        ensures
            match r {
                Ok(room) => self.rooms@.contains_key(id) && room == self.rooms@[id],
                Err(e) => !self.rooms@.contains_key(id) && e is NotFound,
            },
    {
        match self.rooms.get(id) {
            Some(room) => Ok(room.clone()),
            None => Err(Error::NotFound { msg: "Room with this id not found.".to_owned() }),
        }
    }

    /// Replaces the caller-supplied fields of a room, stamps `updated_at` and
    /// returns the stored record; `NotFound` when no room has this id.
    pub fn update_room(&mut self, id: u64, payload: RoomPayload, now: u64) -> (r: Result<
        Room,
        Error,
    >)
        requires
            old(self).inv(),
        ensures
            final(self).inv(),
            match r {
                Ok(room) => old(self).rooms@.contains_key(id) && {
                    &&& room == (Room {
                        id,
                        room_number: payload.room_number,
                        room_type: payload.room_type,
                        availability: payload.availability,
                        created_at: old(self).rooms@[id].created_at,
                        updated_at: Some(now),
                    })
                    &&& final(self).rooms@ == old(self).rooms@.insert(id, room)
                    &&& final(self).guests == old(self).guests
                    &&& final(self).reservations == old(self).reservations
                    &&& final(self).next_id == old(self).next_id
                },
                Err(e) => !old(self).rooms@.contains_key(id) && e is NotFound && *final(self)
                    == *old(self),
            },
    {
        let existing = match self.rooms.get(id) {
            Some(room) => Some(room.clone()),
            None => None,
        };
        match existing {
            Some(mut room) => {
                room.room_number = payload.room_number;
                room.room_type = payload.room_type;
                room.availability = payload.availability;
                room.updated_at = Some(now);
                let result = room.clone();
                self.rooms.put(id, room);
                Ok(result)
            },
            None => Err(Error::NotFound { msg: "Room with this id not found.".to_owned() }),
        }
    }

    /// Removes and returns a room; `NotFound` when no room has this id.
    /// Reservations that reference the room are left untouched.
    pub fn delete_room(&mut self, id: u64) -> (r: Result<Room, Error>)
        requires
            old(self).inv(),
        ensures
            final(self).inv(),
            match r {
                Ok(room) => old(self).rooms@.contains_key(id) && {
                    &&& room == old(self).rooms@[id]
                    &&& final(self).rooms@ == old(self).rooms@.remove(id)
                    &&& final(self).guests == old(self).guests
                    &&& final(self).reservations == old(self).reservations
                    &&& final(self).next_id == old(self).next_id
                },
                Err(e) => !old(self).rooms@.contains_key(id) && e is NotFound && *final(self)
                    == *old(self),
            },
    {
        match self.rooms.remove(id) {
            Some(room) => Ok(room),
            None => Err(Error::NotFound { msg: "Room with this id not found.".to_owned() }),
        }
    }

    /// Direct setter for a room's availability flag; `NotFound` when no room
    /// has this id. Used directly and by deletion reconciliation.
    pub fn update_room_availability(&mut self, room_id: u64, is_available: bool) -> (r: Result<
        (),
        Error,
    >)
        requires
            old(self).inv(),
        ensures
            final(self).inv(),
            match r {
                Ok(_) => old(self).rooms@.contains_key(room_id) && {
                    &&& final(self).rooms@ == old(self).rooms@.insert(
                        room_id,
                        set_availability(old(self).rooms@[room_id], is_available),
                    )
                    &&& final(self).guests == old(self).guests
                    &&& final(self).reservations == old(self).reservations
                    &&& final(self).next_id == old(self).next_id
                },
                Err(e) => !old(self).rooms@.contains_key(room_id) && e is NotFound && *final(self)
                    == *old(self),
            },
    {
        let existing = match self.rooms.get(room_id) {
            Some(room) => Some(room.clone()),
            None => None,
        };
        match existing {
            Some(mut room) => {
                room.availability = is_available;
                self.rooms.put(room_id, room);
                Ok(())
            },
            None => Err(Error::NotFound { msg: "Room with this id not found.".to_owned() }),
        }
    }

    /// The coarse inventory signal of admission control: how many rooms have
    /// this type and are marked available.
    pub fn available_rooms_count(&self, room_type: &str) -> (n: u64)
        requires
            self.inv(),
        ensures
            n == count_available(self.rooms.entry_seq(), room_type@),
            (n == 0) <==> !exists_available(self.rooms@, room_type@),
    {
        let t: String = room_type.to_owned();
        let entries = self.rooms.scan();
        let len = entries.len();
        let mut n: u64 = 0;
        let mut i: usize = 0;
        while i < len
            invariant
                t@ == room_type@,
                entries@ == self.rooms.entry_seq(),
                len == entries@.len(),
                0 <= i <= len,
                n <= i,
                n as nat == count_available(entries@.take(i as int), room_type@),
            decreases len - i,
        {
            proof {
                assert(entries@.take(i as int + 1).drop_last() =~= entries@.take(i as int));
                assert(entries@.take(i as int + 1).last() == entries@[i as int]);
            }
            let entry_matches = entries[i].1.room_type == t && entries[i].1.availability;
            if entry_matches {
                n = n + 1;
            }
            i = i + 1;
        }
        proof {
            assert(entries@.take(len as int) =~= entries@);
            lemma_count_zero_iff_none_available(self.rooms, room_type@);
        }
        n
    }

    /// The per-room interval gate: does some stored reservation of this room
    /// overlap the half-open interval `[start, end)`?
    pub fn room_has_conflict(&self, room_id: u64, start: u64, end: u64) -> (c: bool)
        requires
            self.inv(),
        ensures
            c == conflict_exists(self.reservations@, room_id, start, end),
    {
        let entries = self.reservations.scan();
        let len = entries.len();
        let mut i: usize = 0;
        while i < len
            invariant
                self.reservations.wf(),
                entries@ == self.reservations.entry_seq(),
                len == entries@.len(),
                0 <= i <= len,
                forall|j: int|
                    0 <= j < i ==> !((#[trigger] entries@[j]).1.room_id == room_id && overlaps(
                        start,
                        end,
                        entries@[j].1.start_date,
                        entries@[j].1.end_date,
                    )),
            decreases len - i,
        {
            let res = &entries[i].1;
            if res.room_id == room_id && !(end <= res.start_date || start >= res.end_date) {
                proof {
                    self.reservations.lemma_entry_at(i as int);
                    let id = entries@[i as int].0;
                    assert(self.reservations@.contains_key(id) && self.reservations@[id].room_id
                        == room_id && overlaps(
                        start,
                        end,
                        self.reservations@[id].start_date,
                        self.reservations@[id].end_date,
                    ));
                }
                return true;
            }
            i += 1;
        }
        proof {
            self.reservations.lemma_view_entries();
            if conflict_exists(self.reservations@, room_id, start, end) {
                let id = choose|id: u64|
                    #[trigger] self.reservations@.contains_key(id)
                        && self.reservations@[id].room_id == room_id && overlaps(
                        start,
                        end,
                        self.reservations@[id].start_date,
                        self.reservations@[id].end_date,
                    );
                let j = choose|j: int|
                    0 <= j < self.reservations.entry_seq().len()
                        && #[trigger] self.reservations.entry_seq()[j] == (
                    id,
                    self.reservations@[id],
                    );
                assert(!(entries@[j].1.room_id == room_id && overlaps(
                    start,
                    end,
                    entries@[j].1.start_date,
                    entries@[j].1.end_date,
                )));
                assert(false);
            }
        }
        false
    }

    /// Reservation admission: date sanity, future-dating, the room-type
    /// inventory gate, then the per-room interval gate, in that order; the
    /// first failing check reports its error and nothing is mutated. Only
    /// when every check passes is an id allocated and the record committed.
    pub fn create_reservation(&mut self, payload: ReservationPayload, now: u64) -> (r: Result<
        Reservation,
        Error,
    >)
        requires
            old(self).inv(),
            old(self).next_id < u64::MAX,
        ensures
            final(self).inv(),
            create_reservation_post(*old(self), *final(self), payload, now, r),
    {
        if payload.start_date >= payload.end_date {
            return Err(
                Error::InvalidDateRange {
                    msg: "Start date must be before end date.".to_owned(),
                },
            );
        }
        if payload.start_date < now || payload.end_date < now {
            return Err(
                Error::InvalidDateRange {
                    msg: "Reservation dates must be in the future.".to_owned(),
                },
            );
        }
        let room_type: String = match self.rooms.get(payload.room_id) {
            Some(room) => room.room_type.clone(),
            None => String::new(),
        };
        let available_count = self.available_rooms_count(room_type.as_str());
        if available_count == 0 {
            return Err(
                Error::Overbooking {
                    msg: "No available rooms of the requested type.".to_owned(),
                },
            );
        }
        if self.room_has_conflict(payload.room_id, payload.start_date, payload.end_date) {
            return Err(
                Error::RoomUnavailable {
                    msg: "Room is not available for the selected dates.".to_owned(),
                },
            );
        }
        let id = self.generate_new_id();
        let reservation = Reservation {
            id,
            guest_id: payload.guest_id,
            room_id: payload.room_id,
            start_date: payload.start_date,
            end_date: payload.end_date,
            created_at: now,
        };
        self.reservations.put(id, reservation);
        proof {
            let pre = *old(self);
            let post = *self;
            assert forall|a: u64, b: u64|
                post.reservations@.contains_key(a) && post.reservations@.contains_key(b) && a != b
                    && (#[trigger] post.reservations@[a]).room_id == (
                #[trigger] post.reservations@[b]).room_id implies !overlaps(
                post.reservations@[a].start_date,
                post.reservations@[a].end_date,
                post.reservations@[b].start_date,
                post.reservations@[b].end_date,
            ) by {
                if a == id && pre.reservations@.contains_key(b) && post.reservations@[b].room_id
                    == payload.room_id {
                    assert(!conflict_exists(
                        pre.reservations@,
                        payload.room_id,
                        payload.start_date,
                        payload.end_date,
                    ));
                    assert(pre.reservations@.contains_key(b));
                }
                if b == id && pre.reservations@.contains_key(a) && post.reservations@[a].room_id
                    == payload.room_id {
                    assert(pre.reservations@.contains_key(a));
                }
            }
        }
        Ok(reservation)
    }

    /// Point lookup of a reservation; `NotFound` when no reservation has this
    /// id.
    pub fn get_reservation(&self, id: u64) -> (r: Result<Reservation, Error>)
        requires
            self.inv(),
        ensures
            match r {
                Ok(res) => self.reservations@.contains_key(id) && res == self.reservations@[id],
                Err(e) => !self.reservations@.contains_key(id) && e is NotFound,
            },
    {
        match self.reservations.get(id) {
            Some(res) => Ok(*res),
            None => Err(
                Error::NotFound { msg: "Reservation with this id not found.".to_owned() },
            ),
        }
    }

    /// Removes a reservation and reconciles its room back to available, all
    /// or nothing; `NotFound` when the reservation, or the room it names, does
    /// not exist, and then nothing is mutated.
    pub fn delete_reservation(&mut self, id: u64) -> (r: Result<Reservation, Error>)
        requires
            old(self).inv(),
        ensures
            final(self).inv(),
            delete_reservation_post(*old(self), *final(self), id, r),
    {
        let reservation = match self.reservations.get(id) {
            Some(res) => *res,
            None => {
                return Err(
                    Error::NotFound { msg: "Reservation with this id not found.".to_owned() },
                );
            },
        };
        // probe the room before removing anything: a failure must leave every
        // table unmodified
        if self.rooms.get(reservation.room_id).is_none() {
            return Err(Error::NotFound { msg: "Room with this id not found.".to_owned() });
        }
        let removed = self.reservations.remove(id);
        match removed {
            Some(res) => {
                match self.update_room_availability(res.room_id, true) {
                    Ok(_) => Ok(res),
                    Err(e) => Err(e),  // unreachable: the room was looked up above
                }
            },
            None => {
                // never taken: the reservation was found above and nothing
                // removed it since
                proof {
                    assert(false);
                }
                Err(Error::NotFound { msg: "Reservation with this id not found.".to_owned() })
            },
        }
    }

    /// Creates a guest from the payload: allocates an id, stamps
    /// `created_at`, stores the record and returns it. Always succeeds.
    pub fn create_guest(&mut self, payload: GuestPayload, now: u64) -> (r: Option<Guest>)
        requires
            old(self).inv(),
            old(self).next_id < u64::MAX,
        ensures
            final(self).inv(),
            r matches Some(guest) && {
                &&& guest == (Guest {
                    id: old(self).next_id,
                    name: payload.name,
                    email: payload.email,
                    created_at: now,
                    preferred_room_type: payload.preferred_room_type,
                })
                &&& final(self).guests@ == old(self).guests@.insert(guest.id, guest)
                &&& final(self).rooms == old(self).rooms
                &&& final(self).reservations == old(self).reservations
                &&& allocates(*old(self), *final(self), guest.id)
            },
    {
        let id = self.generate_new_id();
        let guest = Guest {
            id,
            name: payload.name,
            email: payload.email,
            created_at: now,
            preferred_room_type: payload.preferred_room_type,
        };
        let result = guest.clone();
        self.guests.put(id, guest);
        Some(result)
    }

    /// Point lookup of a guest; `NotFound` when no guest has this id.
    pub fn get_guest(&self, id: u64) -> (r: Result<Guest, Error>)
        requires
            self.inv(),
        ensures
            match r {
                Ok(guest) => self.guests@.contains_key(id) && guest == self.guests@[id],
                Err(e) => !self.guests@.contains_key(id) && e is NotFound,
            },
    {
        match self.guests.get(id) {
            Some(guest) => Ok(guest.clone()),
            None => Err(Error::NotFound { msg: "Guest with this id not found.".to_owned() }),
        }
    }

    /// All guests in id order; `NotFound` when the guest table is empty (the
    /// service reports an empty table as an error, not as an empty list).
    pub fn get_all_guests(&self) -> (r: Result<Vec<Guest>, Error>)
        requires
            self.inv(),
        ensures
            match r {
                Ok(guests) => {
                    &&& self.guests.entry_seq().len() > 0
                    &&& guests@.len() == self.guests.entry_seq().len()
                    &&& forall|i: int|
                        0 <= i < guests@.len() ==> guests@[i] == (
                        #[trigger] self.guests.entry_seq()[i]).1
                },
                Err(e) => self.guests.entry_seq().len() == 0 && e is NotFound,
            },
    {
        let entries = self.guests.scan();
        let len = entries.len();
        let mut guests: Vec<Guest> = Vec::new();
        let mut i: usize = 0;
        while i < len
            invariant
                entries@ == self.guests.entry_seq(),
                len == entries@.len(),
                0 <= i <= len,
                guests@.len() == i,
                forall|j: int| 0 <= j < i ==> guests@[j] == (#[trigger] entries@[j]).1,
            decreases len - i,
        {
            guests.push(entries[i].1.clone());
            i += 1;
        }
        if guests.len() > 0 {
            Ok(guests)
        } else {
            Err(Error::NotFound { msg: "No guests found.".to_owned() })
        }
    }

    /// Replaces a guest's name and email and returns the stored record; the
    /// preference field is left as stored. `NotFound` when no guest has this
    /// id.
    pub fn update_guest(&mut self, id: u64, payload: GuestPayload) -> (r: Result<Guest, Error>)
        requires
            old(self).inv(),
        ensures
            final(self).inv(),
            match r {
                Ok(guest) => old(self).guests@.contains_key(id) && {
                    &&& guest == (Guest {
                        id,
                        name: payload.name,
                        email: payload.email,
                        created_at: old(self).guests@[id].created_at,
                        preferred_room_type: old(self).guests@[id].preferred_room_type,
                    })
                    &&& final(self).guests@ == old(self).guests@.insert(id, guest)
                    &&& final(self).rooms == old(self).rooms
                    &&& final(self).reservations == old(self).reservations
                    &&& final(self).next_id == old(self).next_id
                },
                Err(e) => !old(self).guests@.contains_key(id) && e is NotFound && *final(self)
                    == *old(self),
            },
    {
        let existing = match self.guests.get(id) {
            Some(guest) => Some(guest.clone()),
            None => None,
        };
        match existing {
            Some(mut guest) => {
                guest.name = payload.name;
                guest.email = payload.email;
                let result = guest.clone();
                self.guests.put(id, guest);
                Ok(result)
            },
            None => Err(Error::NotFound { msg: "Guest with this id not found.".to_owned() }),
        }
    }

    /// Removes and returns a guest; `NotFound` when no guest has this id.
    /// Reservations that reference the guest are left untouched.
    pub fn delete_guest(&mut self, id: u64) -> (r: Result<Guest, Error>)
        requires
            old(self).inv(),
        ensures
            final(self).inv(),
            match r {
                Ok(guest) => old(self).guests@.contains_key(id) && {
                    &&& guest == old(self).guests@[id]
                    &&& final(self).guests@ == old(self).guests@.remove(id)
                    &&& final(self).rooms == old(self).rooms
                    &&& final(self).reservations == old(self).reservations
                    &&& final(self).next_id == old(self).next_id
                },
                Err(e) => !old(self).guests@.contains_key(id) && e is NotFound && *final(self)
                    == *old(self),
            },
    {
        match self.guests.remove(id) {
            Some(guest) => Ok(guest),
            None => Err(Error::NotFound { msg: "Guest with this id not found.".to_owned() }),
        }
    }

    /// Rooms of the guest's preferred type that are currently available, in
    /// id order; `NotFound` when the guest is unknown or states no
    /// preference.
    pub fn recommend_rooms_based_on_preferences(&self, guest_id: u64) -> (r: Result<
        Vec<Room>,
        Error,
    >)
        requires
            self.inv(),
        ensures
            ({
                let pref = preferred_type_of(self.guests@, guest_id);
                match r {
                    Ok(rooms) => pref.len() > 0 && rooms@ == matching_rooms(
                        self.rooms.entry_seq(),
                        pref,
                    ),
                    Err(e) => pref.len() == 0 && e is NotFound,
                }
            }),
    {
        let preferred: String = match self.guests.get(guest_id) {
            Some(guest) => guest.preferred_room_type.clone(),
            None => String::new(),
        };
        if preferred.as_str().is_empty() {
            return Err(
                Error::NotFound { msg: "No preferences found for this guest.".to_owned() },
            );
        }
        let entries = self.rooms.scan();
        let len = entries.len();
        let mut recommended: Vec<Room> = Vec::new();
        let mut i: usize = 0;
        while i < len
            invariant
                preferred@ == preferred_type_of(self.guests@, guest_id),
                entries@ == self.rooms.entry_seq(),
                len == entries@.len(),
                0 <= i <= len,
                recommended@ == matching_rooms(entries@.take(i as int), preferred@),
            decreases len - i,
        {
            proof {
                assert(entries@.take(i as int + 1).drop_last() =~= entries@.take(i as int));
                assert(entries@.take(i as int + 1).last() == entries@[i as int]);
            }
            let room = &entries[i].1;
            if room.room_type == preferred && room.availability {
                recommended.push(room.clone());
                proof {
                    assert(recommended@ =~= matching_rooms(
                        entries@.take(i as int + 1),
                        preferred@,
                    ));
                }
            } else {
                proof {
                    assert(recommended@ =~= matching_rooms(
                        entries@.take(i as int + 1),
                        preferred@,
                    ));
                }
            }
            i += 1;
        }
        proof {
            assert(entries@.take(len as int) =~= entries@);
        }
        Ok(recommended)
    }
}

/// The full admission decision and commit, relating the state before a
/// `create_reservation` call, the state after it and the outcome.
pub open spec fn create_reservation_post(
    pre: Hotel,
    post: Hotel,
    p: ReservationPayload,
    now: u64,
    r: Result<Reservation, Error>,
) -> bool {
    if p.start_date >= p.end_date {
        &&& post == pre
        &&& r matches Err(e) && e is InvalidDateRange
    } else if p.start_date < now || p.end_date < now {
        &&& post == pre
        &&& r matches Err(e) && e is InvalidDateRange
    } else if !exists_available(pre.rooms@, room_type_of(pre.rooms@, p.room_id)) {
        &&& post == pre
        &&& r matches Err(e) && e is Overbooking
    } else if conflict_exists(pre.reservations@, p.room_id, p.start_date, p.end_date) {
        &&& post == pre
        &&& r matches Err(e) && e is RoomUnavailable
    } else {
        r matches Ok(res) && {
            &&& res == (Reservation {
                id: pre.next_id,
                guest_id: p.guest_id,
                room_id: p.room_id,
                start_date: p.start_date,
                end_date: p.end_date,
                created_at: now,
            })
            &&& post.reservations@ == pre.reservations@.insert(res.id, res)
            &&& post.rooms == pre.rooms
            &&& post.guests == pre.guests
            &&& allocates(pre, post, res.id)
        }
    }
}

/// The deletion decision: the reservation is removed and its room reconciled
/// to available, or nothing changes and `NotFound` says why.
pub open spec fn delete_reservation_post(
    pre: Hotel,
    post: Hotel,
    id: u64,
    r: Result<Reservation, Error>,
) -> bool {
    if pre.reservations@.contains_key(id) && pre.rooms@.contains_key(
        pre.reservations@[id].room_id,
    ) {
        r matches Ok(res) && {
            &&& res == pre.reservations@[id]
            &&& post.reservations@ == pre.reservations@.remove(id)
            &&& post.rooms@ == pre.rooms@.insert(
                res.room_id,
                set_availability(pre.rooms@[res.room_id], true),
            )
            &&& post.guests == pre.guests
            &&& post.next_id == pre.next_id
        }
    } else {
        &&& post == pre
        &&& r matches Err(e) && e is NotFound
    }
}

} // verus!
