//! A hotel-operations record store: rooms, guests and reservations kept in
//! ordered id-keyed tables, with reservation admission control that rejects
//! ill-formed date ranges, exhausted room-type inventory and overlapping
//! bookings before anything is committed.

pub mod calendar;
pub mod hotel;
pub mod laws;
pub mod store;
pub mod types;

pub use calendar::get_timestamp;
pub use calendar::is_peak_season;
pub use hotel::Hotel;
pub use store::Store;

pub use types::Error;
pub use types::Guest;
pub use types::GuestPayload;
pub use types::Reservation;
pub use types::ReservationPayload;
pub use types::Room;
pub use types::RoomPayload;
