use vstd::prelude::*;

use crate::app_error::AppError;
use crate::ids::{parse_identifier, parsed_uuid};

verus! {

/// A validated seat lookup: which screening of which showtime.
#[derive(Debug, Clone, Copy, PartialEq, Eq, Structural)]
pub struct SeatQuery {
    pub showtime_id: u128,
    pub showtime_room_id: i32,
}

/// A reservation marker: the seat is taken for that showtime and room.
#[derive(Debug, Clone)]
pub struct TakenSeat {
    pub showtime_id: u128,
    pub showtime_room_id: i32,
    pub seat_identifier: String,
}

/// Checks the identifiers of a seat lookup; the showtime id must be a UUID.
pub fn seat_query(showtime_id: &str, showtime_room_id: i32) -> (r: Result<SeatQuery, AppError>)
    ensures
        match parsed_uuid(showtime_id@) {
            Some(u) => r == Ok::<SeatQuery, AppError>(
                SeatQuery { showtime_id: u, showtime_room_id },
            ),
            None => (r matches Err(AppError::InvalidArgument { value }) && value@ == showtime_id@),
        },
{
    let id = parse_identifier(showtime_id)?;
    Ok(SeatQuery { showtime_id: id, showtime_room_id })
}

pub open spec fn is_for(query: SeatQuery, seat: TakenSeat) -> bool {
    seat.showtime_id == query.showtime_id && seat.showtime_room_id == query.showtime_room_id
}

/// The seat identifiers of the markers for the queried showtime and room, in
/// the order of the markers.
pub open spec fn seats_for(query: SeatQuery, taken: Seq<TakenSeat>) -> Seq<Seq<char>>
    decreases taken.len(),
{
    if taken.len() == 0 {
        Seq::empty()
    } else {
        let rest = seats_for(query, taken.drop_last());
        if is_for(query, taken.last()) {
            rest.push(taken.last().seat_identifier@)
        } else {
            rest
        }
    }
}

pub open spec fn string_views(v: Seq<String>) -> Seq<Seq<char>> {
    v.map_values(|s: String| s@)
}

/// The seats already taken for the queried showtime and room; none taken is
/// an empty list, not an error.
pub fn get_taken_seats(query: &SeatQuery, taken: &Vec<TakenSeat>) -> (r: Vec<String>)
    ensures
        string_views(r@) == seats_for(*query, taken@),
{
    let mut seats: Vec<String> = Vec::new();
    let mut i: usize = 0;
    assert(string_views(seats@) =~= Seq::<Seq<char>>::empty());
    while i < taken.len()
        invariant
            i <= taken@.len(),
            string_views(seats@) == seats_for(*query, taken@.take(i as int)),
        decreases taken@.len() - i,
    {
        assert(taken@.take(i + 1).drop_last() =~= taken@.take(i as int));
        let seat = &taken[i];
        if seat.showtime_id == query.showtime_id && seat.showtime_room_id
            == query.showtime_room_id {
            let ghost before = string_views(seats@);
            seats.push(seat.seat_identifier.clone());
            assert(string_views(seats@) =~= before.push(seat.seat_identifier@));
        }
        i = i + 1;
    }
    assert(taken@.take(i as int) =~= taken@);
    seats
}

} // verus!
