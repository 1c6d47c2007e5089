use vstd::prelude::*;

use crate::row::Number;
use crate::timestamp::Timestamp;

verus! {

/// One scheduled screening of a showtime in one room.
#[derive(Debug, Clone)]
pub struct ShowtimeRoom {
    pub id: u64,
    pub time: Timestamp,
    /// In the smallest unit of the currency.
    pub price: u32,
    pub room_id: String,
    pub room_name: String,
}

/// The movie a showtime screens.
#[derive(Debug, Clone)]
pub struct Movie {
    pub id: String,
    pub title: String,
    pub rating: Number,
    pub genre: String,
    pub poster_url: String,
}

#[derive(Debug, Clone)]
pub struct Theater {
    pub id: String,
    pub name: String,
    pub location: String,
}

/// A showtime with its movie, its screenings and the theaters they are in.
#[derive(Debug, Clone)]
pub struct Showtime {
    pub id: String,
    pub created_at: Timestamp,
    pub updated_at: Timestamp,
    pub movie: Movie,
    pub showtime_rooms: Vec<ShowtimeRoom>,
    pub theaters: Vec<Theater>,
}

pub struct ShowtimeRoomView {
    pub id: u64,
    pub time: Timestamp,
    pub price: u32,
    pub room_id: Seq<char>,
    pub room_name: Seq<char>,
}

pub struct MovieView {
    pub id: Seq<char>,
    pub title: Seq<char>,
    pub rating: Number,
    pub genre: Seq<char>,
    pub poster_url: Seq<char>,
}

pub struct TheaterView {
    pub id: Seq<char>,
    pub name: Seq<char>,
    pub location: Seq<char>,
}

pub struct ShowtimeView {
    pub id: Seq<char>,
    pub created_at: Timestamp,
    pub updated_at: Timestamp,
    pub movie: MovieView,
    pub showtime_rooms: Seq<ShowtimeRoomView>,
    pub theaters: Seq<TheaterView>,
}

impl View for ShowtimeRoom {
    type V = ShowtimeRoomView;

    open spec fn view(&self) -> ShowtimeRoomView {
        ShowtimeRoomView {
            id: self.id,
            time: self.time,
            price: self.price,
            room_id: self.room_id@,
            room_name: self.room_name@,
        }
    }
}

impl View for Movie {
    type V = MovieView;

    open spec fn view(&self) -> MovieView {
        MovieView {
            id: self.id@,
            title: self.title@,
            rating: self.rating,
            genre: self.genre@,
            poster_url: self.poster_url@,
        }
    }
}

impl View for Theater {
    type V = TheaterView;

    open spec fn view(&self) -> TheaterView {
        TheaterView { id: self.id@, name: self.name@, location: self.location@ }
    }
}

pub open spec fn room_views(rooms: Seq<ShowtimeRoom>) -> Seq<ShowtimeRoomView> {
    rooms.map_values(|r: ShowtimeRoom| r@)
}

pub open spec fn theater_views(theaters: Seq<Theater>) -> Seq<TheaterView> {
    theaters.map_values(|t: Theater| t@)
}

impl View for Showtime {
    type V = ShowtimeView;

    open spec fn view(&self) -> ShowtimeView {
        ShowtimeView {
            id: self.id@,
            created_at: self.created_at,
            updated_at: self.updated_at,
            movie: self.movie@,
            showtime_rooms: room_views(self.showtime_rooms@),
            theaters: theater_views(self.theaters@),
        }
    }
}

pub open spec fn showtime_views(showtimes: Seq<Showtime>) -> Seq<ShowtimeView> {
    showtimes.map_values(|s: Showtime| s@)
}

} // verus!
