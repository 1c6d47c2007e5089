//! Read-side logic of a movie-theater booking service: grouping the flat
//! rows of a showtime query into showtimes, seat lookups, catalogue paging
//! and sorting, error classification and service settings.
pub mod app_error;
pub mod config;
pub mod grouping;
pub mod ids;
pub mod laws;
pub mod movies;
pub mod row;
pub mod seats;
pub mod showtime_model;
pub mod text;
pub mod theater_model;
pub mod timestamp;
