use movie_booking::app_error::{AppError, RowError, RowField};
use movie_booking::grouping::{build_showtime, group_rows, map_showtime, map_showtime_with_policy, FieldPolicy, RowGroup};
use movie_booking::row::{Field, Number, Row, Scalar};
use movie_booking::showtime_model::Showtime;

fn text(s: &str) -> Scalar {
    Scalar::Text(s.to_string())
}

fn integer(n: i128) -> Scalar {
    Scalar::Number(Number::Integer(n))
}

fn row(cols: Vec<(&str, Scalar)>) -> Row {
    Row {
        fields: cols
            .into_iter()
            .map(|(name, value)| Field { name: name.to_string(), value })
            .collect(),
    }
}

const STAMP: &str = "2024-01-01T10:00:00.000000";

/// A complete row of showtime `id` in theater `t_id`, screening `shr_id`.
fn full_row(id: &str, shr_id: i128, t_id: &str) -> Row {
    row(vec![
        ("id", text(id)),
        ("created_at", text(STAMP)),
        ("updated_at", text(STAMP)),
        ("m_id", text("M1")),
        ("m_title", text("Dune")),
        ("m_rating", Scalar::Number(Number::Float(8.5f64.to_bits()))),
        ("m_genre", text("Sci-Fi")),
        ("m_poster_url", text("u")),
        ("shr_id", integer(shr_id)),
        ("shr_time", text("2024-01-02T18:30:00")),
        ("shr_price", integer(1500)),
        ("shr_room_id", text("R1")),
        ("shr_room_name", text("Room 1")),
        ("t_id", text(t_id)),
        ("t_name", text("Cineplex")),
        ("t_location", text("Downtown")),
    ])
}

fn without(mut r: Row, name: &str) -> Row {
    r.fields.retain(|f| f.name != name);
    r
}

fn with(mut r: Row, name: &str, value: Scalar) -> Row {
    r.fields.retain(|f| f.name != name);
    r.fields.push(Field { name: name.to_string(), value });
    r
}

fn theater_ids(s: &Showtime) -> Vec<String> {
    let mut v: Vec<String> = s.theaters.iter().map(|t| t.id.clone()).collect();
    v.sort();
    v
}

fn room_ids(s: &Showtime) -> Vec<u64> {
    let mut v: Vec<u64> = s.showtime_rooms.iter().map(|r| r.id).collect();
    v.sort();
    v
}

fn malformed(r: Result<Vec<Showtime>, AppError>) -> (RowField, usize) {
    match r {
        Err(AppError::MalformedRow { field, row }) => (field, row),
        other => panic!("expected MalformedRow, got {:?}", other),
    }
}

#[test]
fn two_rooms_one_theater() {
    let rows = vec![full_row("S1", 1, "T1"), full_row("S1", 2, "T1")];
    let out = map_showtime(rows).unwrap();
    assert_eq!(out.len(), 1);
    let s = &out[0];
    assert_eq!(s.id, "S1");
    assert_eq!(theater_ids(s), vec!["T1".to_string()]);
    assert_eq!(s.theaters[0].name, "Cineplex");
    assert_eq!(s.theaters[0].location, "Downtown");
    assert_eq!(room_ids(s), vec![1, 2]);
    assert_eq!(s.movie.id, "M1");
    assert_eq!(s.movie.title, "Dune");
    assert_eq!(s.movie.genre, "Sci-Fi");
    assert_eq!(s.movie.poster_url, "u");
    assert_eq!(s.movie.rating, Number::Float(8.5f64.to_bits()));
}

#[test]
fn timestamps_are_parsed() {
    let out = map_showtime(vec![full_row("S1", 1, "T1")]).unwrap();
    let s = &out[0];
    assert_eq!((s.created_at.year, s.created_at.month, s.created_at.day), (2024, 1, 1));
    assert_eq!((s.created_at.hour, s.created_at.minute, s.created_at.second), (10, 0, 0));
    assert_eq!(s.created_at.nanosecond, 0);
    assert_eq!(s.updated_at, s.created_at);
    let room = &s.showtime_rooms[0];
    assert_eq!((room.time.year, room.time.month, room.time.day), (2024, 1, 2));
    assert_eq!((room.time.hour, room.time.minute, room.time.second), (18, 30, 0));
    assert_eq!(room.price, 1500);
    assert_eq!(room.room_id, "R1");
    assert_eq!(room.room_name, "Room 1");
}

#[test]
fn fractional_seconds_are_kept() {
    let r = with(full_row("S1", 1, "T1"), "created_at", text("2024-03-05T07:08:09.250000"));
    let out = map_showtime(vec![r]).unwrap();
    assert_eq!(out[0].created_at.nanosecond, 250_000_000);
    assert_eq!(out[0].created_at.second, 9);
}

#[test]
fn fraction_of_a_second_is_optional() {
    let r = with(full_row("S1", 1, "T1"), "updated_at", text("2024-03-05T07:08:09"));
    let out = map_showtime(vec![r]).unwrap();
    assert_eq!(out[0].updated_at.second, 9);
    assert_eq!(out[0].updated_at.nanosecond, 0);
}

#[test]
fn empty_input_gives_empty_output() {
    assert_eq!(map_showtime(vec![]).unwrap().len(), 0);
    assert_eq!(map_showtime_with_policy(&vec![], FieldPolicy::Strict).unwrap().len(), 0);
}

#[test]
fn missing_id_is_malformed() {
    let rows = vec![full_row("S1", 1, "T1"), without(full_row("S1", 2, "T1"), "id"), full_row("S2", 3, "T1")];
    assert_eq!(malformed(map_showtime(rows)), (RowField::Id, 1));
}

#[test]
fn non_string_id_is_malformed() {
    let rows = vec![with(full_row("S1", 1, "T1"), "id", integer(7))];
    assert_eq!(malformed(map_showtime(rows)), (RowField::Id, 0));
}

#[test]
fn missing_id_wins_over_later_errors() {
    let rows = vec![without(full_row("S1", 1, "T1"), "created_at"), without(full_row("S2", 2, "T1"), "id")];
    assert_eq!(malformed(map_showtime(rows)), (RowField::Id, 1));
}

#[test]
fn first_row_without_created_at_is_malformed() {
    let rows = vec![
        without(full_row("S1", 1, "T1"), "created_at"),
        full_row("S1", 2, "T1"),
        full_row("S1", 3, "T1"),
    ];
    assert_eq!(malformed(map_showtime(rows)), (RowField::CreatedAt, 0));
}

#[test]
fn later_row_without_created_at_is_fine() {
    let rows = vec![full_row("S1", 1, "T1"), without(full_row("S1", 2, "T1"), "created_at")];
    assert_eq!(map_showtime(rows).unwrap().len(), 1);
}

#[test]
fn missing_updated_at_is_malformed() {
    let rows = vec![full_row("S0", 9, "T9"), without(full_row("S1", 1, "T1"), "updated_at")];
    assert_eq!(malformed(map_showtime(rows)), (RowField::UpdatedAt, 1));
}

#[test]
fn unparseable_timestamps_are_malformed() {
    let bad_created = with(full_row("S1", 1, "T1"), "created_at", text("yesterday"));
    assert_eq!(malformed(map_showtime(vec![bad_created])), (RowField::CreatedAt, 0));
    let bad_updated = with(full_row("S1", 1, "T1"), "updated_at", text("2024-01-01 10:00"));
    assert_eq!(malformed(map_showtime(vec![bad_updated])), (RowField::UpdatedAt, 0));
    let bad_time = with(full_row("S1", 1, "T1"), "shr_time", text("2024-13-01T10:00:00"));
    assert_eq!(malformed(map_showtime(vec![bad_time])), (RowField::ShrTime, 0));
}

#[test]
fn showtime_room_columns_are_strict() {
    let cases = [
        ("shr_time", RowField::ShrTime),
        ("shr_price", RowField::ShrPrice),
        ("shr_room_id", RowField::ShrRoomId),
        ("shr_room_name", RowField::ShrRoomName),
    ];
    for (name, field) in cases {
        let rows = vec![full_row("S1", 1, "T1"), without(full_row("S1", 2, "T1"), name)];
        assert_eq!(malformed(map_showtime(rows)), (field, 1));
    }
}

#[test]
fn price_must_be_an_integer() {
    let r = with(full_row("S1", 1, "T1"), "shr_price", text("15.00"));
    assert_eq!(malformed(map_showtime(vec![r])), (RowField::ShrPrice, 0));
}

#[test]
fn repeated_room_is_not_read_again() {
    let rows = vec![full_row("S1", 1, "T1"), without(full_row("S1", 1, "T1"), "shr_price")];
    let out = map_showtime(rows).unwrap();
    assert_eq!(room_ids(&out[0]), vec![1]);
}

#[test]
fn row_without_room_adds_only_its_theater() {
    let rows = vec![full_row("S1", 1, "T1"), with(without(full_row("S1", 1, "T2"), "shr_time"), "shr_id", Scalar::Null)];
    let out = map_showtime(rows).unwrap();
    assert_eq!(theater_ids(&out[0]), vec!["T1".to_string(), "T2".to_string()]);
    assert_eq!(room_ids(&out[0]), vec![1]);
}

#[test]
fn negative_room_id_counts_as_absent() {
    let rows = vec![with(full_row("S1", 1, "T1"), "shr_id", integer(-4))];
    let out = map_showtime(rows).unwrap();
    assert_eq!(out[0].showtime_rooms.len(), 0);
}

#[test]
fn duplicate_rows_give_one_entry_each() {
    let rows = vec![full_row("S1", 1, "T1"), full_row("S1", 1, "T1"), full_row("S1", 1, "T1")];
    let out = map_showtime(rows).unwrap();
    assert_eq!(out.len(), 1);
    assert_eq!(out[0].theaters.len(), 1);
    assert_eq!(out[0].showtime_rooms.len(), 1);
}

#[test]
fn first_row_wins_for_theater_fields() {
    let rows = vec![full_row("S1", 1, "T1"), with(full_row("S1", 2, "T1"), "t_name", text("Other"))];
    let out = map_showtime(rows).unwrap();
    assert_eq!(out[0].theaters.len(), 1);
    assert_eq!(out[0].theaters[0].name, "Cineplex");
}

#[test]
fn row_order_keeps_entries() {
    let a = vec![full_row("S1", 1, "T1"), full_row("S2", 2, "T2"), full_row("S1", 3, "T3"), full_row("S1", 1, "T1")];
    let b = vec![full_row("S1", 3, "T3"), full_row("S1", 1, "T1"), full_row("S2", 2, "T2"), full_row("S1", 1, "T1")];
    let out_a = map_showtime(a).unwrap();
    let out_b = map_showtime(b).unwrap();
    assert_eq!(out_a.len(), 2);
    assert_eq!(out_b.len(), 2);
    for sa in &out_a {
        let sb = out_b.iter().find(|s| s.id == sa.id).unwrap();
        assert_eq!(theater_ids(sa), theater_ids(sb));
        assert_eq!(room_ids(sa), room_ids(sb));
    }
}

#[test]
fn groups_follow_first_seen_order() {
    let rows = vec![full_row("S2", 1, "T1"), full_row("S1", 2, "T1"), full_row("S2", 3, "T1")];
    let out = map_showtime(rows).unwrap();
    let ids: Vec<&str> = out.iter().map(|s| s.id.as_str()).collect();
    assert_eq!(ids, vec!["S2", "S1"]);
    assert_eq!(room_ids(&out[0]), vec![1, 3]);
}

#[test]
fn theater_columns_are_lenient_by_default() {
    let rows = vec![without(without(without(full_row("S1", 1, "T1"), "t_id"), "t_name"), "t_location")];
    let out = map_showtime(rows).unwrap();
    assert_eq!(out[0].theaters.len(), 1);
    assert_eq!(out[0].theaters[0].id, "");
    assert_eq!(out[0].theaters[0].name, "");
    assert_eq!(out[0].theaters[0].location, "");
}

#[test]
fn strict_policy_refuses_missing_theater_columns() {
    let cases = [("t_id", RowField::TId), ("t_name", RowField::TName), ("t_location", RowField::TLocation)];
    for (name, field) in cases {
        let rows = vec![full_row("S1", 1, "T1"), without(full_row("S1", 2, "T2"), name)];
        assert_eq!(malformed(map_showtime_with_policy(&rows, FieldPolicy::Strict)), (field, 1));
    }
    let ok = vec![full_row("S1", 1, "T1")];
    assert_eq!(map_showtime_with_policy(&ok, FieldPolicy::Strict).unwrap().len(), 1);
}

#[test]
fn missing_movie_columns_read_as_defaults() {
    let r = without(without(full_row("S1", 1, "T1"), "m_title"), "m_rating");
    let out = map_showtime(vec![r]).unwrap();
    assert_eq!(out[0].movie.title, "");
    assert_eq!(out[0].movie.rating, Number::Float(0));
    let r2 = with(full_row("S1", 1, "T1"), "m_rating", integer(8));
    assert_eq!(map_showtime(vec![r2]).unwrap()[0].movie.rating, Number::Integer(8));
}

#[test]
fn group_rows_lists_positions() {
    let rows = vec![full_row("A", 1, "T"), full_row("B", 2, "T"), full_row("A", 3, "T")];
    let groups = group_rows(&rows).unwrap();
    assert_eq!(groups.len(), 2);
    assert_eq!(groups[0].key, "A");
    assert_eq!(groups[0].members, vec![0, 2]);
    assert_eq!(groups[1].key, "B");
    assert_eq!(groups[1].members, vec![1]);
    let bad = vec![full_row("A", 1, "T"), without(full_row("B", 2, "T"), "id")];
    assert_eq!(group_rows(&bad).unwrap_err(), RowError { field: RowField::Id, row: 1 });
}

#[test]
fn build_showtime_uses_first_member() {
    let rows = vec![full_row("A", 1, "T"), without(full_row("A", 2, "T"), "created_at")];
    let group = RowGroup { key: "A".to_string(), members: vec![1, 0] };
    assert_eq!(
        build_showtime(&rows, &group, FieldPolicy::Lenient).unwrap_err(),
        RowError { field: RowField::CreatedAt, row: 1 }
    );
    let group2 = RowGroup { key: "A".to_string(), members: vec![0, 1] };
    let s = build_showtime(&rows, &group2, FieldPolicy::Lenient).unwrap();
    assert_eq!(room_ids(&s), vec![1, 2]);
}

#[test]
fn doubled_input_gives_same_showtimes() {
    let rows = vec![full_row("S1", 1, "T1"), full_row("S2", 2, "T2"), full_row("S1", 3, "T3")];
    let mut doubled = rows.clone();
    doubled.extend(rows.clone());
    let once = map_showtime(rows).unwrap();
    let twice = map_showtime(doubled).unwrap();
    assert_eq!(once.len(), twice.len());
    for (a, b) in once.iter().zip(twice.iter()) {
        assert_eq!(a.id, b.id);
        assert_eq!(a.theaters.len(), b.theaters.len());
        assert_eq!(a.showtime_rooms.len(), b.showtime_rooms.len());
        assert_eq!(theater_ids(a), theater_ids(b));
        assert_eq!(room_ids(a), room_ids(b));
    }
}
