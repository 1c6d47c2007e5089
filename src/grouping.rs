use vstd::prelude::*;

use crate::app_error::{AppError, RowError, RowField};
use crate::laws::{lemma_grouping_deduplicates, showtime_entries_distinct};
use crate::row::{Number, Row};
use crate::showtime_model::{
    room_views, showtime_views, theater_views, Movie, MovieView, Showtime, ShowtimeRoom,
    ShowtimeRoomView, ShowtimeView, Theater, TheaterView,
};
use crate::timestamp::{parse_timestamp, parsed_timestamp};

verus! {

/// How strictly the theater columns (`t_id`, `t_name`, `t_location`) of a
/// row are read.  The showtime-room and timestamp columns are always strict.
#[derive(Debug, Clone, Copy, PartialEq, Eq, Structural)]
pub enum FieldPolicy {
    /// A missing theater column reads as the empty string.
    Lenient,
    /// A missing theater column fails the whole operation.
    Strict,
}

/// The rows of one showtime: its id and the positions of its rows in the
/// input, in input order.
#[derive(Debug, Clone)]
pub struct RowGroup {
    pub key: String,
    pub members: Vec<usize>,
}

pub open spec fn group_view(g: RowGroup) -> (Seq<char>, Seq<usize>) {
    (g.key@, g.members@)
}

pub open spec fn group_views(gs: Seq<RowGroup>) -> Seq<(Seq<char>, Seq<usize>)> {
    gs.map_values(|g: RowGroup| group_view(g))
}

/// The grouping key of a row: its `id` column, when that holds a string.
pub open spec fn row_key(row: Row) -> Option<Seq<char>> {
    row.text("id"@)
}

/// Row `i` is the first row without a key.
pub open spec fn first_keyless(rows: Seq<Row>, i: int) -> bool {
    &&& 0 <= i < rows.len()
    &&& row_key(rows[i]) is None
    &&& forall|j: int| 0 <= j < i ==> (#[trigger] row_key(rows[j])) is Some
}

pub open spec fn keys_present(rows: Seq<Row>) -> bool {
    forall|i: int| 0 <= i < rows.len() ==> (#[trigger] row_key(rows[i])) is Some
}

/// The first position from `i` on of the group keyed `key`, or the number of
/// groups when there is none.
pub open spec fn position_from(gs: Seq<(Seq<char>, Seq<usize>)>, key: Seq<char>, i: int) -> int
    decreases gs.len() - i,
{
    if i < 0 || i >= gs.len() {
        gs.len() as int
    } else if gs[i].0 == key {
        i
    } else {
        position_from(gs, key, i + 1)
    }
}

/// The rows partitioned by key: one group per distinct key, in the order in
/// which the keys are first seen, each listing its rows' positions in order.
pub open spec fn groups_of(rows: Seq<Row>) -> Seq<(Seq<char>, Seq<usize>)>
    decreases rows.len(),
{
    if rows.len() == 0 {
        Seq::empty()
    } else {
        let gs = groups_of(rows.drop_last());
        let key = rows.last().text_or_empty("id"@);
        let i = (rows.len() - 1) as usize;
        let p = position_from(gs, key, 0);
        if p < gs.len() {
            gs.update(p, (key, gs[p].1.push(i)))
        } else {
            gs.push((key, seq![i]))
        }
    }
}

/// Keys pairwise distinct, every group non-empty, every member a position
/// of `rows` whose row has the group's key, members strictly increasing.
pub open spec fn groups_wf(rows: Seq<Row>, gs: Seq<(Seq<char>, Seq<usize>)>) -> bool {
    &&& forall|p: int, q: int|
        0 <= p < gs.len() && 0 <= q < gs.len() && p != q ==> (#[trigger] gs[p]).0 != (
        #[trigger] gs[q]).0
    &&& forall|p: int| 0 <= p < gs.len() ==> (#[trigger] gs[p]).1.len() > 0
    &&& forall|p: int, j: int|
        0 <= p < gs.len() && 0 <= j < gs[p].1.len() ==> {
            &&& (#[trigger] gs[p].1[j]) < rows.len()
            &&& rows[gs[p].1[j] as int].text_or_empty("id"@) == gs[p].0
        }
    &&& forall|p: int, j: int, l: int|
        0 <= p < gs.len() && 0 <= j < l < gs[p].1.len() ==> (#[trigger] gs[p].1[j]) < (
        #[trigger] gs[p].1[l])
}

pub proof fn lemma_position_from(gs: Seq<(Seq<char>, Seq<usize>)>, key: Seq<char>, i: int)
    requires
        0 <= i <= gs.len(),
    ensures
        i <= position_from(gs, key, i) <= gs.len(),
        position_from(gs, key, i) < gs.len() ==> gs[position_from(gs, key, i)].0 == key,
        forall|j: int| i <= j < position_from(gs, key, i) ==> gs[j].0 != key,
    decreases gs.len() - i,
{
    if i < gs.len() && gs[i].0 != key {
        lemma_position_from(gs, key, i + 1);
    }
}

pub proof fn lemma_groups_wf(rows: Seq<Row>)
    requires
        rows.len() <= usize::MAX,
    ensures
        groups_wf(rows, groups_of(rows)),
    decreases rows.len(),
{
    if rows.len() > 0 {
        let prev = rows.drop_last();
        lemma_groups_wf(prev);
        let gs = groups_of(prev);
        let key = rows.last().text_or_empty("id"@);
        let i = (rows.len() - 1) as usize;
        lemma_position_from(gs, key, 0);
        let p = position_from(gs, key, 0);
        let ng = groups_of(rows);
        assert forall|q: int, j: int| 0 <= q < gs.len() && 0 <= j < gs[q].1.len() implies
            (#[trigger] gs[q].1[j]) < i && rows[gs[q].1[j] as int] == prev[gs[q].1[j] as int] by {
            assert(gs[q].1[j] < prev.len());
        }
        if p < gs.len() {
            assert forall|j: int| 0 <= j < ng[p].1.len() implies (#[trigger] ng[p].1[j]) < rows.len()
                && rows[ng[p].1[j] as int].text_or_empty("id"@) == ng[p].0 by {
                if j < gs[p].1.len() {
                    assert(ng[p].1[j] == gs[p].1[j]);
                }
            }
            assert forall|j: int, l: int| 0 <= j < l < ng[p].1.len() implies (#[trigger] ng[p].1[j])
                < (#[trigger] ng[p].1[l]) by {
                assert(ng[p].1[j] == gs[p].1[j]);
                if l < gs[p].1.len() {
                    assert(ng[p].1[l] == gs[p].1[l]);
                }
            }
        } else {
            assert(ng[gs.len() as int].1 == seq![i]);
        }
    }
}

/// Partitions the rows by their `id` column; fails on the first row whose
/// `id` is missing or not a string.
pub fn group_rows(rows: &Vec<Row>) -> (r: Result<Vec<RowGroup>, RowError>)
    ensures
        match r {
            Ok(gs) => keys_present(rows@) && group_views(gs@) == groups_of(rows@),
            Err(e) => e.field == RowField::Id && first_keyless(rows@, e.row as int),
        },
{
    let mut groups: Vec<RowGroup> = Vec::new();
    let mut i: usize = 0;
    while i < rows.len()
        invariant
            i <= rows@.len(),
            forall|j: int| 0 <= j < i ==> (#[trigger] row_key(rows@[j])) is Some,
            group_views(groups@) == groups_of(rows@.take(i as int)),
        decreases rows@.len() - i,
    {
        let key = match rows[i].get_text("id") {
            Some(k) => k,
            None => {
                return Err(RowError { field: RowField::Id, row: i });
            },
        };
        let ghost gv = group_views(groups@);
        assert(rows@.take(i + 1).drop_last() =~= rows@.take(i as int));
        proof {
            lemma_position_from(gv, key@, 0);
        }
        let mut p: usize = 0;
        while p < groups.len()
            invariant
                p <= groups@.len(),
                gv == group_views(groups@),
                position_from(gv, key@, 0) == position_from(gv, key@, p as int),
            ensures
                p < groups@.len() ==> gv[p as int].0 == key@,
            decreases groups@.len() - p,
        {
            if groups[p].key == *key {
                break;
            }
            p = p + 1;
        }
        if p < groups.len() {
            let ghost before = groups@;
            groups[p].members.push(i);
            assert(groups@[p as int].key == before[p as int].key);
            assert(groups@[p as int].members@ == before[p as int].members@.push(i));
            assert(forall|q: int| 0 <= q < before.len() && q != p ==> groups@[q] == before[q]);
            assert(group_views(groups@) =~= gv.update(p as int, (key@, gv[p as int].1.push(i))));
        } else {
            let mut members: Vec<usize> = Vec::new();
            members.push(i);
            assert(members@ =~= seq![i]);
            groups.push(RowGroup { key: key.clone(), members });
            assert(group_views(groups@) =~= gv.push((key@, seq![i])));
        }
        i = i + 1;
    }
    assert(rows@.take(i as int) =~= rows@);
    Ok(groups)
}

/// The format of a screening's `shr_time` column.
pub open spec fn room_time_format() -> Seq<char> {
    "%Y-%m-%dT%H:%M:%S"@
}

/// The format of the `created_at` and `updated_at` columns.
pub open spec fn stamp_format() -> Seq<char> {
    "%Y-%m-%dT%H:%M:%S%.f"@
}

/// The theater that row `i` names.  Under the lenient policy a missing
/// column reads as the empty string; under the strict one it is an error.
pub open spec fn theater_of_row(row: Row, i: usize, policy: FieldPolicy) -> Result<
    TheaterView,
    RowError,
> {
    let t = TheaterView {
        id: row.text_or_empty("t_id"@),
        name: row.text_or_empty("t_name"@),
        location: row.text_or_empty("t_location"@),
    };
    if policy == FieldPolicy::Strict && row.text("t_id"@) is None {
        Err(RowError { field: RowField::TId, row: i })
    } else if policy == FieldPolicy::Strict && row.text("t_name"@) is None {
        Err(RowError { field: RowField::TName, row: i })
    } else if policy == FieldPolicy::Strict && row.text("t_location"@) is None {
        Err(RowError { field: RowField::TLocation, row: i })
    } else {
        Ok(t)
    }
}

/// The screening with id `id` that row `i` describes; each of its columns is
/// required.
pub open spec fn showtime_room_of_row(row: Row, i: usize, id: u64) -> Result<
    ShowtimeRoomView,
    RowError,
> {
    let fail = |field: RowField| RowError { field, row: i };
    match row.text("shr_time"@) {
        None => Err(fail(RowField::ShrTime)),
        Some(time_text) => match row.signed("shr_price"@) {
            None => Err(fail(RowField::ShrPrice)),
            Some(price) => match parsed_timestamp(time_text, room_time_format()) {
                None => Err(fail(RowField::ShrTime)),
                Some(time) => match row.text("shr_room_id"@) {
                    None => Err(fail(RowField::ShrRoomId)),
                    Some(room_id) => match row.text("shr_room_name"@) {
                        None => Err(fail(RowField::ShrRoomName)),
                        Some(room_name) => Ok(
                            ShowtimeRoomView { id, time, price: price as u32, room_id, room_name },
                        ),
                    },
                },
            },
        },
    }
}

pub open spec fn has_theater(ts: Seq<TheaterView>, id: Seq<char>) -> bool {
    exists|j: int| 0 <= j < ts.len() && (#[trigger] ts[j]).id == id
}

pub open spec fn has_room(rs: Seq<ShowtimeRoomView>, id: u64) -> bool {
    exists|j: int| 0 <= j < rs.len() && (#[trigger] rs[j]).id == id
}

/// Adds row `i` to the theaters and screenings gathered so far: its theater
/// unless one with that id is there, its screening (when `shr_id` holds one)
/// unless one with that id is there.  Only what is added is read strictly.
pub open spec fn absorb_row(
    ts: Seq<TheaterView>,
    rs: Seq<ShowtimeRoomView>,
    row: Row,
    i: usize,
    policy: FieldPolicy,
) -> Result<(Seq<TheaterView>, Seq<ShowtimeRoomView>), RowError> {
    match theater_of_row(row, i, policy) {
        Err(e) => Err(e),
        Ok(t) => {
            let ts2 = if has_theater(ts, t.id) {
                ts
            } else {
                ts.push(t)
            };
            match row.unsigned("shr_id"@) {
                None => Ok((ts2, rs)),
                Some(id) => if has_room(rs, id) {
                    Ok((ts2, rs))
                } else {
                    match showtime_room_of_row(row, i, id) {
                        Err(e) => Err(e),
                        Ok(r) => Ok((ts2, rs.push(r))),
                    }
                },
            }
        },
    }
}

/// The theaters and screenings of the rows at `members`, taken in order.
pub open spec fn collect_members(rows: Seq<Row>, members: Seq<usize>, policy: FieldPolicy) -> Result<
    (Seq<TheaterView>, Seq<ShowtimeRoomView>),
    RowError,
>
    decreases members.len(),
{
    if members.len() == 0 {
        Ok((Seq::empty(), Seq::empty()))
    } else {
        match collect_members(rows, members.drop_last(), policy) {
            Err(e) => Err(e),
            Ok((ts, rs)) => absorb_row(ts, rs, rows[members.last() as int], members.last(), policy),
        }
    }
}

pub proof fn lemma_collect_error_stays(
    rows: Seq<Row>,
    members: Seq<usize>,
    k: int,
    policy: FieldPolicy,
)
    requires
        0 <= k <= members.len(),
        collect_members(rows, members.take(k), policy) is Err,
    ensures
        collect_members(rows, members, policy) == collect_members(rows, members.take(k), policy),
    decreases members.len() - k,
{
    if k < members.len() {
        assert(members.take(k + 1).drop_last() =~= members.take(k));
        lemma_collect_error_stays(rows, members, k + 1, policy);
    } else {
        assert(members.take(k) =~= members);
    }
}

/// The movie columns of a row; a missing one reads as the empty string, a
/// missing rating as zero.
pub open spec fn movie_of_row(row: Row) -> MovieView {
    MovieView {
        id: row.text_or_empty("m_id"@),
        title: row.text_or_empty("m_title"@),
        rating: match row.number("m_rating"@) {
            Some(n) => n,
            None => Number::Float(0),
        },
        genre: row.text_or_empty("m_genre"@),
        poster_url: row.text_or_empty("m_poster_url"@),
    }
}

/// The showtime of the group keyed `key` with rows at `members`: the first
/// row supplies the timestamps and the movie, all rows the theaters and
/// screenings.
pub open spec fn showtime_of_group(
    rows: Seq<Row>,
    key: Seq<char>,
    members: Seq<usize>,
    policy: FieldPolicy,
) -> Result<ShowtimeView, RowError> {
    let first = members[0];
    let row = rows[first as int];
    let fail = |field: RowField| RowError { field, row: first };
    match collect_members(rows, members, policy) {
        Err(e) => Err(e),
        Ok((theaters, showtime_rooms)) => match row.text("created_at"@) {
            None => Err(fail(RowField::CreatedAt)),
            Some(created) => match row.text("updated_at"@) {
                None => Err(fail(RowField::UpdatedAt)),
                Some(updated) => match parsed_timestamp(created, stamp_format()) {
                    None => Err(fail(RowField::CreatedAt)),
                    Some(created_at) => match parsed_timestamp(updated, stamp_format()) {
                        None => Err(fail(RowField::UpdatedAt)),
                        Some(updated_at) => Ok(
                            ShowtimeView {
                                id: key,
                                created_at,
                                updated_at,
                                movie: movie_of_row(row),
                                showtime_rooms,
                                theaters,
                            },
                        ),
                    },
                },
            },
        },
    }
}

/// The showtimes of the groups in order, or the first error met.
pub open spec fn showtimes_from(
    rows: Seq<Row>,
    gs: Seq<(Seq<char>, Seq<usize>)>,
    policy: FieldPolicy,
) -> Result<Seq<ShowtimeView>, RowError>
    decreases gs.len(),
{
    if gs.len() == 0 {
        Ok(Seq::empty())
    } else {
        match showtimes_from(rows, gs.drop_last(), policy) {
            Err(e) => Err(e),
            Ok(v) => match showtime_of_group(rows, gs.last().0, gs.last().1, policy) {
                Err(e) => Err(e),
                Ok(s) => Ok(v.push(s)),
            },
        }
    }
}

/// What grouping makes of rows that all carry their key.
pub open spec fn grouped_showtimes(rows: Seq<Row>, policy: FieldPolicy) -> Result<
    Seq<ShowtimeView>,
    RowError,
> {
    showtimes_from(rows, groups_of(rows), policy)
}

pub proof fn lemma_showtimes_error_stays(
    rows: Seq<Row>,
    gs: Seq<(Seq<char>, Seq<usize>)>,
    k: int,
    policy: FieldPolicy,
)
    requires
        0 <= k <= gs.len(),
        showtimes_from(rows, gs.take(k), policy) is Err,
    ensures
        showtimes_from(rows, gs, policy) == showtimes_from(rows, gs.take(k), policy),
    decreases gs.len() - k,
{
    if k < gs.len() {
        assert(gs.take(k + 1).drop_last() =~= gs.take(k));
        lemma_showtimes_error_stays(rows, gs, k + 1, policy);
    } else {
        assert(gs.take(k) =~= gs);
    }
}

fn theater_from_row(row: &Row, i: usize, policy: FieldPolicy) -> (r: Result<Theater, RowError>)
    ensures
        match r {
            Ok(t) => theater_of_row(*row, i, policy) == Ok::<TheaterView, RowError>(t@),
            Err(e) => theater_of_row(*row, i, policy) == Err::<TheaterView, RowError>(e),
        },
{
    if policy == FieldPolicy::Strict {
        if row.get_text("t_id").is_none() {
            return Err(RowError { field: RowField::TId, row: i });
        }
        if row.get_text("t_name").is_none() {
            return Err(RowError { field: RowField::TName, row: i });
        }
        if row.get_text("t_location").is_none() {
            return Err(RowError { field: RowField::TLocation, row: i });
        }
    }
    Ok(
        Theater {
            id: row.get_text_or_empty("t_id"),
            name: row.get_text_or_empty("t_name"),
            location: row.get_text_or_empty("t_location"),
        },
    )
}

fn showtime_room_from_row(row: &Row, i: usize, id: u64) -> (r: Result<ShowtimeRoom, RowError>)
    ensures
        match r {
            Ok(s) => showtime_room_of_row(*row, i, id) == Ok::<ShowtimeRoomView, RowError>(s@),
            Err(e) => showtime_room_of_row(*row, i, id) == Err::<ShowtimeRoomView, RowError>(e),
        },
{
    let time_text = match row.get_text("shr_time") {
        Some(t) => t,
        None => return Err(RowError { field: RowField::ShrTime, row: i }),
    };
    let price = match row.get_signed("shr_price") {
        Some(p) => p,
        None => return Err(RowError { field: RowField::ShrPrice, row: i }),
    };
    let time = match parse_timestamp(time_text.as_str(), "%Y-%m-%dT%H:%M:%S") {
        Some(t) => t,
        None => return Err(RowError { field: RowField::ShrTime, row: i }),
    };
    let room_id = match row.get_text("shr_room_id") {
        Some(r) => r.clone(),
        None => return Err(RowError { field: RowField::ShrRoomId, row: i }),
    };
    let room_name = match row.get_text("shr_room_name") {
        Some(r) => r.clone(),
        None => return Err(RowError { field: RowField::ShrRoomName, row: i }),
    };
    Ok(ShowtimeRoom { id, time, price: price as u32, room_id, room_name })
}

fn find_theater(ts: &Vec<Theater>, id: &String) -> (r: bool)
    ensures
        r == has_theater(theater_views(ts@), id@),
{
    let mut j: usize = 0;
    while j < ts.len()
        invariant
            j <= ts@.len(),
            forall|l: int| 0 <= l < j ==> ts@[l].id@ != id@,
        decreases ts@.len() - j,
    {
        if ts[j].id == *id {
            assert(theater_views(ts@)[j as int].id == id@);
            return true;
        }
        j = j + 1;
    }
    false
}

fn find_room(rs: &Vec<ShowtimeRoom>, id: u64) -> (r: bool)
    ensures
        r == has_room(room_views(rs@), id),
{
    let mut j: usize = 0;
    while j < rs.len()
        invariant
            j <= rs@.len(),
            forall|l: int| 0 <= l < j ==> rs@[l].id != id,
        decreases rs@.len() - j,
    {
        if rs[j].id == id {
            assert(room_views(rs@)[j as int].id == id);
            return true;
        }
        j = j + 1;
    }
    false
}

/// The deduplicated theaters and screenings of the rows at `members`.
fn collect_group(rows: &Vec<Row>, members: &Vec<usize>, policy: FieldPolicy) -> (r: Result<
    (Vec<Theater>, Vec<ShowtimeRoom>),
    RowError,
>)
    requires
        forall|j: int| 0 <= j < members@.len() ==> (#[trigger] members@[j]) < rows@.len(),
    ensures
        match r {
            Ok((ts, rs)) => collect_members(rows@, members@, policy) == Ok::<
                (Seq<TheaterView>, Seq<ShowtimeRoomView>),
                RowError,
            >((theater_views(ts@), room_views(rs@))),
            Err(e) => collect_members(rows@, members@, policy) == Err::<
                (Seq<TheaterView>, Seq<ShowtimeRoomView>),
                RowError,
            >(e),
        },
{
    let mut ts: Vec<Theater> = Vec::new();
    let mut rs: Vec<ShowtimeRoom> = Vec::new();
    let mut k: usize = 0;
    assert(theater_views(ts@) =~= Seq::<TheaterView>::empty());
    assert(room_views(rs@) =~= Seq::<ShowtimeRoomView>::empty());
    assert(members@.take(0) =~= Seq::<usize>::empty());
    while k < members.len()
        invariant
            k <= members@.len(),
            forall|j: int| 0 <= j < members@.len() ==> (#[trigger] members@[j]) < rows@.len(),
            collect_members(rows@, members@.take(k as int), policy) == Ok::<
                (Seq<TheaterView>, Seq<ShowtimeRoomView>),
                RowError,
            >((theater_views(ts@), room_views(rs@))),
        decreases members@.len() - k,
    {
        let i = members[k];
        let row = &rows[i];
        assert(members@.take(k + 1).drop_last() =~= members@.take(k as int));
        let t = match theater_from_row(row, i, policy) {
            Ok(t) => t,
            Err(e) => {
                proof {
                    lemma_collect_error_stays(rows@, members@, k + 1, policy);
                }
                return Err(e);
            },
        };
        let ghost tv0 = theater_views(ts@);
        let ghost rv0 = room_views(rs@);
        if !find_theater(&ts, &t.id) {
            ts.push(t);
            assert(theater_views(ts@) =~= tv0.push(t@));
        }
        match row.get_unsigned("shr_id") {
            Some(id) => {
                if !find_room(&rs, id) {
                    match showtime_room_from_row(row, i, id) {
                        Ok(s) => {
                            rs.push(s);
                            assert(room_views(rs@) =~= rv0.push(s@));
                        },
                        Err(e) => {
                            proof {
                                lemma_collect_error_stays(rows@, members@, k + 1, policy);
                            }
                            return Err(e);
                        },
                    }
                }
            },
            None => {},
        }
        k = k + 1;
    }
    assert(members@.take(k as int) =~= members@);
    Ok((ts, rs))
}

fn movie_from_row(row: &Row) -> (r: Movie)
    ensures
        r@ == movie_of_row(*row),
{
    Movie {
        id: row.get_text_or_empty("m_id"),
        title: row.get_text_or_empty("m_title"),
        rating: match row.get_number("m_rating") {
            Some(n) => n,
            None => Number::Float(0),
        },
        genre: row.get_text_or_empty("m_genre"),
        poster_url: row.get_text_or_empty("m_poster_url"),
    }
}

/// Builds the showtime of one group of rows.
pub fn build_showtime(rows: &Vec<Row>, group: &RowGroup, policy: FieldPolicy) -> (r: Result<
    Showtime,
    RowError,
>)
    requires
        group.members@.len() > 0,
        forall|j: int|
            0 <= j < group.members@.len() ==> (#[trigger] group.members@[j]) < rows@.len(),
    ensures
        match r {
            Ok(s) => showtime_of_group(rows@, group.key@, group.members@, policy) == Ok::<
                ShowtimeView,
                RowError,
            >(s@),
            Err(e) => showtime_of_group(rows@, group.key@, group.members@, policy) == Err::<
                ShowtimeView,
                RowError,
            >(e),
        },
{
    let (theaters, showtime_rooms) = match collect_group(rows, &group.members, policy) {
        Ok(c) => c,
        Err(e) => return Err(e),
    };
    let first = group.members[0];
    let row = &rows[first];
    let created = match row.get_text("created_at") {
        Some(c) => c,
        None => return Err(RowError { field: RowField::CreatedAt, row: first }),
    };
    let updated = match row.get_text("updated_at") {
        Some(u) => u,
        None => return Err(RowError { field: RowField::UpdatedAt, row: first }),
    };
    let created_at = match parse_timestamp(created.as_str(), "%Y-%m-%dT%H:%M:%S%.f") {
        Some(t) => t,
        None => return Err(RowError { field: RowField::CreatedAt, row: first }),
    };
    let updated_at = match parse_timestamp(updated.as_str(), "%Y-%m-%dT%H:%M:%S%.f") {
        Some(t) => t,
        None => return Err(RowError { field: RowField::UpdatedAt, row: first }),
    };
    Ok(
        Showtime {
            id: group.key.clone(),
            created_at,
            updated_at,
            movie: movie_from_row(row),
            showtime_rooms,
            theaters,
        },
    )
}

/// Groups flat result rows into showtimes, one per distinct `id`, in the
/// order in which the ids are first seen, reading the theater columns under
/// `policy`.
///
/// Fails with `MalformedRow` on the first row without an `id`; otherwise on
/// the first group, and within it the first row, whose strictly read columns
/// are missing or unparseable.  Nothing is returned in part.
pub fn map_showtime_with_policy(query_results: &Vec<Row>, policy: FieldPolicy) -> (r: Result<
    Vec<Showtime>,
    AppError,
>)
    ensures
        query_results@.len() == 0 ==> (r matches Ok(v) && v@.len() == 0),
        r matches Ok(out) ==> forall|q: int|
            0 <= q < out@.len() ==> showtime_entries_distinct(#[trigger] out@[q]@),
        !keys_present(query_results@) ==> (r matches Err(AppError::MalformedRow { field, row })
            && field == RowField::Id && first_keyless(query_results@, row as int)),
        keys_present(query_results@) ==> match grouped_showtimes(query_results@, policy) {
            Ok(v) => (r matches Ok(out) && showtime_views(out@) == v),
            Err(e) => (r matches Err(AppError::MalformedRow { field, row }) && field == e.field
                && row == e.row),
        },
{
    let groups = match group_rows(query_results) {
        Ok(g) => g,
        Err(e) => return Err(AppError::from(e)),
    };
    let ghost gs = groups_of(query_results@);
    let row_count = query_results.len();
    proof {
        assert(query_results@.len() == row_count);
        lemma_groups_wf(query_results@);
    }
    let mut out: Vec<Showtime> = Vec::new();
    let mut k: usize = 0;
    assert(gs.take(0) =~= Seq::<(Seq<char>, Seq<usize>)>::empty());
    assert(showtime_views(out@) =~= Seq::<ShowtimeView>::empty());
    while k < groups.len()
        invariant
            k <= groups@.len(),
            keys_present(query_results@),
            group_views(groups@) == gs,
            gs == groups_of(query_results@),
            groups_wf(query_results@, gs),
            showtimes_from(query_results@, gs.take(k as int), policy) == Ok::<
                Seq<ShowtimeView>,
                RowError,
            >(showtime_views(out@)),
        decreases groups@.len() - k,
    {
        let ghost g = gs[k as int];
        assert(group_view(groups@[k as int]) == g);
        assert(gs.take(k + 1).drop_last() =~= gs.take(k as int));
        assert(forall|j: int|
            0 <= j < groups@[k as int].members@.len() ==> #[trigger] groups@[k as int].members@[j]
                == g.1[j]);
        let s = match build_showtime(query_results, &groups[k], policy) {
            Ok(s) => s,
            Err(e) => {
                proof {
                    lemma_showtimes_error_stays(query_results@, gs, k + 1, policy);
                }
                return Err(AppError::from(e));
            },
        };
        let ghost before = showtime_views(out@);
        out.push(s);
        assert(showtime_views(out@) =~= before.push(s@));
        k = k + 1;
    }
    assert(gs.take(k as int) =~= gs);
    proof {
        lemma_grouping_deduplicates(query_results@, gs, policy);
        assert forall|q: int| 0 <= q < out@.len() implies showtime_entries_distinct(
            #[trigger] out@[q]@,
        ) by {
            let v = showtimes_from(query_results@, gs, policy)->Ok_0;
            assert(v == showtime_views(out@));
            assert(v[q] == out@[q]@);
            assert(showtime_entries_distinct(v[q]));
        }
    }
    Ok(out)
}

/// Groups flat result rows into showtimes, reading the theater columns
/// leniently.
pub fn map_showtime(query_results: Vec<Row>) -> (r: Result<Vec<Showtime>, AppError>)
    ensures
        query_results@.len() == 0 ==> (r matches Ok(v) && v@.len() == 0),
        r matches Ok(out) ==> forall|q: int|
            0 <= q < out@.len() ==> showtime_entries_distinct(#[trigger] out@[q]@),
        !keys_present(query_results@) ==> (r matches Err(AppError::MalformedRow { field, row })
            && field == RowField::Id && first_keyless(query_results@, row as int)),
        keys_present(query_results@) ==> match grouped_showtimes(
            query_results@,
            FieldPolicy::Lenient,
        ) {
            Ok(v) => (r matches Ok(out) && showtime_views(out@) == v),
            Err(e) => (r matches Err(AppError::MalformedRow { field, row }) && field == e.field
                && row == e.row),
        },
{
    map_showtime_with_policy(&query_results, FieldPolicy::Lenient)
}

} // verus!
