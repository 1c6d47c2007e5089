use vstd::prelude::*;

use crate::app_error::RowError;
use crate::grouping::{
    absorb_row, collect_members, grouped_showtimes, groups_of, has_room, has_theater,
    lemma_groups_wf, lemma_position_from, position_from, showtime_of_group, showtime_room_of_row,
    showtimes_from, theater_of_row, FieldPolicy,
};
use crate::row::Row;
use crate::showtime_model::{ShowtimeRoomView, ShowtimeView, TheaterView};

verus! {

/// No two theaters share an id, and no two screenings share an id.
pub open spec fn entries_distinct(ts: Seq<TheaterView>, rs: Seq<ShowtimeRoomView>) -> bool {
    &&& forall|a: int, b: int| 0 <= a < b < ts.len() ==> (#[trigger] ts[a]).id != (#[trigger] ts[b]).id
    &&& forall|a: int, b: int| 0 <= a < b < rs.len() ==> (#[trigger] rs[a]).id != (#[trigger] rs[b]).id
}

pub open spec fn showtime_entries_distinct(s: ShowtimeView) -> bool {
    entries_distinct(s.theaters, s.showtime_rooms)
}

pub proof fn lemma_collect_distinct(rows: Seq<Row>, members: Seq<usize>, policy: FieldPolicy)
    requires
        collect_members(rows, members, policy) is Ok,
    ensures
        entries_distinct(
            collect_members(rows, members, policy)->Ok_0.0,
            collect_members(rows, members, policy)->Ok_0.1,
        ),
    decreases members.len(),
{
    if members.len() > 0 {
        lemma_collect_distinct(rows, members.drop_last(), policy);
    }
}

/// Each showtime of a successful grouping comes from its group.
pub proof fn lemma_showtimes_from_ok(
    rows: Seq<Row>,
    gs: Seq<(Seq<char>, Seq<usize>)>,
    policy: FieldPolicy,
)
    requires
        showtimes_from(rows, gs, policy) is Ok,
    ensures
        showtimes_from(rows, gs, policy)->Ok_0.len() == gs.len(),
        forall|q: int|
            0 <= q < gs.len() ==> showtime_of_group(rows, (#[trigger] gs[q]).0, gs[q].1, policy)
                == Ok::<ShowtimeView, RowError>(showtimes_from(rows, gs, policy)->Ok_0[q]),
    decreases gs.len(),
{
    if gs.len() > 0 {
        let prev = gs.drop_last();
        lemma_showtimes_from_ok(rows, prev, policy);
        let v = showtimes_from(rows, gs, policy)->Ok_0;
        let pv = showtimes_from(rows, prev, policy)->Ok_0;
        assert forall|q: int| 0 <= q < gs.len() implies showtime_of_group(
            rows,
            (#[trigger] gs[q]).0,
            gs[q].1,
            policy,
        ) == Ok::<ShowtimeView, RowError>(v[q]) by {
            if q < gs.len() - 1 {
                assert(prev[q] == gs[q]);
                assert(v[q] == pv[q]);
            }
        }
    }
}

/// Within every showtime that grouping yields, theaters are unique by id and
/// screenings are unique by id, however often the rows repeat them.
pub proof fn lemma_grouping_deduplicates(
    rows: Seq<Row>,
    gs: Seq<(Seq<char>, Seq<usize>)>,
    policy: FieldPolicy,
)
    requires
        showtimes_from(rows, gs, policy) is Ok,
    ensures
        forall|q: int|
            0 <= q < showtimes_from(rows, gs, policy)->Ok_0.len() ==> showtime_entries_distinct(
                #[trigger] showtimes_from(rows, gs, policy)->Ok_0[q],
            ),
{
    lemma_showtimes_from_ok(rows, gs, policy);
    let v = showtimes_from(rows, gs, policy)->Ok_0;
    assert forall|q: int| 0 <= q < v.len() implies showtime_entries_distinct(#[trigger] v[q]) by {
        assert(showtime_of_group(rows, gs[q].0, gs[q].1, policy) == Ok::<ShowtimeView, RowError>(v[q]));
        lemma_collect_distinct(rows, gs[q].1, policy);
    }
}

pub open spec fn in_some_group(gs: Seq<(Seq<char>, Seq<usize>)>, m: int) -> bool {
    exists|p: int| 0 <= p < gs.len() && (#[trigger] gs[p]).1.contains(m as usize)
}

/// Every row belongs to a group.
pub proof fn lemma_groups_complete(rows: Seq<Row>)
    requires
        rows.len() <= usize::MAX,
    ensures
        forall|m: int| 0 <= m < rows.len() ==> #[trigger] in_some_group(groups_of(rows), m),
    decreases rows.len(),
{
    if rows.len() > 0 {
        let prev = rows.drop_last();
        lemma_groups_complete(prev);
        let gs = groups_of(prev);
        let ng = groups_of(rows);
        let key = rows.last().text_or_empty("id"@);
        let i = (rows.len() - 1) as usize;
        lemma_position_from(gs, key, 0);
        let p = position_from(gs, key, 0);
        assert forall|m: int| 0 <= m < rows.len() implies #[trigger] in_some_group(ng, m) by {
            if m < rows.len() - 1 {
                assert(in_some_group(gs, m));
                let home = choose|home: int| 0 <= home < gs.len() && (#[trigger] gs[home]).1.contains(
                    m as usize,
                );
                if home == p {
                    assert(ng[home].1 == gs[home].1.push(i));
                    let j = choose|j: int| 0 <= j < gs[home].1.len() && gs[home].1[j] == m as usize;
                    assert(ng[home].1[j] == m as usize);
                } else {
                    assert(ng[home] == gs[home]);
                }
                assert(ng[home].1.contains(m as usize));
            } else if p < gs.len() {
                assert(ng[p].1 == gs[p].1.push(i));
                assert(ng[p].1[ng[p].1.len() - 1] == i);
                assert(ng[p].1.contains(m as usize));
            } else {
                assert(ng[gs.len() as int].1 == seq![i]);
                assert(ng[gs.len() as int].1[0] == i);
                assert(ng[gs.len() as int].1.contains(m as usize));
            }
        }
    }
}

/// The group of row `k` is the one found by its key.
pub proof fn lemma_group_of_row(rows: Seq<Row>, k: int)
    requires
        rows.len() <= usize::MAX,
        0 <= k < rows.len(),
    ensures
        ({
            let gs = groups_of(rows);
            let p = position_from(gs, rows[k].text_or_empty("id"@), 0);
            0 <= p < gs.len() && gs[p].1.contains(k as usize)
        }),
{
    let gs = groups_of(rows);
    let key = rows[k].text_or_empty("id"@);
    lemma_groups_complete(rows);
    lemma_groups_wf(rows);
    lemma_position_from(gs, key, 0);
    assert(in_some_group(gs, k));
    let home = choose|home: int| 0 <= home < gs.len() && (#[trigger] gs[home]).1.contains(k as usize);
    let j = choose|j: int| 0 <= j < gs[home].1.len() && gs[home].1[j] == k as usize;
    assert(rows[gs[home].1[j] as int].text_or_empty("id"@) == gs[home].0);
    assert(gs[home].0 == key);
}

pub proof fn lemma_collect_frame(
    rows: Seq<Row>,
    extra: Row,
    members: Seq<usize>,
    policy: FieldPolicy,
)
    requires
        forall|j: int| 0 <= j < members.len() ==> (#[trigger] members[j]) < rows.len(),
    ensures
        collect_members(rows.push(extra), members, policy) == collect_members(rows, members, policy),
    decreases members.len(),
{
    if members.len() > 0 {
        lemma_collect_frame(rows, extra, members.drop_last(), policy);
        assert(rows.push(extra)[members.last() as int] == rows[members.last() as int]);
    }
}

/// What the rows at `members` leave in the gathered theaters and screenings.
pub open spec fn covers(
    ts: Seq<TheaterView>,
    rs: Seq<ShowtimeRoomView>,
    row: Row,
    i: usize,
    policy: FieldPolicy,
) -> bool {
    &&& theater_of_row(row, i, policy) is Ok
    &&& has_theater(ts, row.text_or_empty("t_id"@))
    &&& (row.unsigned("shr_id"@) matches Some(s) ==> has_room(rs, s))
}

pub proof fn lemma_collect_covers(rows: Seq<Row>, members: Seq<usize>, policy: FieldPolicy)
    requires
        collect_members(rows, members, policy) is Ok,
    ensures
        forall|j: int|
            0 <= j < members.len() ==> covers(
                collect_members(rows, members, policy)->Ok_0.0,
                collect_members(rows, members, policy)->Ok_0.1,
                rows[(#[trigger] members[j]) as int],
                members[j],
                policy,
            ),
    decreases members.len(),
{
    if members.len() > 0 {
        let prev = members.drop_last();
        lemma_collect_covers(rows, prev, policy);
        let (ts, rs) = collect_members(rows, prev, policy)->Ok_0;
        let (nts, nrs) = collect_members(rows, members, policy)->Ok_0;
        let m = members.last();
        let row = rows[m as int];
        let t = theater_of_row(row, m, policy)->Ok_0;
        assert(t.id == row.text_or_empty("t_id"@));
        assert(forall|id: Seq<char>| has_theater(ts, id) ==> has_theater(nts, id)) by {
            assert forall|id: Seq<char>| has_theater(ts, id) implies has_theater(nts, id) by {
                let w = choose|w: int| 0 <= w < ts.len() && (#[trigger] ts[w]).id == id;
                assert(nts[w] == ts[w]);
            }
        }
        assert(forall|id: u64| has_room(rs, id) ==> has_room(nrs, id)) by {
            assert forall|id: u64| has_room(rs, id) implies has_room(nrs, id) by {
                let w = choose|w: int| 0 <= w < rs.len() && (#[trigger] rs[w]).id == id;
                assert(nrs[w] == rs[w]);
            }
        }
        if !has_theater(ts, t.id) {
            assert(nts[ts.len() as int] == t);
        }
        assert(has_theater(nts, t.id));
        if let Some(s) = row.unsigned("shr_id"@) {
            if !has_room(rs, s) {
                assert(showtime_room_of_row(row, m, s)->Ok_0.id == s);
                assert(nrs[rs.len() as int].id == s);
            }
        }
        assert forall|j: int| 0 <= j < members.len() implies covers(
            nts,
            nrs,
            rows[(#[trigger] members[j]) as int],
            members[j],
            policy,
        ) by {
            if j < members.len() - 1 {
                assert(members[j] == prev[j]);
                assert(covers(ts, rs, rows[prev[j] as int], prev[j], policy));
            }
        }
    }
}

/// Two lists of groups that yield the same showtime at every position yield
/// the same result.
pub proof fn lemma_showtimes_congruent(
    rows1: Seq<Row>,
    gs1: Seq<(Seq<char>, Seq<usize>)>,
    rows2: Seq<Row>,
    gs2: Seq<(Seq<char>, Seq<usize>)>,
    policy: FieldPolicy,
)
    requires
        gs1.len() == gs2.len(),
        forall|q: int|
            0 <= q < gs1.len() ==> showtime_of_group(rows1, (#[trigger] gs1[q]).0, gs1[q].1, policy)
                == showtime_of_group(rows2, gs2[q].0, gs2[q].1, policy),
    ensures
        showtimes_from(rows1, gs1, policy) == showtimes_from(rows2, gs2, policy),
    decreases gs1.len(),
{
    if gs1.len() > 0 {
        let front1 = gs1.drop_last();
        let front2 = gs2.drop_last();
        assert forall|q: int| 0 <= q < front1.len() implies showtime_of_group(
            rows1,
            (#[trigger] front1[q]).0,
            front1[q].1,
            policy,
        ) == showtime_of_group(rows2, front2[q].0, front2[q].1, policy) by {
            assert(front1[q] == gs1[q]);
            assert(front2[q] == gs2[q]);
        }
        lemma_showtimes_congruent(rows1, front1, rows2, front2, policy);
        assert(gs1.last() == gs1[gs1.len() - 1]);
    }
}

/// A row that repeats the showtime id, the theater id and the screening id
/// of an earlier row, and whose theater columns the policy accepts wherever
/// it accepts the earlier row's, changes nothing in what grouping yields: no
/// theater or screening appears twice, and the entries already there keep the
/// fields of their first row.
pub proof fn lemma_repeated_row_changes_nothing(
    rows: Seq<Row>,
    k: int,
    extra: Row,
    policy: FieldPolicy,
)
    requires
        rows.len() < usize::MAX,
        0 <= k < rows.len(),
        extra.text_or_empty("id"@) == rows[k].text_or_empty("id"@),
        extra.text_or_empty("t_id"@) == rows[k].text_or_empty("t_id"@),
        extra.unsigned("shr_id"@) == rows[k].unsigned("shr_id"@),
        theater_of_row(rows[k], k as usize, policy) is Ok ==> theater_of_row(
            extra,
            rows.len() as usize,
            policy,
        ) is Ok,
    ensures
        grouped_showtimes(rows.push(extra), policy) == grouped_showtimes(rows, policy),
{
    let rows2 = rows.push(extra);
    let n = rows.len() as usize;
    let gs = groups_of(rows);
    let key = extra.text_or_empty("id"@);
    assert(rows2.drop_last() =~= rows);
    assert(rows2.last() == extra);
    lemma_group_of_row(rows, k);
    lemma_groups_wf(rows);
    let p = position_from(gs, key, 0);
    let ng = groups_of(rows2);
    let members = gs[p].1;
    assert(ng == gs.update(p, (key, members.push(n))));
    lemma_position_from(gs, key, 0);
    assert forall|q: int| 0 <= q < gs.len() implies showtime_of_group(
        rows2,
        (#[trigger] ng[q]).0,
        ng[q].1,
        policy,
    ) == showtime_of_group(rows, gs[q].0, gs[q].1, policy) by {
        let mq = gs[q].1;
        assert(forall|j: int| 0 <= j < mq.len() ==> (#[trigger] mq[j]) < rows.len());
        lemma_collect_frame(rows, extra, mq, policy);
        assert(rows2[mq[0] as int] == rows[mq[0] as int]);
        if q == p {
            let pm = members.push(n);
            assert(pm.drop_last() =~= members);
            assert(pm[0] == members[0]);
            assert(rows2[pm.last() as int] == extra);
            if collect_members(rows, members, policy) is Ok {
                lemma_collect_covers(rows, members, policy);
                let (ts, rs) = collect_members(rows, members, policy)->Ok_0;
                let j = choose|j: int| 0 <= j < members.len() && members[j] == k as usize;
                assert(covers(ts, rs, rows[members[j] as int], members[j], policy));
                assert(absorb_row(ts, rs, extra, n, policy) == Ok::<
                    (Seq<TheaterView>, Seq<ShowtimeRoomView>),
                    RowError,
                >((ts, rs)));
            }
            assert(collect_members(rows2, pm, policy) == collect_members(rows, members, policy));
        } else {
            assert(ng[q] == gs[q]);
        }
    }
    lemma_showtimes_congruent(rows2, ng, rows, gs, policy);
}

pub open spec fn theater_ids(ts: Seq<TheaterView>) -> Set<Seq<char>> {
    Set::new(|id: Seq<char>| has_theater(ts, id))
}

pub open spec fn room_ids(rs: Seq<ShowtimeRoomView>) -> Set<u64> {
    Set::new(|id: u64| has_room(rs, id))
}

pub open spec fn showtime_ids(v: Seq<ShowtimeView>) -> Set<Seq<char>> {
    Set::new(|key: Seq<char>| exists|q: int| 0 <= q < v.len() && (#[trigger] v[q]).id == key)
}

/// The keys of the rows.
pub open spec fn keys_of(rows: Seq<Row>) -> Set<Seq<char>> {
    Set::new(
        |key: Seq<char>|
            exists|m: int| 0 <= m < rows.len() && (#[trigger] rows[m]).text_or_empty("id"@) == key,
    )
}

/// The theater ids of the rows keyed `key`.
pub open spec fn theater_ids_for(rows: Seq<Row>, key: Seq<char>) -> Set<Seq<char>> {
    Set::new(
        |id: Seq<char>|
            exists|m: int|
                0 <= m < rows.len() && (#[trigger] rows[m]).text_or_empty("id"@) == key
                    && rows[m].text_or_empty("t_id"@) == id,
    )
}

/// The screening ids of the rows keyed `key`.
pub open spec fn room_ids_for(rows: Seq<Row>, key: Seq<char>) -> Set<u64> {
    Set::new(
        |id: u64|
            exists|m: int|
                0 <= m < rows.len() && (#[trigger] rows[m]).text_or_empty("id"@) == key
                    && rows[m].unsigned("shr_id"@) == Some(id),
    )
}

pub open spec fn member_theater(rows: Seq<Row>, members: Seq<usize>, id: Seq<char>) -> bool {
    exists|j: int|
        0 <= j < members.len() && rows[(#[trigger] members[j]) as int].text_or_empty("t_id"@) == id
}

pub open spec fn member_room(rows: Seq<Row>, members: Seq<usize>, id: u64) -> bool {
    exists|j: int|
        0 <= j < members.len() && rows[(#[trigger] members[j]) as int].unsigned("shr_id"@) == Some(
            id,
        )
}

/// Every theater and screening gathered comes from one of the rows.
pub proof fn lemma_collect_sources(rows: Seq<Row>, members: Seq<usize>, policy: FieldPolicy)
    requires
        collect_members(rows, members, policy) is Ok,
    ensures
        forall|w: int|
            0 <= w < collect_members(rows, members, policy)->Ok_0.0.len() ==> member_theater(
                rows,
                members,
                (#[trigger] collect_members(rows, members, policy)->Ok_0.0[w]).id,
            ),
        forall|w: int|
            0 <= w < collect_members(rows, members, policy)->Ok_0.1.len() ==> member_room(
                rows,
                members,
                (#[trigger] collect_members(rows, members, policy)->Ok_0.1[w]).id,
            ),
    decreases members.len(),
{
    if members.len() > 0 {
        let prev = members.drop_last();
        lemma_collect_sources(rows, prev, policy);
        let (ts, rs) = collect_members(rows, prev, policy)->Ok_0;
        let (nts, nrs) = collect_members(rows, members, policy)->Ok_0;
        let last = members.len() - 1;
        let m = members[last];
        let row = rows[m as int];
        assert(forall|id: Seq<char>| member_theater(rows, prev, id) ==> member_theater(rows, members, id)) by {
            assert forall|id: Seq<char>| member_theater(rows, prev, id) implies member_theater(rows, members, id) by {
                let j = choose|j: int| 0 <= j < prev.len() && rows[(#[trigger] prev[j]) as int].text_or_empty("t_id"@) == id;
                assert(members[j] == prev[j]);
            }
        }
        assert(forall|id: u64| member_room(rows, prev, id) ==> member_room(rows, members, id)) by {
            assert forall|id: u64| member_room(rows, prev, id) implies member_room(rows, members, id) by {
                let j = choose|j: int| 0 <= j < prev.len() && rows[(#[trigger] prev[j]) as int].unsigned("shr_id"@) == Some(id);
                assert(members[j] == prev[j]);
            }
        }
        assert forall|w: int| 0 <= w < nts.len() implies member_theater(rows, members, (#[trigger] nts[w]).id) by {
            if w < ts.len() {
                assert(nts[w] == ts[w]);
            } else {
                assert(rows[members[last] as int].text_or_empty("t_id"@) == nts[w].id);
            }
        }
        assert forall|w: int| 0 <= w < nrs.len() implies member_room(rows, members, (#[trigger] nrs[w]).id) by {
            if w < rs.len() {
                assert(nrs[w] == rs[w]);
            } else {
                let s = row.unsigned("shr_id"@)->Some_0;
                assert(showtime_room_of_row(row, m, s)->Ok_0.id == s);
                assert(rows[members[last] as int].unsigned("shr_id"@) == Some(nrs[w].id));
            }
        }
    }
}

/// The rows of the group at `q` are exactly the rows with its key.
pub proof fn lemma_group_members_exact(rows: Seq<Row>, q: int, m: int)
    requires
        rows.len() <= usize::MAX,
        0 <= q < groups_of(rows).len(),
        0 <= m < rows.len(),
    ensures
        groups_of(rows)[q].1.contains(m as usize) <==> rows[m].text_or_empty("id"@)
            == groups_of(rows)[q].0,
{
    let gs = groups_of(rows);
    lemma_groups_wf(rows);
    if gs[q].1.contains(m as usize) {
        let j = choose|j: int| 0 <= j < gs[q].1.len() && gs[q].1[j] == m as usize;
        assert(rows[gs[q].1[j] as int].text_or_empty("id"@) == gs[q].0);
    }
    if rows[m].text_or_empty("id"@) == gs[q].0 {
        lemma_group_of_row(rows, m);
        let p = position_from(gs, rows[m].text_or_empty("id"@), 0);
        lemma_position_from(gs, rows[m].text_or_empty("id"@), 0);
        assert(p == q);
    }
}

/// In a successful grouping, each showtime's theaters and screenings are
/// exactly those its rows name, and there is one showtime per distinct key.
pub proof fn lemma_entries_come_from_rows(rows: Seq<Row>, policy: FieldPolicy)
    requires
        rows.len() <= usize::MAX,
        grouped_showtimes(rows, policy) is Ok,
    ensures
        showtime_ids(grouped_showtimes(rows, policy)->Ok_0) == keys_of(rows),
        forall|q: int|
            0 <= q < grouped_showtimes(rows, policy)->Ok_0.len() ==> {
                let s = #[trigger] grouped_showtimes(rows, policy)->Ok_0[q];
                &&& theater_ids(s.theaters) == theater_ids_for(rows, s.id)
                &&& room_ids(s.showtime_rooms) == room_ids_for(rows, s.id)
            },
{
    let gs = groups_of(rows);
    let v = grouped_showtimes(rows, policy)->Ok_0;
    lemma_showtimes_from_ok(rows, gs, policy);
    lemma_groups_wf(rows);
    assert forall|q: int| 0 <= q < v.len() implies {
        let s = #[trigger] v[q];
        &&& theater_ids(s.theaters) == theater_ids_for(rows, s.id)
        &&& room_ids(s.showtime_rooms) == room_ids_for(rows, s.id)
    } by {
        let s = v[q];
        let members = gs[q].1;
        assert(showtime_of_group(rows, gs[q].0, members, policy) == Ok::<ShowtimeView, RowError>(s));
        assert(s.id == gs[q].0);
        let (ts, rs) = collect_members(rows, members, policy)->Ok_0;
        assert(s.theaters == ts && s.showtime_rooms == rs);
        lemma_collect_covers(rows, members, policy);
        lemma_collect_sources(rows, members, policy);
        assert forall|id: Seq<char>| theater_ids(ts).contains(id) <==> theater_ids_for(rows, s.id).contains(id) by {
            if has_theater(ts, id) {
                let w = choose|w: int| 0 <= w < ts.len() && (#[trigger] ts[w]).id == id;
                assert(member_theater(rows, members, ts[w].id));
                let j = choose|j: int| 0 <= j < members.len() && rows[(#[trigger] members[j]) as int].text_or_empty("t_id"@) == id;
                let m = members[j] as int;
                assert(members.contains(members[j]));
                lemma_group_members_exact(rows, q, m);
                assert(rows[m].text_or_empty("id"@) == s.id);
            }
            if theater_ids_for(rows, s.id).contains(id) {
                let m = choose|m: int| 0 <= m < rows.len() && (#[trigger] rows[m]).text_or_empty("id"@) == s.id && rows[m].text_or_empty("t_id"@) == id;
                lemma_group_members_exact(rows, q, m);
                let j = choose|j: int| 0 <= j < members.len() && members[j] == m as usize;
                assert(covers(ts, rs, rows[(members[j]) as int], members[j], policy));
            }
        }
        assert(theater_ids(ts) =~= theater_ids_for(rows, s.id));
        assert forall|id: u64| room_ids(rs).contains(id) <==> room_ids_for(rows, s.id).contains(id) by {
            if has_room(rs, id) {
                let w = choose|w: int| 0 <= w < rs.len() && (#[trigger] rs[w]).id == id;
                assert(member_room(rows, members, rs[w].id));
                let j = choose|j: int| 0 <= j < members.len() && rows[(#[trigger] members[j]) as int].unsigned("shr_id"@) == Some(id);
                let m = members[j] as int;
                assert(members.contains(members[j]));
                lemma_group_members_exact(rows, q, m);
            }
            if room_ids_for(rows, s.id).contains(id) {
                let m = choose|m: int| 0 <= m < rows.len() && (#[trigger] rows[m]).text_or_empty("id"@) == s.id && rows[m].unsigned("shr_id"@) == Some(id);
                lemma_group_members_exact(rows, q, m);
                let j = choose|j: int| 0 <= j < members.len() && members[j] == m as usize;
                assert(covers(ts, rs, rows[(members[j]) as int], members[j], policy));
            }
        }
        assert(room_ids(rs) =~= room_ids_for(rows, s.id));
    }
    assert forall|key: Seq<char>| showtime_ids(v).contains(key) <==> keys_of(rows).contains(key) by {
        if showtime_ids(v).contains(key) {
            let q = choose|q: int| 0 <= q < v.len() && (#[trigger] v[q]).id == key;
            assert(showtime_of_group(rows, gs[q].0, gs[q].1, policy) == Ok::<ShowtimeView, RowError>(v[q]));
            let m = gs[q].1[0] as int;
            assert(rows[m].text_or_empty("id"@) == gs[q].0);
        }
        if keys_of(rows).contains(key) {
            let m = choose|m: int| 0 <= m < rows.len() && (#[trigger] rows[m]).text_or_empty("id"@) == key;
            lemma_group_of_row(rows, m);
            let p = position_from(gs, key, 0);
            lemma_position_from(gs, key, 0);
            assert(showtime_of_group(rows, gs[p].0, gs[p].1, policy) == Ok::<ShowtimeView, RowError>(v[p]));
            assert(v[p].id == key);
        }
    }
    assert(showtime_ids(v) =~= keys_of(rows));
}

/// Rows that are a reordering of each other hold the same rows.
pub proof fn lemma_reordered_rows_agree(rows1: Seq<Row>, rows2: Seq<Row>, pred: spec_fn(Row) -> bool)
    requires
        rows1.to_multiset() == rows2.to_multiset(),
    ensures
        (exists|m: int| 0 <= m < rows1.len() && pred(#[trigger] rows1[m])) <==> (exists|m: int|
            0 <= m < rows2.len() && pred(#[trigger] rows2[m])),
{
    rows1.to_multiset_ensures();
    rows2.to_multiset_ensures();
    if exists|m: int| 0 <= m < rows1.len() && pred(#[trigger] rows1[m]) {
        let m = choose|m: int| 0 <= m < rows1.len() && pred(#[trigger] rows1[m]);
        assert(rows1.contains(rows1[m]));
        assert(rows1.to_multiset().count(rows1[m]) > 0);
        assert(rows2.to_multiset().count(rows1[m]) > 0);
        assert(rows2.contains(rows1[m]));
        let i = choose|i: int| 0 <= i < rows2.len() && rows2[i] == rows1[m];
        assert(pred(rows2[i]));
    }
    if exists|m: int| 0 <= m < rows2.len() && pred(#[trigger] rows2[m]) {
        let m = choose|m: int| 0 <= m < rows2.len() && pred(#[trigger] rows2[m]);
        assert(rows2.contains(rows2[m]));
        assert(rows2.to_multiset().count(rows2[m]) > 0);
        assert(rows1.to_multiset().count(rows2[m]) > 0);
        assert(rows1.contains(rows2[m]));
        let i = choose|i: int| 0 <= i < rows1.len() && rows1[i] == rows2[m];
        assert(pred(rows1[i]));
    }
}

/// Reordering the input rows does not change which showtimes come out, nor
/// which theater ids and screening ids each showtime holds, whenever
/// grouping succeeds on both orders.  (Which row supplies a theater's or a
/// screening's other fields may differ.)
pub proof fn lemma_row_order_keeps_entries(
    rows1: Seq<Row>,
    rows2: Seq<Row>,
    policy: FieldPolicy,
)
    requires
        rows1.len() <= usize::MAX,
        rows2.len() <= usize::MAX,
        rows1.to_multiset() == rows2.to_multiset(),
        grouped_showtimes(rows1, policy) is Ok,
        grouped_showtimes(rows2, policy) is Ok,
    ensures
        showtime_ids(grouped_showtimes(rows1, policy)->Ok_0) == showtime_ids(
            grouped_showtimes(rows2, policy)->Ok_0,
        ),
        forall|q1: int, q2: int|
            0 <= q1 < grouped_showtimes(rows1, policy)->Ok_0.len() && 0 <= q2
                < grouped_showtimes(rows2, policy)->Ok_0.len() && (#[trigger] grouped_showtimes(
                rows1,
                policy,
            )->Ok_0[q1]).id == (#[trigger] grouped_showtimes(rows2, policy)->Ok_0[q2]).id ==> {
                let s1 = grouped_showtimes(rows1, policy)->Ok_0[q1];
                let s2 = grouped_showtimes(rows2, policy)->Ok_0[q2];
                &&& theater_ids(s1.theaters) == theater_ids(s2.theaters)
                &&& room_ids(s1.showtime_rooms) == room_ids(s2.showtime_rooms)
            },
{
    let v1 = grouped_showtimes(rows1, policy)->Ok_0;
    let v2 = grouped_showtimes(rows2, policy)->Ok_0;
    lemma_entries_come_from_rows(rows1, policy);
    lemma_entries_come_from_rows(rows2, policy);
    assert forall|key: Seq<char>| keys_of(rows1).contains(key) <==> keys_of(rows2).contains(key) by {
        lemma_reordered_rows_agree(rows1, rows2, |r: Row| r.text_or_empty("id"@) == key);
    }
    assert(keys_of(rows1) =~= keys_of(rows2));
    assert forall|key: Seq<char>| theater_ids_for(rows1, key) == theater_ids_for(rows2, key) by {
        assert forall|id: Seq<char>| theater_ids_for(rows1, key).contains(id) <==> theater_ids_for(
            rows2,
            key,
        ).contains(id) by {
            lemma_reordered_rows_agree(
                rows1,
                rows2,
                |r: Row| r.text_or_empty("id"@) == key && r.text_or_empty("t_id"@) == id,
            );
        }
        assert(theater_ids_for(rows1, key) =~= theater_ids_for(rows2, key));
    }
    assert forall|key: Seq<char>| room_ids_for(rows1, key) == room_ids_for(rows2, key) by {
        assert forall|id: u64| room_ids_for(rows1, key).contains(id) <==> room_ids_for(
            rows2,
            key,
        ).contains(id) by {
            lemma_reordered_rows_agree(
                rows1,
                rows2,
                |r: Row| r.text_or_empty("id"@) == key && r.unsigned("shr_id"@) == Some(id),
            );
        }
        assert(room_ids_for(rows1, key) =~= room_ids_for(rows2, key));
    }
    assert forall|q1: int, q2: int|
        0 <= q1 < v1.len() && 0 <= q2 < v2.len() && (#[trigger] v1[q1]).id == (#[trigger] v2[q2]).id implies {
            &&& theater_ids(v1[q1].theaters) == theater_ids(v2[q2].theaters)
            &&& room_ids(v1[q1].showtime_rooms) == room_ids(v2[q2].showtime_rooms)
        } by {
        assert(theater_ids(v1[q1].theaters) == theater_ids_for(rows1, v1[q1].id));
        assert(theater_ids(v2[q2].theaters) == theater_ids_for(rows2, v2[q2].id));
        assert(room_ids(v1[q1].showtime_rooms) == room_ids_for(rows1, v1[q1].id));
        assert(room_ids(v2[q2].showtime_rooms) == room_ids_for(rows2, v2[q2].id));
    }
}

/// Feeding a row a second time changes nothing in what grouping yields.
pub proof fn lemma_duplicated_row_changes_nothing(rows: Seq<Row>, k: int, policy: FieldPolicy)
    requires
        rows.len() < usize::MAX,
        0 <= k < rows.len(),
    ensures
        grouped_showtimes(rows.push(rows[k]), policy) == grouped_showtimes(rows, policy),
{
    lemma_repeated_row_changes_nothing(rows, k, rows[k], policy);
}

/// Feeding the first `j` rows a second time changes nothing in what grouping
/// yields.
pub proof fn lemma_repeated_prefix_changes_nothing(rows: Seq<Row>, j: int, policy: FieldPolicy)
    requires
        0 <= j <= rows.len(),
        rows.len() + j <= usize::MAX,
    ensures
        grouped_showtimes(rows + rows.take(j), policy) == grouped_showtimes(rows, policy),
    decreases j,
{
    if j == 0 {
        assert(rows + rows.take(0) =~= rows);
    } else {
        lemma_repeated_prefix_changes_nothing(rows, j - 1, policy);
        let front = rows + rows.take(j - 1);
        assert(front[j - 1] == rows[j - 1]);
        lemma_duplicated_row_changes_nothing(front, j - 1, policy);
        assert(front.push(rows[j - 1]) =~= rows + rows.take(j));
    }
}

/// Feeding every row twice changes nothing in what grouping yields.
pub proof fn lemma_doubled_rows_change_nothing(rows: Seq<Row>, policy: FieldPolicy)
    requires
        2 * rows.len() <= usize::MAX,
    ensures
        grouped_showtimes(rows + rows, policy) == grouped_showtimes(rows, policy),
{
    lemma_repeated_prefix_changes_nothing(rows, rows.len() as int, policy);
    assert(rows.take(rows.len() as int) =~= rows);
}

} // verus!
