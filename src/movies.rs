use vstd::prelude::*;

use crate::app_error::AppError;

verus! {

/// A movie of the catalogue.
#[derive(Debug, Clone)]
pub struct Movie {
    pub id: String,
    pub title: String,
    pub overview: String,
    /// The rating, as the bit pattern of an IEEE 754 single-precision number.
    pub rating: u32,
    pub genre: String,
    pub poster_url: String,
}

/// Where a page of the catalogue stands.
#[derive(Debug, Clone, Copy, PartialEq, Eq, Structural)]
pub struct Info {
    pub current_page: u64,
    pub total_page: u64,
}

#[derive(Debug, Clone, Copy, PartialEq, Eq, Structural)]
pub enum SortOrder {
    Asc,
    Desc,
}

/// A column to sort by and the direction.
#[derive(Debug, Clone)]
pub struct SortTuple(pub String, pub SortOrder);

/// The columns the catalogue can be sorted by.
#[derive(Debug, Clone, Copy, PartialEq, Eq, Structural)]
pub enum SortColumn {
    Id,
    Title,
    Overview,
    Genre,
    Rating,
}

/// Paging and sorting of a catalogue request.
#[derive(Debug, Clone)]
pub struct GetMoviesQueryParams {
    pub limit: u64,
    pub page: u64,
    pub sort_options: SortTuple,
}

pub fn get_default_limit() -> (r: u64)
    ensures
        r == 10,
{
    10
}

pub fn get_default_page() -> (r: u64)
    ensures
        r == 1,
{
    1
}

/// Sorting by rating, highest first.
pub fn get_default_sort_options() -> (r: SortTuple)
    ensures
        r.0@ == "rating"@,
        r.1 == SortOrder::Desc,
{
    SortTuple(String::from_str("rating"), SortOrder::Desc)
}

pub open spec fn order_named(direction: Seq<char>) -> Option<SortOrder> {
    if direction == "asc"@ {
        Some(SortOrder::Asc)
    } else if direction == "desc"@ {
        Some(SortOrder::Desc)
    } else {
        None
    }
}

/// `asc` or `desc`; anything else is refused.
pub fn parse_direction(direction: &str) -> (r: Option<SortOrder>)
    ensures
        r == order_named(direction@),
{
    if crate::text::same_text(direction, "asc") {
        Some(SortOrder::Asc)
    } else if crate::text::same_text(direction, "desc") {
        Some(SortOrder::Desc)
    } else {
        None
    }
}

/// `s` holds exactly one `-`, at position `i`.
pub open spec fn single_dash_at(s: Seq<char>, i: int) -> bool {
    &&& 0 <= i < s.len()
    &&& s[i] == '-'
    &&& forall|j: int| 0 <= j < s.len() && j != i ==> s[j] != '-'
}

/// Reads sort options written `column-direction`, such as `title-asc`.  On
/// failure the error holds the offending text: the whole input when it does
/// not hold exactly one `-` or the column is empty, else the direction.
pub fn parse_sort_tuple(v: &str) -> (r: Result<SortTuple, String>)
    ensures
        (forall|i: int| !single_dash_at(v@, i)) ==> (r matches Err(e) && e@ == v@),
        forall|i: int|
            single_dash_at(v@, i) ==> {
                let column = v@.take(i);
                let direction = v@.skip(i + 1);
                if column.len() == 0 {
                    r matches Err(e) && e@ == v@
                } else {
                    match order_named(direction) {
                        Some(o) => (r matches Ok(t) && t.0@ == column && t.1 == o),
                        None => (r matches Err(e) && e@ == direction),
                    }
                }
            },
{
    let n = v.unicode_len();
    let mut dashes: usize = 0;
    let mut at: usize = 0;
    let mut k: usize = 0;
    while k < n
        invariant
            n == v@.len(),
            k <= n,
            dashes <= k,
            dashes == 0 ==> forall|j: int| 0 <= j < k ==> v@[j] != '-',
            dashes == 1 ==> single_dash_at(v@.take(k as int), at as int),
            dashes >= 2 ==> exists|a: int, b: int|
                0 <= a < b < k && v@[a] == '-' && v@[b] == '-',
        decreases n - k,
    {
        if v.get_char(k) == '-' {
            if dashes == 0 {
                at = k;
            }
            if dashes < 2 {
                dashes = dashes + 1;
            }
        }
        k = k + 1;
    }
    if dashes != 1 {
        assert forall|i: int| !single_dash_at(v@, i) by {
            if single_dash_at(v@, i) {
                if dashes == 0 {
                    assert(v@[i] == '-');
                } else {
                    let (a, b) = choose|a: int, b: int|
                        0 <= a < b < n && v@[a] == '-' && v@[b] == '-';
                    assert(a == i && b == i);
                }
            }
        }
        return Err(v.to_string());
    }
    assert(v@.take(n as int) =~= v@);
    assert(forall|i: int| single_dash_at(v@, i) ==> i == at);
    if at == 0 {
        return Err(v.to_string());
    }
    let column = v.substring_char(0, at);
    let direction = v.substring_char(at + 1, n);
    assert(column@ =~= v@.take(at as int));
    assert(direction@ =~= v@.skip(at + 1));
    match parse_direction(direction) {
        Some(o) => Ok(SortTuple(column.to_string(), o)),
        None => Err(direction.to_string()),
    }
}

pub open spec fn column_named(name: Seq<char>) -> Option<SortColumn> {
    if name == "id"@ {
        Some(SortColumn::Id)
    } else if name == "title"@ {
        Some(SortColumn::Title)
    } else if name == "overview"@ {
        Some(SortColumn::Overview)
    } else if name == "genre"@ {
        Some(SortColumn::Genre)
    } else if name == "rating"@ {
        Some(SortColumn::Rating)
    } else {
        None
    }
}

/// The column a sort option names; any other name is an invalid argument.
pub fn string_to_column(name: &str) -> (r: Result<SortColumn, AppError>)
    ensures
        match column_named(name@) {
            Some(c) => r == Ok::<SortColumn, AppError>(c),
            None => (r matches Err(AppError::InvalidArgument { value }) && value@ == name@),
        },
{
    if crate::text::same_text(name, "id") {
        Ok(SortColumn::Id)
    } else if crate::text::same_text(name, "title") {
        Ok(SortColumn::Title)
    } else if crate::text::same_text(name, "overview") {
        Ok(SortColumn::Overview)
    } else if crate::text::same_text(name, "genre") {
        Ok(SortColumn::Genre)
    } else if crate::text::same_text(name, "rating") {
        Ok(SortColumn::Rating)
    } else {
        Err(AppError::InvalidArgument { value: name.to_string() })
    }
}

/// The paging info of a catalogue page.  The storage layer counts one page
/// past the last that holds movies, so the total is one less than its count
/// (and zero when it counts none).
pub fn page_info(current_page: u64, num_pages: u64) -> (r: Info)
    ensures
        r.current_page == current_page,
        r.total_page == if num_pages == 0 {
            0
        } else {
            num_pages - 1
        },
{
    Info { current_page, total_page: num_pages.saturating_sub(1) }
}

/// The movie a lookup found, or `NotFound` naming the id asked for.
pub fn movie_or_not_found(movie_id: &str, found: Option<Movie>) -> (r: Result<Movie, AppError>)
    ensures
        match found {
            Some(m) => r == Ok::<Movie, AppError>(m),
            None => (r matches Err(AppError::NotFound { entity, id }) && entity@ == "Movie"@
                && id@ == movie_id@),
        },
{
    match found {
        Some(m) => Ok(m),
        None => Err(
            AppError::NotFound { entity: String::from_str("Movie"), id: movie_id.to_string() },
        ),
    }
}

} // verus!
