//! The game service's own logic: the rating submission — bounds check,
//! rating row, and the read-modify-write aggregation against the search
//! index — the ranked game listing, lookup by slug, and the mapping from
//! store failures to responses.
use vstd::prelude::*;
use crate::codec::str_eq;
use crate::dispatch::GameServiceState;
use crate::errors::{CustomError, DbErrorKind};
use crate::events::{DomainEvent, EventV, GameFields};
use crate::search::{SearchDocument, SearchIndex, is_ranking, page_of, spec_submit_rating};
use crate::settings::Paginate;
use crate::store::{GameTable, RatingRow, has_game};

verus! {

/// Whether `needle` occurs as a contiguous part of `hay`.
pub open spec fn contains_sub(hay: Seq<char>, needle: Seq<char>) -> bool {
    exists|i: int|
        0 <= i <= hay.len() - needle.len() && #[trigger] hay.subrange(i, i + needle.len())
            == needle
}

fn substring_at(hay: &Vec<char>, at: usize, needle: &Vec<char>) -> (r: bool)
    requires
        at + needle@.len() <= hay@.len(),
    ensures
        r == (hay@.subrange(at as int, at + needle@.len()) == needle@),
{
    let hlen = hay.len();
    let nlen = needle.len();
    let mut i: usize = 0;
    while i < nlen
        invariant
            at + nlen <= hlen,
            nlen == needle@.len(),
            hlen == hay@.len(),
            0 <= i <= nlen,
            forall|j: int| 0 <= j < i ==> hay@[at + j] == needle@[j],
        decreases nlen - i,
    {
        if hay[at + i] != needle[i] {
            proof {
                if hay@.subrange(at as int, at + needle@.len()) == needle@ {
                    assert(hay@.subrange(at as int, at + needle@.len())[i as int] == needle@[
                    i as int]);
                }
            }
            return false;
        }
        i = i + 1;
    }
    proof {
        assert(hay@.subrange(at as int, at + needle@.len()) =~= needle@);
    }
    true
}

fn contains(hay: &str, needle: &str) -> (r: bool)
    ensures
        r == contains_sub(hay@, needle@),
{
    let h = crate::codec::str_to_chars_pub(hay);
    let n = crate::codec::str_to_chars_pub(needle);
    let hlen = h.len();
    let nlen = n.len();
    if nlen > hlen {
        proof {
            if contains_sub(hay@, needle@) {
                let i = choose|i: int|
                    0 <= i <= hay@.len() - needle@.len() && #[trigger] hay@.subrange(
                        i,
                        i + needle@.len(),
                    ) == needle@;
                assert(i >= 0);
            }
        }
        return false;
    }
    if nlen == 0 {
        proof {
            assert(hay@.subrange(0int, 0int + needle@.len() as int) =~= needle@);
            assert(contains_sub(hay@, needle@));
        }
        return true;
    }
    let mut at: usize = 0;
    while at <= hlen - nlen
        invariant
            h@ == hay@,
            n@ == needle@,
            nlen == n@.len(),
            hlen == h@.len(),
            1 <= nlen <= hlen,
            0 <= at <= hlen - nlen + 1,
            forall|j: int|
                0 <= j < at ==> #[trigger] hay@.subrange(j, j + needle@.len()) != needle@,
        decreases hlen - at,
    {
        if substring_at(&h, at, &n) {
            return true;
        }
        at = at + 1;
    }
    proof {
        if contains_sub(hay@, needle@) {
            let i = choose|i: int|
                0 <= i <= hay@.len() - needle@.len() && #[trigger] hay@.subrange(
                    i,
                    i + needle@.len(),
                ) == needle@;
            assert(i < at);
            assert(hay@.subrange(i, i + needle@.len()) != needle@);
        }
    }
    false
}

/// How this service answers a relational-store failure: the two foreign keys
/// and the rating check constraint get their own responses, a missing row is
/// "Not Found", and everything else is an internal error.
pub fn diesel_db_response_error(err: &DbErrorKind) -> (r: CustomError)
    ensures
        r matches CustomError::DatabaseError { msg, resp, status_code } && msg@
            == "Database error occured"@,
        ({
            let (want_resp, want_status): (Seq<char>, u16) = match *err {
                DbErrorKind::ForeignKeyViolation { ref constraint } => {
                    if constraint.deep_view() == Some("fk_game"@) {
                        ("Game doesn't exist"@, 400u16)
                    } else if constraint.deep_view() == Some("fk_user"@) {
                        ("User doesn't exist"@, 400u16)
                    } else {
                        ("internal server error"@, 500u16)
                    }
                },
                DbErrorKind::CheckViolation { ref constraint } => {
                    if constraint matches Some(c) && contains_sub(c@, "rating"@) {
                        ("Rating must be between 1 and 5"@, 400u16)
                    } else {
                        ("internal server error"@, 500u16)
                    }
                },
                DbErrorKind::NotFound => ("Not Found"@, 404u16),
                _ => ("internal server error"@, 500u16),
            };
            r matches CustomError::DatabaseError { msg, resp, status_code } && resp@ == want_resp
                && status_code == want_status
        }),
{
    let msg = String::from_str("Database error occured");
    match err {
        DbErrorKind::ForeignKeyViolation { constraint } => {
            match constraint {
                Some(c) => {
                    if str_eq(c.as_str(), "fk_game") {
                        CustomError::DatabaseError {
                            msg,
                            resp: String::from_str("Game doesn't exist"),
                            status_code: 400,
                        }
                    } else if str_eq(c.as_str(), "fk_user") {
                        CustomError::DatabaseError {
                            msg,
                            resp: String::from_str("User doesn't exist"),
                            status_code: 400,
                        }
                    } else {
                        CustomError::DatabaseError {
                            msg,
                            resp: String::from_str("internal server error"),
                            status_code: 500,
                        }
                    }
                },
                None => CustomError::DatabaseError {
                    msg,
                    resp: String::from_str("internal server error"),
                    status_code: 500,
                },
            }
        },
        DbErrorKind::CheckViolation { constraint } => {
            match constraint {
                Some(c) => {
                    if contains(c.as_str(), "rating") {
                        CustomError::DatabaseError {
                            msg,
                            resp: String::from_str("Rating must be between 1 and 5"),
                            status_code: 400,
                        }
                    } else {
                        CustomError::DatabaseError {
                            msg,
                            resp: String::from_str("internal server error"),
                            status_code: 500,
                        }
                    }
                },
                None => CustomError::DatabaseError {
                    msg,
                    resp: String::from_str("internal server error"),
                    status_code: 500,
                },
            }
        },
        DbErrorKind::NotFound => CustomError::DatabaseError {
            msg,
            resp: String::from_str("Not Found"),
            status_code: 404,
        },
        _ => CustomError::DatabaseError {
            msg,
            resp: String::from_str("internal server error"),
            status_code: 500,
        },
    }
}

/// The request body of a rating submission.
pub struct RateGameRequest {
    pub game_slug: String,
    pub rating: i32,
    pub review: Option<String>,
}

fn clone_opt_string(s: &Option<String>) -> (r: Option<String>)
    ensures
        r.deep_view() == s.deep_view(),
{
    match s {
        Some(x) => Some(String::from_str(x.as_str())),
        None => None,
    }
}

/// The rating submission: rejects a rating outside `[1, 5]`, refuses a slug
/// no catalogue row carries (the foreign key the ratings table enforces),
/// and otherwise inserts the rating row and runs the aggregator's
/// read-modify-write against the search index. The returned event is what
/// the publish path then carries.
pub fn rate(
    state: &mut GameServiceState,
    req: RateGameRequest,
    user_id: u128,
    rating_id: u128,
    now: i64,
) -> (r: Result<DomainEvent, CustomError>)
    requires
        old(state).wf(),
    ensures
        final(state).wf(),
        r is Ok <==> 1 <= req.rating <= 5 && has_game(old(state)@.games, req.game_slug@),
        !(1 <= req.rating <= 5) ==> (r matches Err(e) && e matches CustomError::ValidationError(m)
            && m@ == "Rating must be between 1 and 5."@),
        1 <= req.rating <= 5 && !has_game(old(state)@.games, req.game_slug@) ==> (r matches Err(e)
            && e matches CustomError::DatabaseError { resp, status_code, .. } && resp@
            == "Game doesn't exist"@ && status_code == 400),
        r is Err ==> final(state)@ == old(state)@,
        r is Ok ==> final(state)@.games == old(state)@.games && final(state)@.users == old(
            state,
        )@.users && final(state)@.ratings == old(state)@.ratings.push(
            (crate::store::RatingRowV {
                id: rating_id,
                game_slug: req.game_slug@,
                user_id,
                rating: req.rating,
                review: req.review.deep_view(),
                created_at: now,
            }),
        ) && final(state)@.index == spec_submit_rating(
            old(state)@.index,
            req.game_slug@,
            req.rating,
        ),
        r matches Ok(e) ==> e@ == (EventV::RatingSubmitted {
            game_slug: req.game_slug@,
            user_id,
            rating: req.rating,
            review: req.review.deep_view(),
        }),
{
    if req.rating < 1 || req.rating > 5 {
        return Err(
            CustomError::ValidationError(String::from_str("Rating must be between 1 and 5.")),
        );
    }
    match state.games.get_by_slug(req.game_slug.as_str()) {
        Some(_) => {},
        None => {
            return Err(
                diesel_db_response_error(
                    &DbErrorKind::ForeignKeyViolation {
                        constraint: Some(String::from_str("fk_game")),
                    },
                ),
            );
        },
    }
    let row = RatingRow {
        id: rating_id,
        game_slug: String::from_str(req.game_slug.as_str()),
        user_id,
        rating: req.rating,
        review: clone_opt_string(&req.review),
        created_at: now,
    };
    state.ratings.insert(row);
    state.index.submit_rating(req.game_slug.as_str(), req.rating);
    Ok(
        DomainEvent::RatingSubmitted {
            game_slug: req.game_slug,
            user_id,
            rating: req.rating,
            review: req.review,
        },
    )
}

/// The game listing: the requested window of the index ranked by average
/// rating, best first.
pub fn get_game(index: &SearchIndex, paginate: &Paginate) -> (r: Vec<SearchDocument>)
    requires
        paginate.page >= 1,
        paginate.limit >= 0,
        (paginate.page - 1) * paginate.limit + paginate.limit <= usize::MAX,
        (paginate.page - 1) * paginate.limit + paginate.limit <= i64::MAX,
    ensures
        exists|all: Seq<crate::search::SearchDocumentV>|
            #[trigger] is_ranking(index@, all) && r@.map_values(|d: SearchDocument| d@) == page_of(
                all,
                (paginate.page - 1) * paginate.limit,
                paginate.limit as int,
            ),
{
    proof {
        assert((paginate.page - 1) * paginate.limit >= 0) by (nonlinear_arith)
            requires
                paginate.page >= 1,
                paginate.limit >= 0,
        {}
    }
    let from = paginate.offset() as usize;
    index.search_page(from, paginate.limit as usize)
}

/// A catalogue lookup by slug; a missing row is "not found".
pub fn get_game_by_slug<'a>(games: &'a GameTable, slug: &str) -> (r: Result<
    &'a GameFields,
    CustomError,
>)
    ensures
        has_game(games@, slug@) <==> r is Ok,
        r matches Ok(g) ==> g@.slug == slug@ && exists|i: int|
            0 <= i < games@.len() && games@[i] == g@,
        r matches Err(e) ==> (e matches CustomError::DatabaseError { resp, status_code, .. }
            && resp@ == "Not Found"@ && status_code == 404),
{
    match games.get_by_slug(slug) {
        Some(g) => Ok(g),
        None => Err(diesel_db_response_error(&DbErrorKind::NotFound)),
    }
}

} // verus!
