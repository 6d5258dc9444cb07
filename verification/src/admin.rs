//! The admin service's own logic: user lookup and deletion, the game
//! catalogue's create/update/delete with the slug derivation, and the
//! mapping from store failures to responses. The HTTP shell, credential
//! hashing and the broker around these decisions are the edge layer's.
use vstd::prelude::*;
use crate::codec::{new_string, push_char, str_eq};
use crate::errors::{CustomError, DbErrorKind};
use crate::events::{DomainEvent, EventV, GameChanges, GameFields};
use crate::settings::Paginate;
use crate::dispatch::{AdminServiceState, DispatchOutcome};
use crate::events::{InboundMessage, InboundMessageV};
use crate::store::{
    GameTable, ProjectedUser, SyncOutcome, UserTable, has_game, has_user, spec_delete_user,
    spec_insert_game, spec_update_game,
};

verus! {

/// How this service answers a relational-store failure: the two named
/// unique constraints get their own responses, a missing row is "Not Found",
/// and everything else is an internal error.
pub fn diesel_db_response_error(err: &DbErrorKind) -> (r: CustomError)
    ensures
        r matches CustomError::DatabaseError { msg, resp, status_code } && msg@
            == "Database error occured"@,
        ({
            let (want_resp, want_status): (Seq<char>, u16) = match *err {
                DbErrorKind::UniqueViolation { ref constraint } => {
                    if constraint.deep_view() == Some("unique_username"@) {
                        ("Username has already been taken"@, 400u16)
                    } else if constraint.deep_view() == Some("unique_email"@) {
                        ("Account already associated with this email"@, 400u16)
                    } else {
                        ("internal server error"@, 500u16)
                    }
                },
                DbErrorKind::NotFound => ("Not Found"@, 404u16),
                _ => ("internal server error"@, 500u16),
            };
            r matches CustomError::DatabaseError { msg, resp, status_code } && resp@ == want_resp
                && status_code == want_status
        }),
{
    let msg = String::from_str("Database error occured");
    match err {
        DbErrorKind::UniqueViolation { constraint } => {
            match constraint {
                Some(c) => {
                    if str_eq(c.as_str(), "unique_username") {
                        CustomError::DatabaseError {
                            msg,
                            resp: String::from_str("Username has already been taken"),
                            status_code: 400,
                        }
                    } else if str_eq(c.as_str(), "unique_email") {
                        CustomError::DatabaseError {
                            msg,
                            resp: String::from_str("Account already associated with this email"),
                            status_code: 400,
                        }
                    } else {
                        CustomError::DatabaseError {
                            msg,
                            resp: String::from_str("internal server error"),
                            status_code: 500,
                        }
                    }
                },
                None => CustomError::DatabaseError {
                    msg,
                    resp: String::from_str("internal server error"),
                    status_code: 500,
                },
            }
        },
        DbErrorKind::NotFound => CustomError::DatabaseError {
            msg,
            resp: String::from_str("Not Found"),
            status_code: 404,
        },
        _ => CustomError::DatabaseError {
            msg,
            resp: String::from_str("internal server error"),
            status_code: 500,
        },
    }
}

/// An insert that wrote no row is surfaced as a failure to create the admin.
pub fn confirm_admin_insert(rows_inserted: usize) -> (r: Result<(), CustomError>)
    ensures
        rows_inserted == 0 <==> r is Err,
        r matches Err(e) ==> (e matches CustomError::DatabaseError { msg, resp, status_code }
            && msg@ == "Failed to insert user to table admins"@ && resp@
            == "Failed to create admin"@ && status_code == 500),
{
    if rows_inserted == 0 {
        Err(
            CustomError::DatabaseError {
                msg: String::from_str("Failed to insert user to table admins"),
                resp: String::from_str("Failed to create admin"),
                status_code: 500,
            },
        )
    } else {
        Ok(())
    }
}

/// A user lookup by key; a missing row is "not found".
pub fn get_user_by_id(users: &UserTable, user_id: u128) -> (r: Result<&ProjectedUser, CustomError>)
    ensures
        has_user(users@, user_id) <==> r is Ok,
        r matches Ok(u) ==> u@.id == user_id && exists|i: int|
            0 <= i < users@.len() && users@[i] == u@,
        r matches Err(e) ==> (e matches CustomError::DatabaseError { msg, resp, status_code }
            && msg@ == "User not found by user id"@ && resp@ == "User not found"@ && status_code
            == 404),
{
    match users.get_by_id(user_id) {
        Some(u) => Ok(u),
        None => Err(
            CustomError::DatabaseError {
                msg: String::from_str("User not found by user id"),
                resp: String::from_str("User not found"),
                status_code: 404,
            },
        ),
    }
}

/// The requested page of user keys, in table order, clipped to the table.
pub fn get_users(users: &UserTable, query: &Paginate) -> (r: Vec<u128>)
    requires
        query.page >= 1,
        query.limit >= 0,
        (query.page - 1) * query.limit + query.limit <= usize::MAX,
        (query.page - 1) * query.limit + query.limit <= i64::MAX,
    ensures
        ({
            let ids = users@.map_values(|u: crate::store::ProjectedUserV| u.id);
            let start = if (query.page - 1) * query.limit < ids.len() {
                (query.page - 1) * query.limit
            } else {
                ids.len() as int
            };
            let end = if (query.page - 1) * query.limit + query.limit < ids.len() {
                (query.page - 1) * query.limit + query.limit
            } else {
                ids.len() as int
            };
            r@ == ids.subrange(start, end)
        }),
{
    proof {
        assert((query.page - 1) * query.limit >= 0) by (nonlinear_arith)
            requires
                query.page >= 1,
                query.limit >= 0,
        {}
        assert((query.page - 1) * query.limit <= i64::MAX);
        assert(query.limit <= usize::MAX);
    }
    let offset = query.offset() as usize;
    let ids = users.ids();
    let n = ids.len();
    let start = if offset < n {
        offset
    } else {
        n
    };
    let end = if query.limit as usize <= n - start {
        start + query.limit as usize
    } else {
        n
    };
    let mut out: Vec<u128> = Vec::new();
    let mut i: usize = start;
    while i < end
        invariant
            start <= i <= end <= n,
            n == ids@.len(),
            out@ == ids@.subrange(start as int, i as int),
        decreases end - i,
    {
        out.push(ids[i]);
        proof {
            assert(out@ =~= ids@.subrange(start as int, i + 1));
        }
        i = i + 1;
    }
    proof {
        assert(out@ =~= users@.map_values(|u: crate::store::ProjectedUserV| u.id).subrange(
            start as int,
            end as int,
        ));
    }
    out
}

/// Deletes a user and builds the deletion event for the admin topic; a key
/// that matches no row is "not found" and deletes nothing.
pub fn delete_user(users: &mut UserTable, user_id: u128) -> (r: Result<DomainEvent, CustomError>)
    requires
        old(users).wf(),
    ensures
        final(users).wf(),
        has_user(old(users)@, user_id) <==> r is Ok,
        r is Ok ==> final(users)@ == spec_delete_user(old(users)@, user_id),
        r matches Ok(e) ==> e@ == (EventV::UserDeleted { id: user_id }),
        r is Err ==> final(users)@ == old(users)@,
        r matches Err(e) ==> (e matches CustomError::DatabaseError { msg, resp, status_code }
            && msg@ == "Returned usize == 0"@ && resp@ == "Did not find user"@ && status_code
            == 404),
{
    match users.delete_user(user_id) {
        SyncOutcome::Missing => Err(
            CustomError::DatabaseError {
                msg: String::from_str("Returned usize == 0"),
                resp: String::from_str("Did not find user"),
                status_code: 404,
            },
        ),
        _ => Ok(DomainEvent::UserDeleted { id: user_id }),
    }
}

// ---------------------------------------------------------------------------
// Game creation: the slug is derived from the name and a fresh identifier
// ---------------------------------------------------------------------------
/// Lowercasing by the Unicode case-mapping tables; a function of the
/// characters alone, too intricate to restate here.
pub uninterp spec fn lower_of(s: Seq<char>) -> Seq<char>;

/// Relies on std's `str::to_lowercase`: the lowercase mapping of the text,
/// depending on its characters alone.
#[verifier::external_body]
fn lowercase(s: &str) -> (r: String)
    ensures
        r@ == lower_of(s@),
{
    s.to_lowercase()
}

/// Spaces become dashes; everything else is kept.
pub open spec fn dashes_for_spaces(s: Seq<char>) -> Seq<char> {
    s.map_values(
        |c: char|
            if c == ' ' {
                '-'
            } else {
                c
            },
    )
}

fn push_dashed(out: &mut String, s: &str)
    ensures
        final(out)@ == old(out)@ + dashes_for_spaces(s@),
{
    let n = s.unicode_len();
    let mut i: usize = 0;
    while i < n
        invariant
            n == s@.len(),
            0 <= i <= n,
            out@ == old(out)@ + dashes_for_spaces(s@.take(i as int)),
        decreases n - i,
    {
        let c = s.get_char(i);
        if c == ' ' {
            push_char(out, '-');
        } else {
            push_char(out, c);
        }
        proof {
            assert(s@.take(i + 1) =~= s@.take(i as int).push(s@[i as int]));
            assert(dashes_for_spaces(s@.take(i + 1)) =~= dashes_for_spaces(
                s@.take(i as int),
            ).push(
                if s@[i as int] == ' ' {
                    '-'
                } else {
                    s@[i as int]
                },
            ));
            assert(out@ =~= old(out)@ + dashes_for_spaces(s@.take(i + 1)));
        }
        i = i + 1;
    }
    proof {
        assert(s@.take(n as int) =~= s@);
    }
}

pub open spec fn hex_char(d: nat) -> char {
    if d == 0 {
        '0'
    } else if d == 1 {
        '1'
    } else if d == 2 {
        '2'
    } else if d == 3 {
        '3'
    } else if d == 4 {
        '4'
    } else if d == 5 {
        '5'
    } else if d == 6 {
        '6'
    } else if d == 7 {
        '7'
    } else if d == 8 {
        '8'
    } else if d == 9 {
        '9'
    } else if d == 10 {
        'a'
    } else if d == 11 {
        'b'
    } else if d == 12 {
        'c'
    } else if d == 13 {
        'd'
    } else if d == 14 {
        'e'
    } else {
        'f'
    }
}

/// `width` hexadecimal digits of `n`, most significant first, zero-padded.
pub open spec fn enc_hex(n: nat, width: nat) -> Seq<char>
    decreases width,
{
    if width == 0 {
        Seq::empty()
    } else {
        enc_hex(n / 16, (width - 1) as nat) + seq![hex_char(n % 16)]
    }
}

fn hex_digit(d: u128) -> (c: char)
    requires
        d < 16,
    ensures
        c == hex_char(d as nat),
{
    if d == 0 {
        '0'
    } else if d == 1 {
        '1'
    } else if d == 2 {
        '2'
    } else if d == 3 {
        '3'
    } else if d == 4 {
        '4'
    } else if d == 5 {
        '5'
    } else if d == 6 {
        '6'
    } else if d == 7 {
        '7'
    } else if d == 8 {
        '8'
    } else if d == 9 {
        '9'
    } else if d == 10 {
        'a'
    } else if d == 11 {
        'b'
    } else if d == 12 {
        'c'
    } else if d == 13 {
        'd'
    } else if d == 14 {
        'e'
    } else {
        'f'
    }
}

fn push_hex(out: &mut String, n: u128, width: usize)
    ensures
        final(out)@ == old(out)@ + enc_hex(n as nat, width as nat),
    decreases width,
{
    if width == 0 {
        proof {
            assert(old(out)@ + enc_hex(n as nat, 0) =~= old(out)@);
        }
    } else {
        push_hex(out, n / 16, width - 1);
        push_char(out, hex_digit(n % 16));
    }
}

/// The canonical hyphenated text of a 128-bit identifier: five zero-padded
/// hexadecimal groups of 8, 4, 4, 4 and 12 digits.
pub open spec fn uuid_text(id: u128) -> Seq<char> {
    enc_hex((id as nat) / 0x1000000000000000000000000, 8) + "-"@ + enc_hex(
        ((id as nat) / 0x100000000000000000000) % 0x10000,
        4,
    ) + "-"@ + enc_hex(((id as nat) / 0x10000000000000000) % 0x10000, 4) + "-"@ + enc_hex(
        ((id as nat) / 0x1000000000000) % 0x10000,
        4,
    ) + "-"@ + enc_hex((id as nat) % 0x1000000000000, 12)
}

fn push_uuid(out: &mut String, id: u128)
    ensures
        final(out)@ == old(out)@ + uuid_text(id),
{
    push_hex(out, id / 0x1000000000000000000000000, 8);
    push_char(out, '-');
    push_hex(out, (id / 0x100000000000000000000) % 0x10000, 4);
    push_char(out, '-');
    push_hex(out, (id / 0x10000000000000000) % 0x10000, 4);
    push_char(out, '-');
    push_hex(out, (id / 0x1000000000000) % 0x10000, 4);
    push_char(out, '-');
    push_hex(out, id % 0x1000000000000, 12);
    proof {
        assert(seq!['-'] =~= "-"@) by {
            reveal_strlit("-");
        }
        assert(final(out)@ =~= old(out)@ + uuid_text(id));
    }
}

/// The slug of a new game: a fixed prefix, the lowercased name with spaces
/// dashed, and the game's fresh identifier.
pub open spec fn slug_of(name: Seq<char>, game_id: u128) -> Seq<char> {
    "srv-"@ + dashes_for_spaces(lower_of(name)) + "-"@ + uuid_text(game_id)
}

/// Derives the slug a new game is keyed by.
pub fn derive_slug(name: &str, game_id: u128) -> (r: String)
    ensures
        r@ == slug_of(name@, game_id),
{
    let lowered = lowercase(name);
    let mut out = new_string();
    out.append("srv-");
    push_dashed(&mut out, lowered.as_str());
    out.append("-");
    push_uuid(&mut out, game_id);
    proof {
        assert(out@ =~= slug_of(name@, game_id));
    }
    out
}

/// Body of a game-creation request.
pub struct CreateGameBody {
    pub name: String,
    pub title: Option<String>,
    pub description: Option<String>,
    pub genre: Option<String>,
}

fn clone_opt_string(s: &Option<String>) -> (r: Option<String>)
    ensures
        r.deep_view() == s.deep_view(),
{
    match s {
        Some(x) => Some(String::from_str(x.as_str())),
        None => None,
    }
}

/// Creates a game: derives the slug, writes the catalogue row, and builds
/// the creation event. A slug collision — possible only if the fresh
/// identifier repeats — is the unique-constraint failure, mapped like any
/// other store failure.
pub fn create_game(
    games: &mut GameTable,
    body: CreateGameBody,
    admin_id: u128,
    game_id: u128,
    now: i64,
) -> (r: Result<DomainEvent, CustomError>)
    requires
        old(games).wf(),
    ensures
        final(games).wf(),
        !has_game(old(games)@, slug_of(body.name@, game_id)) <==> r is Ok,
        r matches Ok(e) ==> e@ == EventV::GameCreated(
            (crate::events::GameFieldsV {
                slug: slug_of(body.name@, game_id),
                name: body.name@,
                title: body.title.deep_view(),
                description: body.description.deep_view(),
                genre: body.genre.deep_view(),
                created_by: Some(admin_id),
                created_at: Some(now),
            }),
        ) && final(games)@ == spec_insert_game(
            old(games)@,
            (crate::events::GameFieldsV {
                slug: slug_of(body.name@, game_id),
                name: body.name@,
                title: body.title.deep_view(),
                description: body.description.deep_view(),
                genre: body.genre.deep_view(),
                created_by: Some(admin_id),
                created_at: Some(now),
            }),
        ),
        r is Err ==> final(games)@ == old(games)@,
        r matches Err(e) ==> (e matches CustomError::DatabaseError { status_code, .. }
            && status_code == 500),
{
    let slug = derive_slug(body.name.as_str(), game_id);
    let row = GameFields {
        slug,
        name: body.name,
        title: body.title,
        description: body.description,
        genre: body.genre,
        created_by: Some(admin_id),
        created_at: Some(now),
    };
    let event_row = GameFields {
        slug: String::from_str(row.slug.as_str()),
        name: String::from_str(row.name.as_str()),
        title: clone_opt_string(&row.title),
        description: clone_opt_string(&row.description),
        genre: clone_opt_string(&row.genre),
        created_by: row.created_by,
        created_at: row.created_at,
    };
    match games.insert_game(row) {
        SyncOutcome::AlreadyExists => Err(
            diesel_db_response_error(&DbErrorKind::UniqueViolation { constraint: None }),
        ),
        _ => Ok(DomainEvent::GameCreated(event_row)),
    }
}

/// Updates a game: overlays the changed fields on the stored row and builds
/// the update event; an unknown slug is "not found".
pub fn update_game(games: &mut GameTable, slug: &String, changes: GameChanges) -> (r: Result<
    DomainEvent,
    CustomError,
>)
    requires
        old(games).wf(),
    ensures
        final(games).wf(),
        has_game(old(games)@, slug@) <==> r is Ok,
        r is Ok ==> final(games)@ == spec_update_game(old(games)@, slug@, changes@),
        r matches Ok(e) ==> e@ == (EventV::GameUpdated { slug: slug@, changes: changes@ }),
        r is Err ==> final(games)@ == old(games)@,
        r matches Err(e) ==> (e matches CustomError::DatabaseError { resp, status_code, .. }
            && resp@ == "Not Found"@ && status_code == 404),
{
    let event_changes = GameChanges {
        title: clone_opt_string(&changes.title),
        description: clone_opt_string(&changes.description),
        genre: clone_opt_string(&changes.genre),
    };
    match games.update_game(slug.as_str(), &changes) {
        SyncOutcome::Missing => Err(diesel_db_response_error(&DbErrorKind::NotFound)),
        _ => Ok(
            DomainEvent::GameUpdated {
                slug: String::from_str(slug.as_str()),
                changes: event_changes,
            },
        ),
    }
}

/// Deletes a game and builds the deletion event; an unknown slug is "not
/// found" and deletes nothing.
pub fn delete_game(games: &mut GameTable, slug: &String) -> (r: Result<DomainEvent, CustomError>)
    requires
        old(games).wf(),
    ensures
        final(games).wf(),
        has_game(old(games)@, slug@) <==> r is Ok,
        r is Ok ==> final(games)@ == crate::store::spec_delete_game(old(games)@, slug@),
        r matches Ok(e) ==> e@ == (EventV::GameDeleted { slug: slug@ }),
        r is Err ==> final(games)@ == old(games)@,
        r matches Err(e) ==> (e matches CustomError::DatabaseError { msg, resp, status_code }
            && msg@ == "rows_deleted == 0"@ && resp@ == "Did not find game for deletion"@
            && status_code == 404),
{
    match games.delete_game(slug.as_str()) {
        SyncOutcome::Missing => Err(
            CustomError::DatabaseError {
                msg: String::from_str("rows_deleted == 0"),
                resp: String::from_str("Did not find game for deletion"),
                status_code: 404,
            },
        ),
        _ => Ok(DomainEvent::GameDeleted { slug: String::from_str(slug.as_str()) }),
    }
}

/// A game lookup by slug; a missing row is "not found".
pub fn get_game<'a>(games: &'a GameTable, slug: &str) -> (r: Result<&'a GameFields, CustomError>)
    ensures
        has_game(games@, slug@) <==> r is Ok,
        r matches Ok(g) ==> g@.slug == slug@ && exists|i: int|
            0 <= i < games@.len() && games@[i] == g@,
        r matches Err(e) ==> (e matches CustomError::DatabaseError { resp, status_code, .. }
            && resp@ == "Not Found"@ && status_code == 404),
{
    match games.get_by_slug(slug) {
        Some(g) => Ok(g),
        None => Err(diesel_db_response_error(&DbErrorKind::NotFound)),
    }
}

/// The admin service's dispatch loop over a batch of inbound messages,
/// processed in order, never stopping on a message that cannot be handled.
pub fn process_kafka_message(state: &mut AdminServiceState, msgs: &Vec<InboundMessage>) -> (r: Vec<
    DispatchOutcome,
>)
    requires
        old(state).wf(),
    ensures
        final(state).wf(),
        final(state)@ == crate::dispatch::spec_admin_run(old(state)@, msgs@.map_values(|m: InboundMessage| m@)),
        r@.len() == msgs@.len(),
{
    let ghost all = msgs@.map_values(|m: InboundMessage| m@);
    let mut outcomes: Vec<DispatchOutcome> = Vec::new();
    let mut i: usize = 0;
    proof {
        assert(all.take(0) =~= Seq::<InboundMessageV>::empty());
    }
    while i < msgs.len()
        invariant
            0 <= i <= msgs@.len(),
            all == msgs@.map_values(|m: InboundMessage| m@),
            state.wf(),
            state@ == crate::dispatch::spec_admin_run(old(state)@, all.take(i as int)),
            outcomes@.len() == i,
        decreases msgs@.len() - i,
    {
        let outcome = crate::dispatch::admin_dispatch_step(state, &msgs[i]);
        outcomes.push(outcome);
        proof {
            assert(all.take(i + 1) =~= all.take(i as int).push(all[i as int]));
            crate::dispatch::lemma_admin_run_snoc(old(state)@, all.take(i as int), all[i as int]);
        }
        i = i + 1;
    }
    proof {
        assert(all.take(msgs@.len() as int) =~= all);
    }
    outcomes
}

} // verus!
