//! The consumer-side projections: locally cached copies of entities owned by
//! other services, written only by the synchronization handlers. Every write
//! is idempotent in the sense of the store contracts here: re-inserting an
//! existing key changes nothing, and updates or deletions of an absent key
//! are skipped rather than failed.
use vstd::prelude::*;
use crate::codec::str_eq;
use crate::events::{GameFields, GameFieldsV, GameChanges, GameChangesV};

verus! {

/// What a single synchronization write did to the store.
#[derive(Debug, PartialEq, Eq, Structural)]
pub enum SyncOutcome {
    /// The row was inserted, updated or deleted.
    Applied,
    /// An insert found the key already present and left the row alone — the
    /// benign duplicate of an at-least-once delivery.
    AlreadyExists,
    /// An update or delete found no such key and was skipped: the event that
    /// creates the row may simply not have arrived yet.
    Missing,
}

/// A locally cached copy of another service's user row.
pub struct ProjectedUser {
    pub id: u128,
    pub username: String,
    pub email: String,
    pub created_at: Option<i64>,
}

/// Mathematical value of `ProjectedUser`.
pub struct ProjectedUserV {
    pub id: u128,
    pub username: Seq<char>,
    pub email: Seq<char>,
    pub created_at: Option<i64>,
}

impl View for ProjectedUser {
    type V = ProjectedUserV;

    open spec fn view(&self) -> ProjectedUserV {
        ProjectedUserV {
            id: self.id,
            username: self.username@,
            email: self.email@,
            created_at: self.created_at,
        }
    }
}

pub open spec fn has_user(rows: Seq<ProjectedUserV>, id: u128) -> bool {
    exists|i: int| 0 <= i < rows.len() && rows[i].id == id
}

pub open spec fn user_idx(rows: Seq<ProjectedUserV>, id: u128) -> int {
    choose|i: int| 0 <= i < rows.len() && rows[i].id == id
}

pub open spec fn user_ids_unique(rows: Seq<ProjectedUserV>) -> bool {
    forall|i: int, j: int| 0 <= i < j < rows.len() ==> rows[i].id != rows[j].id
}

/// Insert-on-create: a duplicate key leaves the table unchanged.
pub open spec fn spec_insert_user(rows: Seq<ProjectedUserV>, row: ProjectedUserV) -> Seq<
    ProjectedUserV,
> {
    if has_user(rows, row.id) {
        rows
    } else {
        rows.push(row)
    }
}

/// Update-if-exists: name and address change, the creation time stays; an
/// absent key leaves the table unchanged.
pub open spec fn spec_update_user(
    rows: Seq<ProjectedUserV>,
    id: u128,
    username: Seq<char>,
    email: Seq<char>,
) -> Seq<ProjectedUserV> {
    if has_user(rows, id) {
        let i = user_idx(rows, id);
        rows.update(i, ProjectedUserV { id, username, email, created_at: rows[i].created_at })
    } else {
        rows
    }
}

/// Delete-by-key: an absent key leaves the table unchanged.
pub open spec fn spec_delete_user(rows: Seq<ProjectedUserV>, id: u128) -> Seq<ProjectedUserV> {
    if has_user(rows, id) {
        rows.remove(user_idx(rows, id))
    } else {
        rows
    }
}

/// The users projection, keyed by the user's identifier.
pub struct UserTable {
    rows: Vec<ProjectedUser>,
}

impl View for UserTable {
    type V = Seq<ProjectedUserV>;

    closed spec fn view(&self) -> Seq<ProjectedUserV> {
        self.rows@.map_values(|r: ProjectedUser| r@)
    }
}

impl UserTable {
    /// Key uniqueness, the unique constraint of the underlying table.
    pub open spec fn wf(&self) -> bool {
        user_ids_unique(self@)
    }

    pub fn new() -> (r: UserTable)
        ensures
            r@ == Seq::<ProjectedUserV>::empty(),
            r.wf(),
    {
        let r = UserTable { rows: Vec::new() };
        proof {
            assert(r@ =~= Seq::<ProjectedUserV>::empty());
        }
        r
    }

    pub fn len(&self) -> (r: usize)
        ensures
            r == self@.len(),
    {
        self.rows.len()
    }

    fn find(&self, id: u128) -> (r: Option<usize>)
        ensures
            match r {
                Some(i) => i < self@.len() && self@[i as int].id == id,
                None => !has_user(self@, id),
            },
    {
        let mut i: usize = 0;
        while i < self.rows.len()
            invariant
                0 <= i <= self@.len(),
                self@.len() == self.rows@.len(),
                forall|j: int| 0 <= j < i ==> self@[j].id != id,
            decreases self@.len() - i,
        {
            if self.rows[i].id == id {
                return Some(i);
            }
            i = i + 1;
        }
        None
    }

    /// The row with this key, if any.
    pub fn get_by_id(&self, id: u128) -> (r: Option<&ProjectedUser>)
        ensures
            match r {
                Some(u) => has_user(self@, id) && u@.id == id && exists|i: int|
                    0 <= i < self@.len() && self@[i] == u@,
                None => !has_user(self@, id),
            },
    {
        match self.find(id) {
            Some(i) => Some(&self.rows[i]),
            None => None,
        }
    }

    /// The keys of all rows, in table order.
    pub fn ids(&self) -> (r: Vec<u128>)
        ensures
            r@ == self@.map_values(|u: ProjectedUserV| u.id),
    {
        let mut out: Vec<u128> = Vec::new();
        let mut i: usize = 0;
        while i < self.rows.len()
            invariant
                0 <= i <= self@.len(),
                self@.len() == self.rows@.len(),
                out@ == self@.subrange(0, i as int).map_values(|u: ProjectedUserV| u.id),
            decreases self@.len() - i,
        {
            out.push(self.rows[i].id);
            proof {
                assert(out@ =~= self@.subrange(0, i + 1).map_values(|u: ProjectedUserV| u.id));
            }
            i = i + 1;
        }
        proof {
            assert(self@.subrange(0, self@.len() as int) =~= self@);
        }
        out
    }

    /// Insert-on-create. A duplicate key is reported, not failed.
    pub fn insert_user(&mut self, row: ProjectedUser) -> (r: SyncOutcome)
        requires
            old(self).wf(),
        ensures
            final(self).wf(),
            final(self)@ == spec_insert_user(old(self)@, row@),
            r == SyncOutcome::AlreadyExists <==> has_user(old(self)@, row@.id),
            r != SyncOutcome::Missing,
    {
        match self.find(row.id) {
            Some(_) => SyncOutcome::AlreadyExists,
            None => {
                let ghost before = self.rows@;
                self.rows.push(row);
                proof {
                    assert(self@ =~= before.map_values(|r: ProjectedUser| r@).push(row@));
                }
                SyncOutcome::Applied
            },
        }
    }

    /// Update-if-exists. An absent key is skipped, since the update may have
    /// raced ahead of the create.
    pub fn update_user(&mut self, id: u128, username: &String, email: &String) -> (r: SyncOutcome)
        requires
            old(self).wf(),
        ensures
            final(self).wf(),
            final(self)@ == spec_update_user(old(self)@, id, username@, email@),
            r == SyncOutcome::Missing <==> !has_user(old(self)@, id),
            r != SyncOutcome::AlreadyExists,
    {
        match self.find(id) {
            Some(i) => {
                let created_at = self.rows[i].created_at;
                let ghost before = self@;
                let new_row = ProjectedUser {
                    id,
                    username: String::from_str(username.as_str()),
                    email: String::from_str(email.as_str()),
                    created_at,
                };
                self.rows.set(i, new_row);
                proof {
                    assert(user_idx(before, id) == i as int) by {
                        let j = user_idx(before, id);
                        assert(0 <= j < before.len() && before[j].id == id);
                    }
                    assert(self@ =~= spec_update_user(before, id, username@, email@));
                }
                SyncOutcome::Applied
            },
            None => SyncOutcome::Missing,
        }
    }

    /// Delete-by-key. An absent key is skipped.
    pub fn delete_user(&mut self, id: u128) -> (r: SyncOutcome)
        requires
            old(self).wf(),
        ensures
            final(self).wf(),
            final(self)@ == spec_delete_user(old(self)@, id),
            !has_user(final(self)@, id),
            r == SyncOutcome::Missing <==> !has_user(old(self)@, id),
            r != SyncOutcome::AlreadyExists,
    {
        match self.find(id) {
            Some(i) => {
                let ghost before = self@;
                self.rows.remove(i);
                proof {
                    assert(user_idx(before, id) == i as int) by {
                        let j = user_idx(before, id);
                        assert(0 <= j < before.len() && before[j].id == id);
                    }
                    assert(self@ =~= before.remove(i as int));
                    assert forall|k: int| 0 <= k < self@.len() implies self@[k].id != id by {
                        if k < i {
                            assert(self@[k] == before[k]);
                        } else {
                            assert(self@[k] == before[k + 1]);
                        }
                    }
                }
                SyncOutcome::Applied
            },
            None => SyncOutcome::Missing,
        }
    }
}

pub open spec fn has_game(rows: Seq<GameFieldsV>, slug: Seq<char>) -> bool {
    exists|i: int| 0 <= i < rows.len() && rows[i].slug == slug
}

pub open spec fn game_idx(rows: Seq<GameFieldsV>, slug: Seq<char>) -> int {
    choose|i: int| 0 <= i < rows.len() && rows[i].slug == slug
}

pub open spec fn game_slugs_unique(rows: Seq<GameFieldsV>) -> bool {
    forall|i: int, j: int| 0 <= i < j < rows.len() ==> rows[i].slug != rows[j].slug
}

pub open spec fn spec_insert_game(rows: Seq<GameFieldsV>, row: GameFieldsV) -> Seq<GameFieldsV> {
    if has_game(rows, row.slug) {
        rows
    } else {
        rows.push(row)
    }
}

/// The changed fields replace the old ones; everything else is kept.
pub open spec fn overlay(row: GameFieldsV, c: GameChangesV) -> GameFieldsV {
    GameFieldsV {
        title: if c.title is Some {
            c.title
        } else {
            row.title
        },
        description: if c.description is Some {
            c.description
        } else {
            row.description
        },
        genre: if c.genre is Some {
            c.genre
        } else {
            row.genre
        },
        ..row
    }
}

pub open spec fn spec_update_game(rows: Seq<GameFieldsV>, slug: Seq<char>, c: GameChangesV) -> Seq<
    GameFieldsV,
> {
    if has_game(rows, slug) {
        let i = game_idx(rows, slug);
        rows.update(i, overlay(rows[i], c))
    } else {
        rows
    }
}

pub open spec fn spec_delete_game(rows: Seq<GameFieldsV>, slug: Seq<char>) -> Seq<GameFieldsV> {
    if has_game(rows, slug) {
        rows.remove(game_idx(rows, slug))
    } else {
        rows
    }
}

fn clone_string(s: &String) -> (r: String)
    ensures
        r@ == s@,
{
    String::from_str(s.as_str())
}

fn clone_opt_string(s: &Option<String>) -> (r: Option<String>)
    ensures
        r.deep_view() == s.deep_view(),
{
    match s {
        Some(x) => Some(String::from_str(x.as_str())),
        None => None,
    }
}

/// The games projection, keyed by the game's slug.
pub struct GameTable {
    rows: Vec<GameFields>,
}

impl View for GameTable {
    type V = Seq<GameFieldsV>;

    closed spec fn view(&self) -> Seq<GameFieldsV> {
        self.rows@.map_values(|r: GameFields| r@)
    }
}

impl GameTable {
    /// Slug uniqueness, the unique constraint of the underlying table.
    pub open spec fn wf(&self) -> bool {
        game_slugs_unique(self@)
    }

    pub fn new() -> (r: GameTable)
        ensures
            r@ == Seq::<GameFieldsV>::empty(),
            r.wf(),
    {
        let r = GameTable { rows: Vec::new() };
        proof {
            assert(r@ =~= Seq::<GameFieldsV>::empty());
        }
        r
    }

    pub fn len(&self) -> (r: usize)
        ensures
            r == self@.len(),
    {
        self.rows.len()
    }

    fn find(&self, slug: &str) -> (r: Option<usize>)
        ensures
            match r {
                Some(i) => i < self@.len() && self@[i as int].slug == slug@,
                None => !has_game(self@, slug@),
            },
    {
        let mut i: usize = 0;
        while i < self.rows.len()
            invariant
                0 <= i <= self@.len(),
                self@.len() == self.rows@.len(),
                forall|j: int| 0 <= j < i ==> self@[j].slug != slug@,
            decreases self@.len() - i,
        {
            if str_eq(self.rows[i].slug.as_str(), slug) {
                return Some(i);
            }
            i = i + 1;
        }
        None
    }

    /// The row with this slug, if any.
    pub fn get_by_slug(&self, slug: &str) -> (r: Option<&GameFields>)
        ensures
            match r {
                Some(g) => has_game(self@, slug@) && g@.slug == slug@ && exists|i: int|
                    0 <= i < self@.len() && self@[i] == g@,
                None => !has_game(self@, slug@),
            },
    {
        match self.find(slug) {
            Some(i) => Some(&self.rows[i]),
            None => None,
        }
    }

    /// Insert-on-create. A duplicate slug is reported, not failed.
    pub fn insert_game(&mut self, row: GameFields) -> (r: SyncOutcome)
        requires
            old(self).wf(),
        ensures
            final(self).wf(),
            final(self)@ == spec_insert_game(old(self)@, row@),
            r == SyncOutcome::AlreadyExists <==> has_game(old(self)@, row@.slug),
            r != SyncOutcome::Missing,
    {
        match self.find(row.slug.as_str()) {
            Some(_) => SyncOutcome::AlreadyExists,
            None => {
                let ghost before = self.rows@;
                self.rows.push(row);
                proof {
                    assert(self@ =~= before.map_values(|r: GameFields| r@).push(row@));
                }
                SyncOutcome::Applied
            },
        }
    }

    /// Update-if-exists, overlaying only the changed fields. An absent slug
    /// is skipped, since the update may have raced ahead of the create.
    pub fn update_game(&mut self, slug: &str, changes: &GameChanges) -> (r: SyncOutcome)
        requires
            old(self).wf(),
        ensures
            final(self).wf(),
            final(self)@ == spec_update_game(old(self)@, slug@, changes@),
            r == SyncOutcome::Missing <==> !has_game(old(self)@, slug@),
            r != SyncOutcome::AlreadyExists,
    {
        match self.find(slug) {
            Some(i) => {
                let ghost before = self@;
                let row = &self.rows[i];
                let new_row = GameFields {
                    slug: clone_string(&row.slug),
                    name: clone_string(&row.name),
                    title: match &changes.title {
                        Some(t) => Some(String::from_str(t.as_str())),
                        None => clone_opt_string(&row.title),
                    },
                    description: match &changes.description {
                        Some(t) => Some(String::from_str(t.as_str())),
                        None => clone_opt_string(&row.description),
                    },
                    genre: match &changes.genre {
                        Some(t) => Some(String::from_str(t.as_str())),
                        None => clone_opt_string(&row.genre),
                    },
                    created_by: row.created_by,
                    created_at: row.created_at,
                };
                self.rows.set(i, new_row);
                proof {
                    assert(game_idx(before, slug@) == i as int) by {
                        let j = game_idx(before, slug@);
                        assert(0 <= j < before.len() && before[j].slug == slug@);
                    }
                    assert(self@ =~= spec_update_game(before, slug@, changes@));
                }
                SyncOutcome::Applied
            },
            None => SyncOutcome::Missing,
        }
    }

    /// Delete-by-key. An absent slug is skipped.
    pub fn delete_game(&mut self, slug: &str) -> (r: SyncOutcome)
        requires
            old(self).wf(),
        ensures
            final(self).wf(),
            final(self)@ == spec_delete_game(old(self)@, slug@),
            !has_game(final(self)@, slug@),
            r == SyncOutcome::Missing <==> !has_game(old(self)@, slug@),
            r != SyncOutcome::AlreadyExists,
    {
        match self.find(slug) {
            Some(i) => {
                let ghost before = self@;
                self.rows.remove(i);
                proof {
                    assert(game_idx(before, slug@) == i as int) by {
                        let j = game_idx(before, slug@);
                        assert(0 <= j < before.len() && before[j].slug == slug@);
                    }
                    assert(self@ =~= before.remove(i as int));
                    assert forall|k: int| 0 <= k < self@.len() implies self@[k].slug != slug@ by {
                        if k < i {
                            assert(self@[k] == before[k]);
                        } else {
                            assert(self@[k] == before[k + 1]);
                        }
                    }
                }
                SyncOutcome::Applied
            },
            None => SyncOutcome::Missing,
        }
    }
}

/// Inserting keeps slugs unique and makes the key present.
pub proof fn lemma_insert_game_unique(rows: Seq<GameFieldsV>, row: GameFieldsV)
    requires
        game_slugs_unique(rows),
    ensures
        game_slugs_unique(spec_insert_game(rows, row)),
        has_game(spec_insert_game(rows, row), row.slug),
{
    let out = spec_insert_game(rows, row);
    if has_game(rows, row.slug) {
    } else {
        assert(out[rows.len() as int] == row);
        assert forall|i: int, j: int| 0 <= i < j < out.len() implies out[i].slug != out[j].slug by {
            if j < rows.len() {
                assert(out[i] == rows[i] && out[j] == rows[j]);
            } else {
                assert(out[i] == rows[i] && out[j] == row);
            }
        }
    }
}

/// Deleting keeps slugs unique and leaves the key absent.
pub proof fn lemma_delete_game_gone(rows: Seq<GameFieldsV>, slug: Seq<char>)
    requires
        game_slugs_unique(rows),
    ensures
        game_slugs_unique(spec_delete_game(rows, slug)),
        !has_game(spec_delete_game(rows, slug), slug),
{
    if has_game(rows, slug) {
        let i = game_idx(rows, slug);
        assert(0 <= i < rows.len() && rows[i].slug == slug);
        let out = rows.remove(i);
        assert forall|k: int| 0 <= k < out.len() implies out[k].slug != slug by {
            if k < i {
                assert(out[k] == rows[k]);
            } else {
                assert(out[k] == rows[k + 1]);
            }
        }
        assert forall|a: int, b: int| 0 <= a < b < out.len() implies out[a].slug != out[b].slug by {
            let ra = if a < i { a } else { a + 1 };
            let rb = if b < i { b } else { b + 1 };
            assert(out[a] == rows[ra] && out[b] == rows[rb]);
        }
    }
}

/// Applying the same creation event twice against an empty store leaves
/// exactly one row: the second insert sees the key and changes nothing.
pub proof fn lemma_idempotent_create(row: GameFieldsV)
    ensures
        spec_insert_game(spec_insert_game(Seq::<GameFieldsV>::empty(), row), row) == spec_insert_game(
            Seq::<GameFieldsV>::empty(),
            row,
        ),
        spec_insert_game(Seq::<GameFieldsV>::empty(), row).len() == 1,
{
    let once = spec_insert_game(Seq::<GameFieldsV>::empty(), row);
    assert(once == Seq::<GameFieldsV>::empty().push(row));
    assert(once[0] == row);
    assert(has_game(once, row.slug));
}

/// Re-applying any creation event to a store that already holds its key
/// changes nothing — the general form of the benign duplicate.
pub proof fn lemma_insert_idempotent(rows: Seq<GameFieldsV>, row: GameFieldsV)
    ensures
        spec_insert_game(spec_insert_game(rows, row), row) == spec_insert_game(rows, row),
{
    let once = spec_insert_game(rows, row);
    if has_game(rows, row.slug) {
    } else {
        assert(once[rows.len() as int] == row);
        assert(has_game(once, row.slug));
    }
}

// ---------------------------------------------------------------------------
// The audit log of user events kept by the admin service
// ---------------------------------------------------------------------------
/// What the admin service records of a user event.
pub enum LoggedKind {
    Login { time: i64 },
    Logout { time: i64 },
    Rate { rating: i32, game_slug: String },
}

/// Mathematical value of `LoggedKind`.
pub enum LoggedKindV {
    Login { time: i64 },
    Logout { time: i64 },
    Rate { rating: i32, game_slug: Seq<char> },
}

impl View for LoggedKind {
    type V = LoggedKindV;

    open spec fn view(&self) -> LoggedKindV {
        match *self {
            LoggedKind::Login { time } => LoggedKindV::Login { time },
            LoggedKind::Logout { time } => LoggedKindV::Logout { time },
            LoggedKind::Rate { rating, ref game_slug } => LoggedKindV::Rate {
                rating,
                game_slug: game_slug@,
            },
        }
    }
}

/// One audit row.
pub struct UserEventRow {
    pub user_id: u128,
    pub kind: LoggedKind,
}

/// Mathematical value of `UserEventRow`.
pub struct UserEventRowV {
    pub user_id: u128,
    pub kind: LoggedKindV,
}

impl View for UserEventRow {
    type V = UserEventRowV;

    open spec fn view(&self) -> UserEventRowV {
        UserEventRowV { user_id: self.user_id, kind: self.kind@ }
    }
}

/// The append-only audit log.
pub struct EventLog {
    rows: Vec<UserEventRow>,
}

impl View for EventLog {
    type V = Seq<UserEventRowV>;

    closed spec fn view(&self) -> Seq<UserEventRowV> {
        self.rows@.map_values(|r: UserEventRow| r@)
    }
}

impl EventLog {
    pub fn new() -> (r: EventLog)
        ensures
            r@ == Seq::<UserEventRowV>::empty(),
    {
        let r = EventLog { rows: Vec::new() };
        proof {
            assert(r@ =~= Seq::<UserEventRowV>::empty());
        }
        r
    }

    pub fn len(&self) -> (r: usize)
        ensures
            r == self@.len(),
    {
        self.rows.len()
    }

    /// Appends one row; nothing is ever removed or rewritten.
    pub fn append(&mut self, row: UserEventRow)
        ensures
            final(self)@ == old(self)@.push(row@),
    {
        let ghost before = self.rows@;
        self.rows.push(row);
        proof {
            assert(self@ =~= before.map_values(|r: UserEventRow| r@).push(row@));
        }
    }
}

// ---------------------------------------------------------------------------
// The ratings table of the game service
// ---------------------------------------------------------------------------
/// One submitted rating, as inserted into the relational store. Nothing
/// deduplicates ratings: a redelivered submission becomes a second row.
pub struct RatingRow {
    pub id: u128,
    pub game_slug: String,
    pub user_id: u128,
    pub rating: i32,
    pub review: Option<String>,
    pub created_at: i64,
}

/// Mathematical value of `RatingRow`.
pub struct RatingRowV {
    pub id: u128,
    pub game_slug: Seq<char>,
    pub user_id: u128,
    pub rating: i32,
    pub review: Option<Seq<char>>,
    pub created_at: i64,
}

impl View for RatingRow {
    type V = RatingRowV;

    open spec fn view(&self) -> RatingRowV {
        RatingRowV {
            id: self.id,
            game_slug: self.game_slug@,
            user_id: self.user_id,
            rating: self.rating,
            review: self.review.deep_view(),
            created_at: self.created_at,
        }
    }
}

/// The ratings table, append-only.
pub struct RatingTable {
    rows: Vec<RatingRow>,
}

impl View for RatingTable {
    type V = Seq<RatingRowV>;

    closed spec fn view(&self) -> Seq<RatingRowV> {
        self.rows@.map_values(|r: RatingRow| r@)
    }
}

impl RatingTable {
    pub fn new() -> (r: RatingTable)
        ensures
            r@ == Seq::<RatingRowV>::empty(),
    {
        let r = RatingTable { rows: Vec::new() };
        proof {
            assert(r@ =~= Seq::<RatingRowV>::empty());
        }
        r
    }

    pub fn len(&self) -> (r: usize)
        ensures
            r == self@.len(),
    {
        self.rows.len()
    }

    pub fn insert(&mut self, row: RatingRow)
        ensures
            final(self)@ == old(self)@.push(row@),
    {
        let ghost before = self.rows@;
        self.rows.push(row);
        proof {
            assert(self@ =~= before.map_values(|r: RatingRow| r@).push(row@));
        }
    }
}

} // verus!
