//! The per-service dispatch: each inbound message is filtered by topic,
//! decoded into a domain event, checked against its topic's family, and
//! routed to the service's synchronization handlers. A message that cannot
//! be handled — unknown topic, missing payload, malformed or misrouted
//! payload, or a variant the service does not consume — is dropped, and the
//! loop goes on with the next message.
use vstd::prelude::*;
use crate::codec::{dec_event, decode_event, str_eq};
use crate::events::{
    DomainEvent, EventV, InboundMessage, InboundMessageV, KafkaTopic, admin_topic, game_topic,
    topic_of, user_topic,
};
use crate::search::{SearchIndex, SearchDocumentV, spec_index_game, spec_update_doc, spec_delete_doc};
use crate::store::{
    EventLog, GameTable, LoggedKind, LoggedKindV, ProjectedUser, ProjectedUserV, RatingTable,
    UserEventRow, UserEventRowV, UserTable, spec_delete_game, spec_delete_user, spec_insert_game,
    spec_insert_user, spec_update_game, spec_update_user,
};
use crate::events::GameFieldsV;
use crate::store::RatingRowV;

verus! {

/// What the dispatcher did with one message.
#[derive(Debug, PartialEq, Eq, Structural)]
pub enum DispatchOutcome {
    /// No handler is registered for this topic at this service.
    UnknownTopic,
    /// The message carried no payload; logged and dropped.
    MissingPayload,
    /// The payload did not decode to an event of this topic's family;
    /// logged with the message coordinates and dropped, never retried.
    Malformed,
    /// Decoded fine, but this service keeps no projection of the variant.
    Ignored,
    /// A synchronization handler ran.
    Applied,
}

/// The outcome a message must get, given which topics a service subscribes
/// to and which decoded variants it handles.
pub open spec fn expected_outcome(
    m: InboundMessageV,
    subscribed: bool,
    handles: spec_fn(EventV) -> bool,
) -> DispatchOutcome {
    if !subscribed {
        DispatchOutcome::UnknownTopic
    } else {
        match m.payload {
            None => DispatchOutcome::MissingPayload,
            Some(p) => match dec_event(p) {
                None => DispatchOutcome::Malformed,
                Some(e) => if topic_of(e) != m.topic {
                    DispatchOutcome::Malformed
                } else if handles(e) {
                    DispatchOutcome::Applied
                } else {
                    DispatchOutcome::Ignored
                },
            },
        }
    }
}

// ---------------------------------------------------------------------------
// Game service: consumes game and user topics, keeps the games and users
// projections, the search index, and the ratings table.
// ---------------------------------------------------------------------------
/// The stores of the game service.
pub struct GameServiceState {
    pub games: GameTable,
    pub users: UserTable,
    pub index: SearchIndex,
    pub ratings: RatingTable,
}

/// Mathematical value of `GameServiceState`.
pub struct GameStateV {
    pub games: Seq<GameFieldsV>,
    pub users: Seq<ProjectedUserV>,
    pub index: Seq<SearchDocumentV>,
    pub ratings: Seq<RatingRowV>,
}

impl View for GameServiceState {
    type V = GameStateV;

    open spec fn view(&self) -> GameStateV {
        GameStateV {
            games: self.games@,
            users: self.users@,
            index: self.index@,
            ratings: self.ratings@,
        }
    }
}

impl GameServiceState {
    pub open spec fn wf(&self) -> bool {
        self.games.wf() && self.users.wf() && self.index.wf()
    }

    pub fn new() -> (r: GameServiceState)
        ensures
            r.wf(),
            r@.games.len() == 0,
            r@.users.len() == 0,
            r@.index.len() == 0,
            r@.ratings.len() == 0,
    {
        GameServiceState {
            games: GameTable::new(),
            users: UserTable::new(),
            index: SearchIndex::new(),
            ratings: RatingTable::new(),
        }
    }
}

/// What one decoded event does to the game service's stores: catalogue
/// changes hit the games table and the search index, registrations the users
/// projection; everything else is ignored here.
pub open spec fn spec_game_apply(st: GameStateV, e: EventV) -> GameStateV {
    match e {
        EventV::GameCreated(g) => GameStateV {
            games: spec_insert_game(st.games, g),
            index: spec_index_game(st.index, g),
            ..st
        },
        EventV::GameUpdated { slug, changes } => GameStateV {
            games: spec_update_game(st.games, slug, changes),
            index: spec_update_doc(st.index, slug, changes),
            ..st
        },
        EventV::GameDeleted { slug } => GameStateV {
            games: spec_delete_game(st.games, slug),
            index: spec_delete_doc(st.index, slug),
            ..st
        },
        EventV::UserRegistered { id, username, email, created_at } => GameStateV {
            users: spec_insert_user(
                st.users,
                ProjectedUserV { id, username, email, created_at },
            ),
            ..st
        },
        _ => st,
    }
}

/// The variants the game service keeps a projection of.
pub open spec fn game_handles(e: EventV) -> bool {
    match e {
        EventV::GameCreated(_) => true,
        EventV::GameUpdated { .. } => true,
        EventV::GameDeleted { .. } => true,
        EventV::UserRegistered { .. } => true,
        _ => false,
    }
}

/// Whether the game service subscribes to a topic.
pub open spec fn game_subscribed(topic: Seq<char>) -> bool {
    topic == game_topic() || topic == user_topic()
}

/// What one raw message does to the game service's stores: an unhandled
/// topic, a missing payload, a malformed payload, or an event outside its
/// topic's family leaves them untouched.
pub open spec fn spec_game_step(st: GameStateV, m: InboundMessageV) -> GameStateV {
    if game_subscribed(m.topic) {
        match m.payload {
            Some(p) => match dec_event(p) {
                Some(e) => if topic_of(e) == m.topic {
                    spec_game_apply(st, e)
                } else {
                    st
                },
                None => st,
            },
            None => st,
        }
    } else {
        st
    }
}

/// The stores after a sequence of messages, processed in order.
pub open spec fn spec_game_run(st: GameStateV, msgs: Seq<InboundMessageV>) -> GameStateV
    decreases msgs.len(),
{
    if msgs.len() == 0 {
        st
    } else {
        spec_game_run(spec_game_step(st, msgs[0]), msgs.skip(1))
    }
}

proof fn lemma_game_run_snoc(st: GameStateV, msgs: Seq<InboundMessageV>, m: InboundMessageV)
    ensures
        spec_game_run(st, msgs.push(m)) == spec_game_step(spec_game_run(st, msgs), m),
    decreases msgs.len(),
{
    if msgs.len() == 0 {
        assert(msgs.push(m)[0] == m);
        assert(msgs.push(m).skip(1) =~= Seq::<InboundMessageV>::empty());
        assert(spec_game_run(st, msgs) == st);
        assert(spec_game_run(st, msgs.push(m)) == spec_game_run(
            spec_game_step(st, m),
            msgs.push(m).skip(1),
        ));
        assert(spec_game_run(spec_game_step(st, m), Seq::<InboundMessageV>::empty())
            == spec_game_step(st, m));
    } else {
        assert(msgs.push(m)[0] == msgs[0]);
        assert(msgs.push(m).skip(1) =~= msgs.skip(1).push(m));
        lemma_game_run_snoc(spec_game_step(st, msgs[0]), msgs.skip(1), m);
        assert(spec_game_run(st, msgs.push(m)) == spec_game_run(
            spec_game_step(st, msgs[0]),
            msgs.skip(1).push(m),
        ));
        assert(spec_game_run(st, msgs) == spec_game_run(spec_game_step(st, msgs[0]), msgs.skip(1)));
    }
}

fn take_payload(msg: &InboundMessage) -> (r: Option<&String>)
    ensures
        match r {
            Some(p) => msg@.payload == Some(p@),
            None => msg@.payload is None,
        },
{
    match &msg.payload {
        Some(p) => Some(p),
        None => None,
    }
}

/// Decodes a payload and checks it against the topic's family.
fn decode_for_topic(topic: &String, payload: &String) -> (r: Option<DomainEvent>)
    ensures
        match r {
            Some(e) => dec_event(payload@) == Some(e@) && topic_of(e@) == topic@,
            None => match dec_event(payload@) {
                Some(ev) => topic_of(ev) != topic@,
                None => true,
            },
        },
{
    match decode_event(payload.as_str()) {
        Some(e) => {
            let family = e.topic_name();
            if str_eq(family.as_str(), topic.as_str()) {
                Some(e)
            } else {
                None
            }
        },
        None => None,
    }
}

/// Processes one message against the game service's stores.
pub fn game_dispatch_step(state: &mut GameServiceState, msg: &InboundMessage) -> (r:
    DispatchOutcome)
    requires
        old(state).wf(),
    ensures
        final(state).wf(),
        final(state)@ == spec_game_step(old(state)@, msg@),
        r == expected_outcome(msg@, game_subscribed(msg@.topic), |e: EventV| game_handles(e)),
{
    let is_game = str_eq(msg.topic.as_str(), "game_events");
    let is_user = str_eq(msg.topic.as_str(), "user_events");
    proof {
        reveal_strlit("game_events");
        reveal_strlit("user_events");
    }
    if !is_game && !is_user {
        return DispatchOutcome::UnknownTopic;
    }
    let payload = match take_payload(msg) {
        Some(p) => p,
        None => {
            return DispatchOutcome::MissingPayload;
        },
    };
    let event = match decode_for_topic(&msg.topic, payload) {
        Some(e) => e,
        None => {
            return DispatchOutcome::Malformed;
        },
    };
    match event {
        DomainEvent::GameCreated(g) => {
            state.index.index_game(&g);
            state.games.insert_game(g);
            DispatchOutcome::Applied
        },
        DomainEvent::GameUpdated { slug, changes } => {
            state.games.update_game(slug.as_str(), &changes);
            state.index.update_game(slug.as_str(), &changes);
            DispatchOutcome::Applied
        },
        DomainEvent::GameDeleted { slug } => {
            state.games.delete_game(slug.as_str());
            state.index.delete_game(slug.as_str());
            DispatchOutcome::Applied
        },
        DomainEvent::UserRegistered { id, username, email, created_at } => {
            state.users.insert_user(ProjectedUser { id, username, email, created_at });
            DispatchOutcome::Applied
        },
        _ => DispatchOutcome::Ignored,
    }
}

/// Processes a batch of messages in order, never stopping on a message that
/// cannot be handled.
pub fn process_kafka_game_message(state: &mut GameServiceState, msgs: &Vec<InboundMessage>) -> (r: Vec<
    DispatchOutcome,
>)
    requires
        old(state).wf(),
    ensures
        final(state).wf(),
        final(state)@ == spec_game_run(old(state)@, msgs@.map_values(|m: InboundMessage| m@)),
        r@.len() == msgs@.len(),
{
    let ghost all = msgs@.map_values(|m: InboundMessage| m@);
    let mut outcomes: Vec<DispatchOutcome> = Vec::new();
    let mut i: usize = 0;
    proof {
        assert(all.take(0) =~= Seq::<InboundMessageV>::empty());
    }
    while i < msgs.len()
        invariant
            0 <= i <= msgs@.len(),
            all == msgs@.map_values(|m: InboundMessage| m@),
            state.wf(),
            state@ == spec_game_run(old(state)@, all.take(i as int)),
            outcomes@.len() == i,
        decreases msgs@.len() - i,
    {
        let outcome = game_dispatch_step(state, &msgs[i]);
        outcomes.push(outcome);
        proof {
            assert(all.take(i + 1) =~= all.take(i as int).push(all[i as int]));
            lemma_game_run_snoc(old(state)@, all.take(i as int), all[i as int]);
        }
        i = i + 1;
    }
    proof {
        assert(all.take(msgs@.len() as int) =~= all);
    }
    outcomes
}

// ---------------------------------------------------------------------------
// Admin service: consumes the user topic, keeps the users projection and the
// audit log of user events.
// ---------------------------------------------------------------------------
/// The stores of the admin service.
pub struct AdminServiceState {
    pub users: UserTable,
    pub events: EventLog,
}

/// Mathematical value of `AdminServiceState`.
pub struct AdminStateV {
    pub users: Seq<ProjectedUserV>,
    pub events: Seq<UserEventRowV>,
}

impl View for AdminServiceState {
    type V = AdminStateV;

    open spec fn view(&self) -> AdminStateV {
        AdminStateV { users: self.users@, events: self.events@ }
    }
}

impl AdminServiceState {
    pub open spec fn wf(&self) -> bool {
        self.users.wf()
    }

    pub fn new() -> (r: AdminServiceState)
        ensures
            r.wf(),
            r@.users.len() == 0,
            r@.events.len() == 0,
    {
        AdminServiceState { users: UserTable::new(), events: EventLog::new() }
    }
}

/// What one decoded event does to the admin service's stores: registrations
/// and profile updates maintain the users projection; sessions and rating
/// submissions are appended to the audit log.
pub open spec fn spec_admin_apply(st: AdminStateV, e: EventV) -> AdminStateV {
    match e {
        EventV::UserRegistered { id, username, email, created_at } => AdminStateV {
            users: spec_insert_user(
                st.users,
                ProjectedUserV { id, username, email, created_at },
            ),
            ..st
        },
        EventV::UserUpdated { id, username, email } => AdminStateV {
            users: spec_update_user(st.users, id, username, email),
            ..st
        },
        EventV::UserLoggedIn { user_id, time } => AdminStateV {
            events: st.events.push(
                UserEventRowV { user_id, kind: LoggedKindV::Login { time } },
            ),
            ..st
        },
        EventV::UserLoggedOut { user_id, time } => AdminStateV {
            events: st.events.push(
                UserEventRowV { user_id, kind: LoggedKindV::Logout { time } },
            ),
            ..st
        },
        EventV::RatingSubmitted { game_slug, user_id, rating, .. } => AdminStateV {
            events: st.events.push(
                UserEventRowV { user_id, kind: LoggedKindV::Rate { rating, game_slug } },
            ),
            ..st
        },
        _ => st,
    }
}

/// The variants the admin service keeps a projection or an audit row of.
pub open spec fn admin_handles(e: EventV) -> bool {
    match e {
        EventV::UserRegistered { .. } => true,
        EventV::UserUpdated { .. } => true,
        EventV::UserLoggedIn { .. } => true,
        EventV::UserLoggedOut { .. } => true,
        EventV::RatingSubmitted { .. } => true,
        _ => false,
    }
}

pub open spec fn admin_subscribed(topic: Seq<char>) -> bool {
    topic == user_topic()
}

pub open spec fn spec_admin_step(st: AdminStateV, m: InboundMessageV) -> AdminStateV {
    if admin_subscribed(m.topic) {
        match m.payload {
            Some(p) => match dec_event(p) {
                Some(e) => if topic_of(e) == m.topic {
                    spec_admin_apply(st, e)
                } else {
                    st
                },
                None => st,
            },
            None => st,
        }
    } else {
        st
    }
}

pub open spec fn spec_admin_run(st: AdminStateV, msgs: Seq<InboundMessageV>) -> AdminStateV
    decreases msgs.len(),
{
    if msgs.len() == 0 {
        st
    } else {
        spec_admin_run(spec_admin_step(st, msgs[0]), msgs.skip(1))
    }
}

pub(crate) proof fn lemma_admin_run_snoc(st: AdminStateV, msgs: Seq<InboundMessageV>, m: InboundMessageV)
    ensures
        spec_admin_run(st, msgs.push(m)) == spec_admin_step(spec_admin_run(st, msgs), m),
    decreases msgs.len(),
{
    if msgs.len() == 0 {
        assert(msgs.push(m)[0] == m);
        assert(msgs.push(m).skip(1) =~= Seq::<InboundMessageV>::empty());
        assert(spec_admin_run(st, msgs) == st);
        assert(spec_admin_run(st, msgs.push(m)) == spec_admin_run(
            spec_admin_step(st, m),
            msgs.push(m).skip(1),
        ));
        assert(spec_admin_run(spec_admin_step(st, m), Seq::<InboundMessageV>::empty())
            == spec_admin_step(st, m));
    } else {
        assert(msgs.push(m)[0] == msgs[0]);
        assert(msgs.push(m).skip(1) =~= msgs.skip(1).push(m));
        lemma_admin_run_snoc(spec_admin_step(st, msgs[0]), msgs.skip(1), m);
        assert(spec_admin_run(st, msgs.push(m)) == spec_admin_run(
            spec_admin_step(st, msgs[0]),
            msgs.skip(1).push(m),
        ));
        assert(spec_admin_run(st, msgs) == spec_admin_run(spec_admin_step(st, msgs[0]), msgs.skip(1)));
    }
}

/// Processes one message against the admin service's stores.
pub fn admin_dispatch_step(state: &mut AdminServiceState, msg: &InboundMessage) -> (r:
    DispatchOutcome)
    requires
        old(state).wf(),
    ensures
        final(state).wf(),
        final(state)@ == spec_admin_step(old(state)@, msg@),
        r == expected_outcome(msg@, admin_subscribed(msg@.topic), |e: EventV| admin_handles(e)),
{
    let is_user = str_eq(msg.topic.as_str(), "user_events");
    proof {
        reveal_strlit("user_events");
    }
    if !is_user {
        return DispatchOutcome::UnknownTopic;
    }
    let payload = match take_payload(msg) {
        Some(p) => p,
        None => {
            return DispatchOutcome::MissingPayload;
        },
    };
    let event = match decode_for_topic(&msg.topic, payload) {
        Some(e) => e,
        None => {
            return DispatchOutcome::Malformed;
        },
    };
    match event {
        DomainEvent::UserRegistered { id, username, email, created_at } => {
            state.users.insert_user(ProjectedUser { id, username, email, created_at });
            DispatchOutcome::Applied
        },
        DomainEvent::UserUpdated { id, username, email } => {
            state.users.update_user(id, &username, &email);
            DispatchOutcome::Applied
        },
        DomainEvent::UserLoggedIn { user_id, time } => {
            state.events.append(UserEventRow { user_id, kind: LoggedKind::Login { time } });
            DispatchOutcome::Applied
        },
        DomainEvent::UserLoggedOut { user_id, time } => {
            state.events.append(UserEventRow { user_id, kind: LoggedKind::Logout { time } });
            DispatchOutcome::Applied
        },
        DomainEvent::RatingSubmitted { game_slug, user_id, rating, .. } => {
            state.events.append(
                UserEventRow { user_id, kind: LoggedKind::Rate { rating, game_slug } },
            );
            DispatchOutcome::Applied
        },
        _ => DispatchOutcome::Ignored,
    }
}


// ---------------------------------------------------------------------------
// User service: consumes the admin topic and removes deleted users from its
// own store.
// ---------------------------------------------------------------------------
/// The store of the user service that the dispatch loop touches.
pub struct UserServiceState {
    pub users: UserTable,
}

/// Mathematical value of `UserServiceState`.
pub struct UserStateV {
    pub users: Seq<ProjectedUserV>,
}

impl View for UserServiceState {
    type V = UserStateV;

    open spec fn view(&self) -> UserStateV {
        UserStateV { users: self.users@ }
    }
}

impl UserServiceState {
    pub open spec fn wf(&self) -> bool {
        self.users.wf()
    }

    pub fn new() -> (r: UserServiceState)
        ensures
            r.wf(),
            r@.users.len() == 0,
    {
        UserServiceState { users: UserTable::new() }
    }
}

/// What one decoded event does to the user service's store: administrative
/// deletions remove the row; everything else is ignored here.
pub open spec fn spec_user_apply(st: UserStateV, e: EventV) -> UserStateV {
    match e {
        EventV::UserDeleted { id } => UserStateV { users: spec_delete_user(st.users, id) },
        _ => st,
    }
}

/// The one variant the user service consumes.
pub open spec fn user_handles(e: EventV) -> bool {
    e is UserDeleted
}

pub open spec fn user_subscribed(topic: Seq<char>) -> bool {
    topic == admin_topic()
}

pub open spec fn spec_user_step(st: UserStateV, m: InboundMessageV) -> UserStateV {
    if user_subscribed(m.topic) {
        match m.payload {
            Some(p) => match dec_event(p) {
                Some(e) => if topic_of(e) == m.topic {
                    spec_user_apply(st, e)
                } else {
                    st
                },
                None => st,
            },
            None => st,
        }
    } else {
        st
    }
}

pub open spec fn spec_user_run(st: UserStateV, msgs: Seq<InboundMessageV>) -> UserStateV
    decreases msgs.len(),
{
    if msgs.len() == 0 {
        st
    } else {
        spec_user_run(spec_user_step(st, msgs[0]), msgs.skip(1))
    }
}

pub(crate) proof fn lemma_user_run_snoc(st: UserStateV, msgs: Seq<InboundMessageV>, m: InboundMessageV)
    ensures
        spec_user_run(st, msgs.push(m)) == spec_user_step(spec_user_run(st, msgs), m),
    decreases msgs.len(),
{
    if msgs.len() == 0 {
        assert(msgs.push(m)[0] == m);
        assert(msgs.push(m).skip(1) =~= Seq::<InboundMessageV>::empty());
        assert(spec_user_run(st, msgs) == st);
        assert(spec_user_run(st, msgs.push(m)) == spec_user_run(
            spec_user_step(st, m),
            msgs.push(m).skip(1),
        ));
        assert(spec_user_run(spec_user_step(st, m), Seq::<InboundMessageV>::empty())
            == spec_user_step(st, m));
    } else {
        assert(msgs.push(m)[0] == msgs[0]);
        assert(msgs.push(m).skip(1) =~= msgs.skip(1).push(m));
        lemma_user_run_snoc(spec_user_step(st, msgs[0]), msgs.skip(1), m);
        assert(spec_user_run(st, msgs.push(m)) == spec_user_run(
            spec_user_step(st, msgs[0]),
            msgs.skip(1).push(m),
        ));
        assert(spec_user_run(st, msgs) == spec_user_run(spec_user_step(st, msgs[0]), msgs.skip(1)));
    }
}

/// Processes one message against the user service's store.
pub fn user_dispatch_step(state: &mut UserServiceState, msg: &InboundMessage) -> (r:
    DispatchOutcome)
    requires
        old(state).wf(),
    ensures
        final(state).wf(),
        final(state)@ == spec_user_step(old(state)@, msg@),
        r == expected_outcome(msg@, user_subscribed(msg@.topic), |e: EventV| user_handles(e)),
{
    let is_admin = str_eq(msg.topic.as_str(), "admin_events");
    proof {
        reveal_strlit("admin_events");
    }
    if !is_admin {
        return DispatchOutcome::UnknownTopic;
    }
    let payload = match take_payload(msg) {
        Some(p) => p,
        None => {
            return DispatchOutcome::MissingPayload;
        },
    };
    let event = match decode_for_topic(&msg.topic, payload) {
        Some(e) => e,
        None => {
            return DispatchOutcome::Malformed;
        },
    };
    match event {
        DomainEvent::UserDeleted { id } => {
            state.users.delete_user(id);
            DispatchOutcome::Applied
        },
        _ => DispatchOutcome::Ignored,
    }
}


// ---------------------------------------------------------------------------
// Laws about the loop
// ---------------------------------------------------------------------------
/// The message a published event arrives as.
pub open spec fn inbound_of(e: EventV) -> InboundMessageV {
    InboundMessageV { topic: topic_of(e), payload: Some(crate::codec::enc_event(e)) }
}

/// Deserialization-failure isolation: a message whose payload does not
/// decode leaves the stores untouched, so the run over a batch headed by a
/// malformed message is exactly the run over the rest — the loop is not
/// stopped, and later well-formed messages on the same topic are processed
/// as if the malformed one had never arrived.
pub proof fn lemma_malformed_isolated(
    st: GameStateV,
    bad: InboundMessageV,
    rest: Seq<InboundMessageV>,
)
    requires
        bad.payload matches Some(p) && dec_event(p) is None,
    ensures
        spec_game_step(st, bad) == st,
        spec_game_run(st, seq![bad] + rest) == spec_game_run(st, rest),
{
    assert((seq![bad] + rest)[0] == bad);
    assert((seq![bad] + rest).skip(1) =~= rest);
    assert((seq![bad] + rest).len() == 1 + rest.len());
}

/// A published event, delivered to the game service, is applied exactly as
/// the handler table says: the round trip through the wire loses nothing.
pub proof fn lemma_game_step_of_published(st: GameStateV, e: EventV)
    ensures
        game_subscribed(topic_of(e)) ==> spec_game_step(st, inbound_of(e)) == spec_game_apply(
            st,
            e,
        ),
        !game_subscribed(topic_of(e)) ==> spec_game_step(st, inbound_of(e)) == st,
{
    crate::codec::lemma_codec_round_trip(e);
}

/// Delete-after-create ordering within one causal chain: a game creation
/// followed by its deletion, published and processed in that order by the
/// game service, leaves no projected game row and no search document for the
/// slug.
pub proof fn lemma_delete_after_create(st: GameStateV, g: GameFieldsV)
    requires
        crate::store::game_slugs_unique(st.games),
        crate::search::doc_slugs_unique(st.index),
    ensures
        ({
            let msgs = seq![
                inbound_of(EventV::GameCreated(g)),
                inbound_of((EventV::GameDeleted { slug: g.slug })),
            ];
            let out = spec_game_run(st, msgs);
            &&& !crate::store::has_game(out.games, g.slug)
            &&& !crate::search::has_doc(out.index, g.slug)
        }),
{
    let create = EventV::GameCreated(g);
    let delete = EventV::GameDeleted { slug: g.slug };
    let msgs = seq![inbound_of(create), inbound_of(delete)];
    lemma_game_step_of_published(st, create);
    let st1 = spec_game_apply(st, create);
    lemma_game_step_of_published(st1, delete);
    let st2 = spec_game_apply(st1, delete);
    assert(msgs.len() == 2);
    assert(msgs[0] == inbound_of(create));
    assert(msgs.skip(1) =~= seq![inbound_of(delete)]);
    assert(seq![inbound_of(delete)][0] == inbound_of(delete));
    assert(seq![inbound_of(delete)].skip(1) =~= Seq::<InboundMessageV>::empty());
    assert(spec_game_step(st, msgs[0]) == st1);
    assert(spec_game_run(st, msgs) == spec_game_run(st1, msgs.skip(1)));
    assert(spec_game_step(st1, inbound_of(delete)) == st2);
    assert(spec_game_run(st1, seq![inbound_of(delete)]) == spec_game_run(
        st2,
        seq![inbound_of(delete)].skip(1),
    ));
    assert(spec_game_run(st2, Seq::<InboundMessageV>::empty()) == st2);
    assert(spec_game_run(st, msgs) == st2);
    crate::store::lemma_insert_game_unique(st.games, g);
    crate::search::lemma_index_game_unique(st.index, g);
    crate::store::lemma_delete_game_gone(st1.games, g.slug);
    crate::search::lemma_delete_doc_gone(st1.index, g.slug);
}

} // verus!