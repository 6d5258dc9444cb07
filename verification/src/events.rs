//! The domain-event model: one closed union for every event the services
//! exchange, and the mapping from an event to the topic of its originating
//! entity family. Identifiers are carried as 128-bit integers and instants
//! as signed microsecond timestamps; the edge layer converts to and from its
//! UUID and calendar types.
use vstd::prelude::*;

verus! {

/// Fields of a newly created game, as they travel on the wire and land in
/// the consumer stores.
#[derive(Debug, PartialEq)]
pub struct GameFields {
    pub slug: String,
    pub name: String,
    pub title: Option<String>,
    pub description: Option<String>,
    pub genre: Option<String>,
    pub created_by: Option<u128>,
    pub created_at: Option<i64>,
}

/// The subset of game fields an update may change; `None` leaves the field
/// as it is.
#[derive(Debug, PartialEq)]
pub struct GameChanges {
    pub title: Option<String>,
    pub description: Option<String>,
    pub genre: Option<String>,
}

/// Every event the services publish, keyed by originating entity and action.
#[derive(Debug, PartialEq)]
pub enum DomainEvent {
    UserRegistered { id: u128, username: String, email: String, created_at: Option<i64> },
    UserLoggedIn { user_id: u128, time: i64 },
    UserLoggedOut { user_id: u128, time: i64 },
    UserUpdated { id: u128, username: String, email: String },
    UserDeleted { id: u128 },
    GameCreated(GameFields),
    GameUpdated { slug: String, changes: GameChanges },
    GameDeleted { slug: String },
    RatingSubmitted { game_slug: String, user_id: u128, rating: i32, review: Option<String> },
}

/// Mathematical value of `GameFields`: strings become character sequences.
pub struct GameFieldsV {
    pub slug: Seq<char>,
    pub name: Seq<char>,
    pub title: Option<Seq<char>>,
    pub description: Option<Seq<char>>,
    pub genre: Option<Seq<char>>,
    pub created_by: Option<u128>,
    pub created_at: Option<i64>,
}

/// Mathematical value of `GameChanges`.
pub struct GameChangesV {
    pub title: Option<Seq<char>>,
    pub description: Option<Seq<char>>,
    pub genre: Option<Seq<char>>,
}

/// Mathematical value of `DomainEvent`.
pub enum EventV {
    UserRegistered { id: u128, username: Seq<char>, email: Seq<char>, created_at: Option<i64> },
    UserLoggedIn { user_id: u128, time: i64 },
    UserLoggedOut { user_id: u128, time: i64 },
    UserUpdated { id: u128, username: Seq<char>, email: Seq<char> },
    UserDeleted { id: u128 },
    GameCreated(GameFieldsV),
    GameUpdated { slug: Seq<char>, changes: GameChangesV },
    GameDeleted { slug: Seq<char> },
    RatingSubmitted { game_slug: Seq<char>, user_id: u128, rating: i32, review: Option<Seq<char>> },
}

impl View for GameFields {
    type V = GameFieldsV;

    open spec fn view(&self) -> GameFieldsV {
        GameFieldsV {
            slug: self.slug@,
            name: self.name@,
            title: self.title.deep_view(),
            description: self.description.deep_view(),
            genre: self.genre.deep_view(),
            created_by: self.created_by,
            created_at: self.created_at,
        }
    }
}

impl View for GameChanges {
    type V = GameChangesV;

    open spec fn view(&self) -> GameChangesV {
        GameChangesV {
            title: self.title.deep_view(),
            description: self.description.deep_view(),
            genre: self.genre.deep_view(),
        }
    }
}

impl View for DomainEvent {
    type V = EventV;

    open spec fn view(&self) -> EventV {
        match *self {
            DomainEvent::UserRegistered { id, ref username, ref email, created_at } => {
                EventV::UserRegistered { id, username: username@, email: email@, created_at }
            },
            DomainEvent::UserLoggedIn { user_id, time } => EventV::UserLoggedIn { user_id, time },
            DomainEvent::UserLoggedOut { user_id, time } => EventV::UserLoggedOut {
                user_id,
                time,
            },
            DomainEvent::UserUpdated { id, ref username, ref email } => EventV::UserUpdated {
                id,
                username: username@,
                email: email@,
            },
            DomainEvent::UserDeleted { id } => EventV::UserDeleted { id },
            DomainEvent::GameCreated(ref g) => EventV::GameCreated(g@),
            DomainEvent::GameUpdated { ref slug, ref changes } => EventV::GameUpdated {
                slug: slug@,
                changes: changes@,
            },
            DomainEvent::GameDeleted { ref slug } => EventV::GameDeleted { slug: slug@ },
            DomainEvent::RatingSubmitted { ref game_slug, user_id, rating, ref review } => {
                EventV::RatingSubmitted {
                    game_slug: game_slug@,
                    user_id,
                    rating,
                    review: review.deep_view(),
                }
            },
        }
    }
}

/// Topic of events that originate in the user service.
pub open spec fn user_topic() -> Seq<char> {
    "user_events"@
}

/// Topic of events that originate in the admin service.
pub open spec fn admin_topic() -> Seq<char> {
    "admin_events"@
}

/// Topic of events that originate in the game catalogue.
pub open spec fn game_topic() -> Seq<char> {
    "game_events"@
}

/// Each event goes on the topic of the service that emits it: user-lifecycle
/// and rating events on the user topic, administrative deletions on the
/// admin topic, catalogue changes on the game topic.
pub open spec fn topic_of(e: EventV) -> Seq<char> {
    match e {
        EventV::UserRegistered { .. } => user_topic(),
        EventV::UserLoggedIn { .. } => user_topic(),
        EventV::UserLoggedOut { .. } => user_topic(),
        EventV::UserUpdated { .. } => user_topic(),
        EventV::UserDeleted { .. } => admin_topic(),
        EventV::GameCreated(_) => game_topic(),
        EventV::GameUpdated { .. } => game_topic(),
        EventV::GameDeleted { .. } => game_topic(),
        EventV::RatingSubmitted { .. } => user_topic(),
    }
}

/// A message type that knows the topic it belongs on.
pub trait KafkaTopic {
    /// The topic, as a mathematical value.
    spec fn spec_topic(&self) -> Seq<char>;

    /// The topic name to address the broker with.
    fn topic_name(&self) -> (r: String)
        ensures
            r@ == self.spec_topic(),
    ;
}

impl KafkaTopic for DomainEvent {
    open spec fn spec_topic(&self) -> Seq<char> {
        topic_of(self@)
    }

    fn topic_name(&self) -> (r: String)
        ensures
            r@ == self.spec_topic(),
    {
        proof {
            reveal_strlit("user_events");
            reveal_strlit("admin_events");
            reveal_strlit("game_events");
        }
        match self {
            DomainEvent::UserDeleted { .. } => String::from_str("admin_events"),
            DomainEvent::GameCreated(_) => String::from_str("game_events"),
            DomainEvent::GameUpdated { .. } => String::from_str("game_events"),
            DomainEvent::GameDeleted { .. } => String::from_str("game_events"),
            _ => String::from_str("user_events"),
        }
    }
}

/// What the publish path hands to the broker: a topic and the serialized
/// payload.
pub struct Envelope {
    pub topic: String,
    pub payload: String,
}

/// Mathematical value of `Envelope`.
pub struct EnvelopeV {
    pub topic: Seq<char>,
    pub payload: Seq<char>,
}

impl View for Envelope {
    type V = EnvelopeV;

    open spec fn view(&self) -> EnvelopeV {
        EnvelopeV { topic: self.topic@, payload: self.payload@ }
    }
}

/// A raw message as the dispatch loop receives it from the broker: the topic
/// it arrived on and its payload, which a broker message may lack.
pub struct InboundMessage {
    pub topic: String,
    pub payload: Option<String>,
}

/// Mathematical value of `InboundMessage`.
pub struct InboundMessageV {
    pub topic: Seq<char>,
    pub payload: Option<Seq<char>>,
}

impl View for InboundMessage {
    type V = InboundMessageV;

    open spec fn view(&self) -> InboundMessageV {
        InboundMessageV { topic: self.topic@, payload: self.payload.deep_view() }
    }
}

} // verus!
