use gamesync::codec::encode_event;
use gamesync::dispatch::{
    game_dispatch_step, process_kafka_game_message, AdminServiceState, DispatchOutcome,
    GameServiceState, UserServiceState,
};
use gamesync::events::{DomainEvent, GameChanges, GameFields, InboundMessage, KafkaTopic};

fn game_fields(slug: &str, name: &str) -> GameFields {
    GameFields {
        slug: slug.to_string(),
        name: name.to_string(),
        title: Some("t".to_string()),
        description: Some("d".to_string()),
        genre: Some("g".to_string()),
        created_by: Some(1),
        created_at: Some(10),
    }
}

fn message_of(e: &DomainEvent) -> InboundMessage {
    InboundMessage { topic: e.topic_name(), payload: Some(encode_event(e)) }
}

#[test]
fn idempotent_create_leaves_one_row() {
    let mut state = GameServiceState::new();
    let created = DomainEvent::GameCreated(game_fields("srv-a-1", "A"));
    let msg = message_of(&created);
    let twice = vec![
        InboundMessage { topic: msg.topic.clone(), payload: msg.payload.clone() },
        msg,
    ];
    let outcomes = process_kafka_game_message(&mut state, &twice);
    assert_eq!(outcomes, vec![DispatchOutcome::Applied, DispatchOutcome::Applied]);
    assert_eq!(state.games.len(), 1);
    assert_eq!(state.index.len(), 1);
    assert!(state.games.get_by_slug("srv-a-1").is_some());
}

#[test]
fn delete_after_create_leaves_nothing() {
    let mut state = GameServiceState::new();
    let msgs = vec![
        message_of(&DomainEvent::GameCreated(game_fields("srv-a-1", "A"))),
        message_of(&DomainEvent::GameDeleted { slug: "srv-a-1".to_string() }),
    ];
    process_kafka_game_message(&mut state, &msgs);
    assert_eq!(state.games.len(), 0);
    assert_eq!(state.index.len(), 0);
    assert!(state.games.get_by_slug("srv-a-1").is_none());
    assert!(state.index.get_doc("srv-a-1").is_none());
}

#[test]
fn a_malformed_payload_does_not_stop_the_loop() {
    let mut state = GameServiceState::new();
    let msgs = vec![
        InboundMessage {
            topic: "game_events".to_string(),
            payload: Some("{\"GameCreated\": broken".to_string()),
        },
        InboundMessage { topic: "game_events".to_string(), payload: None },
        message_of(&DomainEvent::GameCreated(game_fields("srv-a-1", "A"))),
    ];
    let outcomes = process_kafka_game_message(&mut state, &msgs);
    assert_eq!(
        outcomes,
        vec![DispatchOutcome::Malformed, DispatchOutcome::MissingPayload, DispatchOutcome::Applied],
    );
    assert_eq!(state.games.len(), 1);
}

#[test]
fn an_event_on_the_wrong_topic_is_dropped() {
    let mut state = GameServiceState::new();
    let created = DomainEvent::GameCreated(game_fields("srv-a-1", "A"));
    let misrouted = InboundMessage {
        topic: "user_events".to_string(),
        payload: Some(encode_event(&created)),
    };
    assert_eq!(game_dispatch_step(&mut state, &misrouted), DispatchOutcome::Malformed);
    assert_eq!(state.games.len(), 0);
    let unknown = InboundMessage {
        topic: "other_events".to_string(),
        payload: Some(encode_event(&created)),
    };
    assert_eq!(game_dispatch_step(&mut state, &unknown), DispatchOutcome::UnknownTopic);
}

#[test]
fn an_update_before_its_create_is_skipped_not_crashed() {
    let mut state = GameServiceState::new();
    let update = DomainEvent::GameUpdated {
        slug: "srv-a-1".to_string(),
        changes: GameChanges {
            title: Some("late".to_string()),
            description: None,
            genre: None,
        },
    };
    let outcomes = process_kafka_game_message(&mut state, &vec![message_of(&update)]);
    assert_eq!(outcomes, vec![DispatchOutcome::Applied]);
    assert_eq!(state.games.len(), 0);
    assert_eq!(state.index.len(), 0);
}

#[test]
fn an_update_overlays_only_the_changed_fields() {
    let mut state = GameServiceState::new();
    let msgs = vec![
        message_of(&DomainEvent::GameCreated(game_fields("srv-a-1", "A"))),
        message_of(&DomainEvent::GameUpdated {
            slug: "srv-a-1".to_string(),
            changes: GameChanges {
                title: Some("new title".to_string()),
                description: None,
                genre: None,
            },
        }),
    ];
    process_kafka_game_message(&mut state, &msgs);
    let row = state.games.get_by_slug("srv-a-1").unwrap();
    assert_eq!(row.title.as_deref(), Some("new title"));
    assert_eq!(row.description.as_deref(), Some("d"));
    let doc = state.index.get_doc("srv-a-1").unwrap();
    assert_eq!(doc.title.as_deref(), Some("new title"));
    assert_eq!(doc.rating_count, 0);
    assert!(doc.average_parts().is_none());
}

#[test]
fn the_admin_service_projects_users_and_logs_sessions() {
    let mut state = AdminServiceState::new();
    let msgs = vec![
        message_of(&DomainEvent::UserRegistered {
            id: 5,
            username: "u".to_string(),
            email: "u@x.example".to_string(),
            created_at: Some(3),
        }),
        message_of(&DomainEvent::UserLoggedIn { user_id: 5, time: 4 }),
        message_of(&DomainEvent::RatingSubmitted {
            game_slug: "srv-a-1".to_string(),
            user_id: 5,
            rating: 4,
            review: None,
        }),
        message_of(&DomainEvent::UserUpdated {
            id: 5,
            username: "u2".to_string(),
            email: "u2@x.example".to_string(),
        }),
        message_of(&DomainEvent::UserLoggedOut { user_id: 5, time: 9 }),
    ];
    let outcomes = gamesync::admin::process_kafka_message(&mut state, &msgs);
    assert_eq!(outcomes.len(), 5);
    assert!(outcomes.iter().all(|o| *o == DispatchOutcome::Applied));
    assert_eq!(state.users.len(), 1);
    assert_eq!(state.events.len(), 3);
    let row = state.users.get_by_id(5).unwrap();
    assert_eq!(row.username, "u2");
    assert_eq!(row.created_at, Some(3));
}

#[test]
fn a_duplicate_registration_does_not_resurrect_old_data() {
    let mut state = AdminServiceState::new();
    let first = message_of(&DomainEvent::UserRegistered {
        id: 5,
        username: "first".to_string(),
        email: "a@x.example".to_string(),
        created_at: None,
    });
    let duplicate = message_of(&DomainEvent::UserRegistered {
        id: 5,
        username: "second".to_string(),
        email: "b@x.example".to_string(),
        created_at: None,
    });
    gamesync::admin::process_kafka_message(&mut state, &vec![first, duplicate]);
    assert_eq!(state.users.len(), 1);
    assert_eq!(state.users.get_by_id(5).unwrap().username, "first");
}

#[test]
fn the_user_service_deletes_on_the_admin_topic() {
    let mut game_state = GameServiceState::new();
    let registered = DomainEvent::UserRegistered {
        id: 5,
        username: "u".to_string(),
        email: "u@x.example".to_string(),
        created_at: None,
    };
    process_kafka_game_message(&mut game_state, &vec![message_of(&registered)]);
    assert_eq!(game_state.users.len(), 1);

    let mut user_state = UserServiceState::new();
    user_state.users.insert_user(gamesync::store::ProjectedUser {
        id: 5,
        username: "u".to_string(),
        email: "u@x.example".to_string(),
        created_at: None,
    });
    let deleted = message_of(&DomainEvent::UserDeleted { id: 5 });
    let outcomes = gamesync::user::process_kafka_message(&mut user_state, &vec![deleted]);
    assert_eq!(outcomes, vec![DispatchOutcome::Applied]);
    assert_eq!(user_state.users.len(), 0);
    // Deleting an id nobody holds is skipped, not failed.
    let again = message_of(&DomainEvent::UserDeleted { id: 5 });
    let outcomes = gamesync::user::process_kafka_message(&mut user_state, &vec![again]);
    assert_eq!(outcomes, vec![DispatchOutcome::Applied]);
    assert_eq!(user_state.users.len(), 0);
}

#[test]
fn sequential_ratings_average_exactly() {
    let mut state = GameServiceState::new();
    process_kafka_game_message(
        &mut state,
        &vec![message_of(&DomainEvent::GameCreated(game_fields("srv-a-1", "A")))],
    );
    let mut seen: Vec<(u64, u64)> = Vec::new();
    for rating in [4, 5, 3] {
        state.index.submit_rating("srv-a-1", rating);
        let doc = state.index.get_doc("srv-a-1").unwrap();
        seen.push(doc.average_parts().unwrap());
    }
    assert_eq!(seen, vec![(4, 1), (9, 2), (12, 3)]);
    let averages: Vec<f64> = seen.iter().map(|(s, c)| *s as f64 / *c as f64).collect();
    assert_eq!(averages, vec![4.0, 4.5, 4.0]);
    let counts: Vec<u64> = seen.iter().map(|(_, c)| *c).collect();
    assert_eq!(counts, vec![1, 2, 3]);
}

#[test]
fn interleaved_ratings_lose_an_update() {
    // Regression guard for the unsynchronized read-modify-write: both
    // aggregators read (0, 0) before either writes, so one submission is
    // silently lost and the count ends at 1 instead of 2.
    let mut state = GameServiceState::new();
    process_kafka_game_message(
        &mut state,
        &vec![message_of(&DomainEvent::GameCreated(game_fields("srv-a-1", "A")))],
    );
    let read_one = state.index.read_rating_state("srv-a-1");
    let read_two = state.index.read_rating_state("srv-a-1");
    assert_eq!(read_one, (0, 0));
    assert_eq!(read_two, (0, 0));
    state.index.write_rating_state("srv-a-1", read_one.0 + 4, read_one.1 + 1);
    state.index.write_rating_state("srv-a-1", read_two.0 + 2, read_two.1 + 1);
    let doc = state.index.get_doc("srv-a-1").unwrap();
    assert_eq!(doc.rating_count, 1);
    assert_ne!(doc.rating_count, 2);
    assert_eq!(doc.rating_sum, 2);
}

#[test]
fn rating_a_missing_document_leaves_the_index_alone() {
    let mut state = GameServiceState::new();
    state.index.submit_rating("srv-ghost-1", 5);
    assert_eq!(state.index.len(), 0);
}
