use gamesync::codec::{decode_event, encode_event};
use gamesync::events::{DomainEvent, GameChanges, GameFields, KafkaTopic};
use gamesync::publish::{push_to_broker, PublishBuffer};

fn round_trips(e: DomainEvent) {
    let wire = encode_event(&e);
    let back = decode_event(wire.as_str()).expect("canonical text must decode");
    assert_eq!(back, e);
}

#[test]
fn user_registered_round_trips() {
    round_trips(DomainEvent::UserRegistered {
        id: 7,
        username: "Ada".to_string(),
        email: "ada@calc.example".to_string(),
        created_at: Some(1_700_000_000_000_000),
    });
    round_trips(DomainEvent::UserRegistered {
        id: u128::MAX,
        username: String::new(),
        email: String::new(),
        created_at: None,
    });
}

#[test]
fn session_events_round_trip() {
    round_trips(DomainEvent::UserLoggedIn { user_id: 1, time: -62_135_596_800 });
    round_trips(DomainEvent::UserLoggedOut { user_id: 2, time: i64::MAX });
    round_trips(DomainEvent::UserLoggedIn { user_id: 0, time: i64::MIN });
}

#[test]
fn user_updated_and_deleted_round_trip() {
    round_trips(DomainEvent::UserUpdated {
        id: 9,
        username: "new \"name\"".to_string(),
        email: "a\\b@x.example".to_string(),
    });
    round_trips(DomainEvent::UserDeleted { id: 1234567890123456789012345678901234567 });
}

#[test]
fn game_events_round_trip() {
    round_trips(DomainEvent::GameCreated(GameFields {
        slug: "srv-chess-1".to_string(),
        name: "Chess".to_string(),
        title: Some("Chess Deluxe".to_string()),
        description: None,
        genre: Some("strategy".to_string()),
        created_by: Some(42),
        created_at: Some(1),
    }));
    round_trips(DomainEvent::GameUpdated {
        slug: "srv-chess-1".to_string(),
        changes: GameChanges {
            title: None,
            description: Some("with \\ and \" inside".to_string()),
            genre: None,
        },
    });
    round_trips(DomainEvent::GameDeleted { slug: "srv-chess-1".to_string() });
}

#[test]
fn rating_submitted_round_trips() {
    round_trips(DomainEvent::RatingSubmitted {
        game_slug: "srv-chess-1".to_string(),
        user_id: 3,
        rating: 5,
        review: Some("good, would \"rate\" again".to_string()),
    });
    round_trips(DomainEvent::RatingSubmitted {
        game_slug: String::new(),
        user_id: 0,
        rating: 1,
        review: None,
    });
}

#[test]
fn malformed_payloads_are_rejected() {
    for bad in [
        "",
        "{",
        "nonsense",
        "{\"NoSuchVariant\":{\"id\":1}}",
        "{\"UserDeleted\":{\"id\":}}",
        "{\"UserDeleted\":{\"id\":1}",
        "{\"UserDeleted\":{\"id\":1}} ",
        "{\"UserDeleted\":{\"id\":-1}}",
        "{\"UserDeleted\":{\"id\":1}}}",
        "{\"UserLoggedIn\":{\"user_id\":1,\"time\":\"soon\"}}",
    ] {
        assert!(decode_event(bad).is_none(), "{bad:?} should not decode");
    }
}

#[test]
fn a_number_too_large_for_the_id_is_rejected() {
    // One more than u128::MAX.
    let wire = "{\"UserDeleted\":{\"id\":340282366920938463463374607431768211456}}";
    assert!(decode_event(wire).is_none());
}

#[test]
fn the_wire_text_is_valid_json() {
    let e = DomainEvent::GameCreated(GameFields {
        slug: "srv-go-9".to_string(),
        name: "Go".to_string(),
        title: None,
        description: Some("black \"vs\" white".to_string()),
        genre: None,
        created_by: None,
        created_at: Some(-5),
    });
    let wire = encode_event(&e);
    let value: serde_json::Value = serde_json::from_str(wire.as_str()).expect("valid JSON");
    let body = value.get("GameCreated").expect("externally tagged");
    assert_eq!(body.get("slug").unwrap().as_str(), Some("srv-go-9"));
    assert_eq!(body.get("name").unwrap().as_str(), Some("Go"));
    assert!(body.get("title").unwrap().is_null());
    assert_eq!(body.get("description").unwrap().as_str(), Some("black \"vs\" white"));
    assert_eq!(body.get("created_at").unwrap().as_i64(), Some(-5));
}

#[test]
fn topics_follow_the_entity_family() {
    let user = DomainEvent::UserLoggedIn { user_id: 1, time: 0 };
    let admin = DomainEvent::UserDeleted { id: 1 };
    let game = DomainEvent::GameDeleted { slug: "s".to_string() };
    let rating = DomainEvent::RatingSubmitted {
        game_slug: "s".to_string(),
        user_id: 1,
        rating: 3,
        review: None,
    };
    assert_eq!(user.topic_name(), "user_events");
    assert_eq!(admin.topic_name(), "admin_events");
    assert_eq!(game.topic_name(), "game_events");
    assert_eq!(rating.topic_name(), "user_events");
}

#[test]
fn the_publish_buffer_is_first_in_first_out() {
    let mut buffer = PublishBuffer::new();
    push_to_broker(&mut buffer, &DomainEvent::UserDeleted { id: 1 });
    push_to_broker(&mut buffer, &DomainEvent::GameDeleted { slug: "g".to_string() });
    assert_eq!(buffer.len(), 2);
    let first = buffer.take_next().unwrap();
    assert_eq!(first.topic, "admin_events");
    assert_eq!(first.payload, "{\"UserDeleted\":{\"id\":1}}");
    let second = buffer.take_next().unwrap();
    assert_eq!(second.topic, "game_events");
    assert!(buffer.take_next().is_none());
}
