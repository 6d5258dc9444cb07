use gamesync::admin;
use gamesync::auth::{
    extract_token, make_claims, role_permitted, session_user, validate_claims, AdminRealm, Role,
    RoleRestrictor, UserRealm,
};
use gamesync::dispatch::GameServiceState;
use gamesync::errors::{CustomError, DbErrorKind};
use gamesync::events::{DomainEvent, GameChanges};
use gamesync::game;
use gamesync::search::SearchIndex;
use gamesync::settings::{
    DatabaseSettings, DomainSettings, JwtSettings, KafkaSettings, Paginate, RedisSettings,
    ServiceSettings, Settings,
};
use gamesync::store::{GameTable, ProjectedUser, UserTable};
use gamesync::user;
use gamesync::user::{StatusEnum, VerificationTable};
use gamesync::validation::CreateUserBody;

fn response_of(e: &CustomError) -> (u16, String) {
    e.error_response()
}

#[test]
fn error_responses_carry_the_right_status() {
    let v = CustomError::ValidationError("nope".to_string());
    assert_eq!(response_of(&v), (400, "Validation Error: nope".to_string()));
    let d = CustomError::DatabaseError {
        msg: "m".to_string(),
        resp: "gone".to_string(),
        status_code: 404,
    };
    assert_eq!(response_of(&d), (404, "gone".to_string()));
    let a = CustomError::AuthenticationError(gamesync::errors::AuthError::InvalidSession(
        "s".to_string(),
    ));
    assert_eq!(response_of(&a).0, 401);
    let u = CustomError::UnexpectedError("x".to_string());
    assert_eq!(response_of(&u), (500, "Unexpected Error Occured".to_string()));
}

#[test]
fn the_user_db_mapping_names_its_constraints() {
    let taken = user::diesel_db_response_error(&DbErrorKind::UniqueViolation {
        constraint: Some("unique_username".to_string()),
    });
    assert_eq!(response_of(&taken), (400, "Username has already been taken".to_string()));
    let email = user::diesel_db_response_error(&DbErrorKind::UniqueViolation {
        constraint: Some("unique_email".to_string()),
    });
    assert_eq!(response_of(&email).0, 400);
    let missing = user::diesel_db_response_error(&DbErrorKind::NotFound);
    assert_eq!(response_of(&missing), (404, "Record not found".to_string()));
    let other = user::diesel_db_response_error(&DbErrorKind::Other);
    assert_eq!(response_of(&other).0, 500);
}

#[test]
fn the_game_db_mapping_reads_the_constraint() {
    let fk = game::diesel_db_response_error(&DbErrorKind::ForeignKeyViolation {
        constraint: Some("fk_game".to_string()),
    });
    assert_eq!(response_of(&fk), (400, "Game doesn't exist".to_string()));
    let check = game::diesel_db_response_error(&DbErrorKind::CheckViolation {
        constraint: Some("chk_rating_range".to_string()),
    });
    assert_eq!(response_of(&check), (400, "Rating must be between 1 and 5".to_string()));
    let check_other = game::diesel_db_response_error(&DbErrorKind::CheckViolation {
        constraint: Some("chk_other".to_string()),
    });
    assert_eq!(response_of(&check_other).0, 500);
}

#[test]
fn registration_builds_the_event() {
    let body = CreateUserBody {
        username: "Ada".to_string(),
        password: "pw".to_string(),
        email: "ada@calc.example".to_string(),
    };
    let (name, email, event) = user::prepare_registration(body, 7, 99).expect("valid");
    assert_eq!(name.as_str(), "Ada");
    assert_eq!(email.as_str(), "ada@calc.example");
    assert_eq!(
        event,
        DomainEvent::UserRegistered {
            id: 7,
            username: "Ada".to_string(),
            email: "ada@calc.example".to_string(),
            created_at: Some(99),
        },
    );
}

#[test]
fn email_verification_redeems_once_and_expires() {
    let mut table = VerificationTable::new();
    table.put_pending(7, "tok-a".to_string(), 100);
    assert_eq!(table.status_of(7), Some(StatusEnum::Pending));
    assert!(user::require_verified(StatusEnum::Pending).is_err());
    // Wrong token, expired token, then a good redemption.
    assert!(table.verify_token("tok-b", 50).is_err());
    assert!(table.verify_token("tok-a", 100).is_err());
    assert!(table.verify_token("tok-a", 50).is_ok());
    assert_eq!(table.status_of(7), Some(StatusEnum::Verified));
    assert!(user::require_verified(StatusEnum::Verified).is_ok());
    // A redeemed token cannot be redeemed again.
    assert!(table.verify_token("tok-a", 50).is_err());
    assert!(user::require_pending(StatusEnum::Verified).is_err());
}

#[test]
fn the_resend_path_reissues_a_pending_token() {
    let mut table = VerificationTable::new();
    table.put_pending(7, "tok-a".to_string(), 100);
    assert!(user::require_pending(StatusEnum::Pending).is_ok());
    table.put_pending(7, "tok-b".to_string(), 200);
    assert_eq!(table.len(), 1);
    assert!(table.verify_token("tok-a", 50).is_err());
    assert!(table.verify_token("tok-b", 150).is_ok());
}

#[test]
fn update_confirmation_requires_a_row() {
    assert!(user::confirm_update(0).is_err());
    assert!(user::confirm_update(1).is_ok());
}

#[test]
fn the_slug_is_prefixed_lowercased_and_dashed() {
    let id: u128 = 0x00112233_4455_6677_8899_aabbccddeeff;
    let slug = admin::derive_slug("My Great Game", id);
    assert_eq!(slug, "srv-my-great-game-00112233-4455-6677-8899-aabbccddeeff");
}

#[test]
fn creating_updating_and_deleting_games_emits_events() {
    let mut games = GameTable::new();
    let body = admin::CreateGameBody {
        name: "Chess".to_string(),
        title: Some("t".to_string()),
        description: None,
        genre: None,
    };
    let created = admin::create_game(&mut games, body, 1, 2, 3).expect("created");
    let slug = match &created {
        DomainEvent::GameCreated(g) => {
            assert_eq!(g.name, "Chess");
            assert_eq!(g.created_by, Some(1));
            assert_eq!(g.created_at, Some(3));
            g.slug.clone()
        },
        other => panic!("expected a creation event, got {other:?}"),
    };
    assert!(games.get_by_slug(slug.as_str()).is_some());

    let updated = admin::update_game(
        &mut games,
        &slug,
        GameChanges { title: Some("t2".to_string()), description: None, genre: None },
    )
    .expect("updated");
    assert!(matches!(updated, DomainEvent::GameUpdated { .. }));
    assert_eq!(games.get_by_slug(slug.as_str()).unwrap().title.as_deref(), Some("t2"));

    let missing = admin::update_game(
        &mut games,
        &"srv-none-0".to_string(),
        GameChanges { title: None, description: None, genre: None },
    );
    assert!(missing.is_err());

    let deleted = admin::delete_game(&mut games, &slug).expect("deleted");
    assert!(matches!(deleted, DomainEvent::GameDeleted { .. }));
    assert!(admin::delete_game(&mut games, &slug).is_err());
    assert!(admin::get_game(&games, slug.as_str()).is_err());
}

#[test]
fn admin_user_routes_answer_by_key() {
    let mut users = UserTable::new();
    users.insert_user(ProjectedUser {
        id: 1,
        username: "a".to_string(),
        email: "a@x.example".to_string(),
        created_at: None,
    });
    users.insert_user(ProjectedUser {
        id: 2,
        username: "b".to_string(),
        email: "b@x.example".to_string(),
        created_at: None,
    });
    users.insert_user(ProjectedUser {
        id: 3,
        username: "c".to_string(),
        email: "c@x.example".to_string(),
        created_at: None,
    });
    assert_eq!(admin::get_user_by_id(&users, 2).unwrap().username, "b");
    assert!(admin::get_user_by_id(&users, 9).is_err());
    let page = admin::get_users(&users, &Paginate { page: 2, limit: 2 });
    assert_eq!(page, vec![3]);
    let event = admin::delete_user(&mut users, 2).expect("deleted");
    assert_eq!(event, DomainEvent::UserDeleted { id: 2 });
    assert!(admin::delete_user(&mut users, 2).is_err());
    assert_eq!(users.len(), 2);
    assert!(admin::confirm_admin_insert(0).is_err());
    assert!(admin::confirm_admin_insert(1).is_ok());
}

#[test]
fn rating_checks_bounds_and_the_catalogue() {
    let mut state = GameServiceState::new();
    let bad = game::rate(
        &mut state,
        game::RateGameRequest { game_slug: "srv-a-1".to_string(), rating: 6, review: None },
        1,
        10,
        0,
    );
    match bad {
        Err(CustomError::ValidationError(m)) => {
            assert_eq!(m, "Rating must be between 1 and 5.");
        },
        other => panic!("expected a validation error, got {other:?}"),
    }
    let unknown = game::rate(
        &mut state,
        game::RateGameRequest { game_slug: "srv-a-1".to_string(), rating: 4, review: None },
        1,
        10,
        0,
    );
    match unknown {
        Err(e) => assert_eq!(e.error_response(), (400, "Game doesn't exist".to_string())),
        Ok(_) => panic!("expected the foreign-key failure"),
    }

    let body = admin::CreateGameBody {
        name: "A".to_string(),
        title: None,
        description: None,
        genre: None,
    };
    let mut games = GameTable::new();
    let created = admin::create_game(&mut games, body, 1, 2, 3).unwrap();
    let slug = match &created {
        DomainEvent::GameCreated(g) => g.slug.clone(),
        _ => unreachable!(),
    };
    // Mirror the creation into the game service as the dispatch loop would.
    let msg = gamesync::events::InboundMessage {
        topic: "game_events".to_string(),
        payload: Some(gamesync::codec::encode_event(&created)),
    };
    gamesync::dispatch::game_dispatch_step(&mut state, &msg);

    let ok = game::rate(
        &mut state,
        game::RateGameRequest { game_slug: slug.clone(), rating: 4, review: Some("good".to_string()) },
        1,
        10,
        77,
    )
    .expect("rated");
    assert_eq!(
        ok,
        DomainEvent::RatingSubmitted {
            game_slug: slug.clone(),
            user_id: 1,
            rating: 4,
            review: Some("good".to_string()),
        },
    );
    assert_eq!(state.ratings.len(), 1);
    let doc = state.index.get_doc(slug.as_str()).unwrap();
    assert_eq!(doc.average_parts(), Some((4, 1)));
}

#[test]
fn the_game_listing_ranks_by_average_desc() {
    let mut index = SearchIndex::new();
    for (slug, name) in [("srv-a-1", "A"), ("srv-b-1", "B"), ("srv-c-1", "C")] {
        index.index_game(&gamesync::events::GameFields {
            slug: slug.to_string(),
            name: name.to_string(),
            title: None,
            description: None,
            genre: None,
            created_by: None,
            created_at: None,
        });
    }
    // A averages 3, B averages 4.5, C stays unrated.
    index.submit_rating("srv-a-1", 3);
    index.submit_rating("srv-b-1", 4);
    index.submit_rating("srv-b-1", 5);
    let page = game::get_game(&index, &Paginate { page: 1, limit: 10 });
    let slugs: Vec<&str> = page.iter().map(|d| d.slug.as_str()).collect();
    assert_eq!(slugs, vec!["srv-b-1", "srv-a-1", "srv-c-1"]);
    let second = game::get_game(&index, &Paginate { page: 2, limit: 2 });
    let slugs: Vec<&str> = second.iter().map(|d| d.slug.as_str()).collect();
    assert_eq!(slugs, vec!["srv-c-1"]);
}

#[test]
fn claims_are_issued_and_checked_against_the_clock() {
    let claims = make_claims("7", 1000, "sid-1");
    assert_eq!(claims.sub, "7");
    assert_eq!(claims.exp, 4600);
    assert_eq!(claims.iss, "auth");
    assert_eq!(claims.iat, 1000);
    assert_eq!(claims.nfb, 1010);
    assert_eq!(claims.sid, "sid-1");
    assert_eq!(validate_claims(&claims, 1005), Err("Token not valid yet".to_string()));
    assert_eq!(validate_claims(&claims, 1010), Ok(()));
    assert_eq!(validate_claims(&claims, 4601), Err("Token expired".to_string()));
    let mut wrong = make_claims("7", 1000, "sid-1");
    wrong.iss = "someone".to_string();
    assert_eq!(validate_claims(&wrong, 2000), Err("Invalid issuer".to_string()));
}

#[test]
fn bearer_tokens_are_extracted_from_the_header() {
    assert_eq!(extract_token(Some("Bearer abc.def")), Ok("abc.def".to_string()));
    assert_eq!(extract_token(Some("abc.def")), Ok("abc.def".to_string()));
    assert_eq!(extract_token(Some("Bearer ")), Err("Invalid token".to_string()));
    assert_eq!(extract_token(None), Err("Missing token".to_string()));
}

#[test]
fn session_lookups_map_to_auth_errors() {
    assert_eq!(session_user(Some("7".to_string())), Ok("7".to_string()));
    assert!(matches!(
        session_user(None),
        Err(CustomError::AuthenticationError(gamesync::errors::AuthError::InvalidSession(_))),
    ));
    assert!(gamesync::auth::login_outcome(7, true).is_ok());
    assert!(gamesync::auth::login_outcome(7, false).is_err());
    assert!(gamesync::auth::credentials_row(None).is_err());
}

#[test]
fn role_gates_admit_exactly_their_role() {
    assert_eq!(UserRealm::role_allowed(), Role::User);
    assert_eq!(AdminRealm::role_allowed(), Role::Admin);
    assert!(role_permitted::<UserRealm>(Role::User));
    assert!(!role_permitted::<UserRealm>(Role::Admin));
    assert!(role_permitted::<AdminRealm>(Role::Admin));
    assert!(gamesync::auth::parsed_session_user(Some(7)).is_ok());
    assert!(gamesync::auth::parsed_session_user(None).is_err());
}

#[test]
fn the_gateway_targets_the_named_service() {
    let settings = Settings {
        service: ServiceSettings {
            user_service_port: 8001,
            admin_service_port: 8002,
            game_service_port: 8003,
            gateway_service_port: 8000,
        },
        databases: DatabaseSettings {
            user_db_url: String::new(),
            admin_db_url: String::new(),
            game_db_url: String::new(),
        },
        redis: RedisSettings { uri: String::new() },
        jwt: JwtSettings { secret: String::new() },
        kafka: KafkaSettings {
            user_url: String::new(),
            admin_url: String::new(),
            game_url: String::new(),
            user_topics: vec![],
            admin_topics: vec![],
            game_topics: vec![],
            user_consumer_group: String::new(),
            admin_subscribe_topics: vec![],
            game_subscribe_topics: vec![],
            game_consumer_group: String::new(),
            user_subscribe_topics: vec![],
        },
        domain: DomainSettings {
            user_service_domain: "users.internal".to_string(),
            admin_service_domain: "admin.internal".to_string(),
            game_service_domain: "games.internal".to_string(),
            gateway_service_domain: "gw.internal".to_string(),
        },
    };
    assert_eq!(
        settings.forward_target("user", "login"),
        Some("http://users.internal:8001/login".to_string()),
    );
    assert_eq!(
        settings.forward_target("game", "api/v1/rate"),
        Some("http://games.internal:8003/api/v1/rate".to_string()),
    );
    assert_eq!(settings.forward_target("billing", "x"), None);
}
