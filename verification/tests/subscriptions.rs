use mailomat::app::AppState;
use mailomat::email_client::{EmailClient, OutboundEmail, TransportError};
use mailomat::model::{ModelManager, StoreError, SubscriptionStatus};
use mailomat::templ_manager::TemplateManager;
use mailomat::token::TokenError;
use mailomat::web::data::{
    validate, DeserSubscriber, MalformedInput, SubscriberEmail, ValidationError,
};
use mailomat::web::response::{
    ErrorKind, BAD_REQUEST, INTERNAL_SERVER_ERROR, NOT_FOUND, OK, UNPROCESSABLE_ENTITY,
};
use mailomat::web::subscriptions::{conclude_subscription, confirm, subscribe, SubscribeError};

const BASE_URL: &str = "http://127.0.0.1";

fn spawn_test_app() -> AppState {
    let sender = SubscriberEmail::parse("newsletter@example.com".to_string()).unwrap();
    let email_client = EmailClient::new(
        "http://localhost:8080".to_string(),
        sender,
        "transport-token".to_string(),
        10_000,
    );
    AppState::new(ModelManager::init(), TemplateManager::init(), email_client, BASE_URL.to_string())
}

fn entropy(seed: u8) -> [u8; 16] {
    let mut bytes = [0u8; 16];
    for (i, b) in bytes.iter_mut().enumerate() {
        *b = seed.wrapping_add(i as u8);
    }
    bytes
}

/// What the boundary answers to a subscription request with these fields,
/// and the email that was handed to the transport, if one was.
fn post_subscriptions(
    app: &mut AppState,
    name: Option<&str>,
    email: Option<&str>,
    id: u128,
    seed: u8,
) -> (u16, Option<OutboundEmail>) {
    let raw = match DeserSubscriber::from_fields(
        name.map(|s| s.to_string()),
        email.map(|s| s.to_string()),
    ) {
        Ok(raw) => raw,
        Err(e) => return (e.status(), None),
    };
    match subscribe(app, raw, id, &entropy(seed), 1_700_000_000) {
        Err(e) => (e.status(), None),
        Ok(mail) => match conclude_subscription(Ok(())) {
            Ok(()) => (OK, Some(mail)),
            Err(e) => (e.status(), Some(mail)),
        },
    }
}

fn link_in_html(body: &str) -> String {
    let start = body.find("href=\"").unwrap() + "href=\"".len();
    let end = start + body[start..].find('"').unwrap();
    body[start..end].to_string()
}

fn link_in_text(body: &str) -> String {
    let start = body.find("http").unwrap();
    let end = start + body[start..].find(' ').unwrap();
    body[start..end].to_string()
}

#[test]
fn api_subscribe_returns_200_for_valid_json() {
    let mut app = spawn_test_app();
    let (status, mail) =
        post_subscriptions(&mut app, Some("John Doe"), Some("john.doe@example.com"), 1, 0);
    assert_eq!(status, 200, "Wrong response StatusCode: {}", status);
    assert!(mail.is_some());
}

#[test]
fn api_subscribe_persists_the_new_subscriber() {
    let mut app = spawn_test_app();
    post_subscriptions(&mut app, Some("John Doe"), Some("john.doe@example.com"), 1, 0);

    assert_eq!(app.model_mgr().len(), 1);
    let record = app.model_mgr().find_by_email("john.doe@example.com").unwrap();
    assert_eq!(record.email, "john.doe@example.com");
    assert_eq!(record.name, "John Doe");
    assert_eq!(record.status.as_str(), "pending_confirmation");
    assert_eq!(record.id, 1);
    assert_eq!(record.subscribed_at, 1_700_000_000);
}

#[test]
fn api_subscribe_unprocessable_entity() {
    let mut app = spawn_test_app();
    let tests = [
        (Some("John Doe"), None, "Missing email"),
        (None, Some("jd@example.com"), "Null name"),
        (None, None, "Empty json"),
    ];
    for (name, email, params) in tests {
        let (status, mail) = post_subscriptions(&mut app, name, email, 1, 0);
        assert_eq!(
            status, 422,
            "Wrong response: ({}), Expected: ({}); for request with: {params}",
            status, UNPROCESSABLE_ENTITY
        );
        assert!(mail.is_none());
    }
    assert_eq!(app.model_mgr().len(), 0);
}

#[test]
fn api_subscribe_returns_a_400_when_fields_are_present_but_invalid() {
    let mut app = spawn_test_app();
    let cases = vec![
        (Some(""), Some("jd@example.com"), "Empty name"),
        (Some("John Doe"), Some(""), "Empty email"),
        (Some("John Doe"), Some("not an email"), "Invalid email"),
    ];
    for (name, email, description) in cases {
        let (status, mail) = post_subscriptions(&mut app, name, email, 1, 0);
        assert_eq!(
            400, status,
            "The API did not return a 400 BAD REQUEST the payload was {}.",
            description
        );
        assert!(mail.is_none());
    }
    assert_eq!(app.model_mgr().len(), 0);
}

#[test]
fn api_subscribe_duplicated_subscription_still_returns_200() {
    let mut app = spawn_test_app();
    for i in 0..2u8 {
        let (status, _) = post_subscriptions(
            &mut app,
            Some("Ursula"),
            Some("le_guin@gmail.com"),
            10 + i as u128,
            i * 16,
        );
        assert_eq!(status, 200, "failed in iteration {i}");
    }
    assert_eq!(app.model_mgr().len(), 1);
}

#[test]
fn api_subscribe_sends_a_confirmation_email_for_valid_data() {
    let mut app = spawn_test_app();
    let (status, mail) =
        post_subscriptions(&mut app, Some("Ursula"), Some("le_guin@gmail.com"), 1, 0);
    assert_eq!(status, 200);
    let mail = mail.unwrap();
    assert_eq!(mail.to, "le_guin@gmail.com");
    assert_eq!(mail.from, "newsletter@example.com");
    assert_eq!(mail.subject, "Welcome!");
}

#[test]
fn api_subscribe_sends_a_confirmation_email_with_a_link() {
    let mut app = spawn_test_app();
    let (_, mail) = post_subscriptions(&mut app, Some("Ursula"), Some("le_guin@gmail.com"), 1, 0);
    let mail = mail.unwrap();

    let html = link_in_html(&mail.html_body);
    let plain_text = link_in_text(&mail.text_body);
    assert_eq!(html, plain_text);
    assert_eq!(
        html,
        "http://127.0.0.1/subscriptions/confirm?token=000102030405060708090a0b0c0d0e0f"
    );
}

#[test]
fn confirmation_email_bodies_are_exact() {
    let mut app = spawn_test_app();
    let (_, mail) = post_subscriptions(&mut app, Some("Ursula"), Some("le_guin@gmail.com"), 1, 0);
    let mail = mail.unwrap();
    let link = "http://127.0.0.1/subscriptions/confirm?token=000102030405060708090a0b0c0d0e0f";
    assert_eq!(
        mail.html_body,
        format!(
            "Welcome to our newsletter!<br />Click <a href=\"{link}\">here</a> to confirm your subscription."
        )
    );
    assert_eq!(
        mail.text_body,
        format!("Welcome to our newsletter!\nVisit {link} to confirm your subscription.")
    );
}

#[test]
fn subscribe_then_read_gives_one_pending_record() {
    let mut app = spawn_test_app();
    let raw = DeserSubscriber::new("John Doe".to_string(), "john.doe@example.com".to_string());
    assert!(subscribe(&mut app, raw, 7, &entropy(3), 42).is_ok());
    assert_eq!(app.model_mgr().len(), 1);
    let record = app.model_mgr().find_by_email("john.doe@example.com").unwrap();
    assert_eq!(record.status, SubscriptionStatus::PendingConfirmation);
    assert!(app.model_mgr().list_confirmed().is_empty());
}

#[test]
fn second_subscription_reuses_the_first_token() {
    let mut app = spawn_test_app();
    let (_, first) = post_subscriptions(&mut app, Some("Ursula"), Some("le_guin@gmail.com"), 1, 0);
    let (status, second) =
        post_subscriptions(&mut app, Some("Ursula K."), Some("le_guin@gmail.com"), 2, 99);
    assert_eq!(status, OK);
    assert_eq!(first.unwrap().html_body, second.unwrap().html_body);
    let record = app.model_mgr().find_by_email("le_guin@gmail.com").unwrap();
    assert_eq!(record.id, 1);
    assert_eq!(record.name, "Ursula");
    assert_eq!(app.model_mgr().len(), 1);
}

#[test]
fn confirm_moves_the_record_to_confirmed_and_is_idempotent() {
    let mut app = spawn_test_app();
    post_subscriptions(&mut app, Some("Ursula"), Some("le_guin@gmail.com"), 1, 0);
    let token = "000102030405060708090a0b0c0d0e0f";

    assert_eq!(confirm(&mut app, token), Ok(()));
    let record = app.model_mgr().find_by_email("le_guin@gmail.com").unwrap();
    assert_eq!(record.status, SubscriptionStatus::Confirmed);
    assert_eq!(record.status.as_str(), "confirmed");

    assert_eq!(confirm(&mut app, token), Ok(()));
    let record = app.model_mgr().find_by_email("le_guin@gmail.com").unwrap();
    assert_eq!(record.status, SubscriptionStatus::Confirmed);
    assert_eq!(app.model_mgr().len(), 1);
}

#[test]
fn confirm_with_an_unknown_token_is_not_found() {
    let mut app = spawn_test_app();
    post_subscriptions(&mut app, Some("Ursula"), Some("le_guin@gmail.com"), 1, 0);

    let result = confirm(&mut app, "ffffffffffffffffffffffffffffffff");
    assert_eq!(result, Err(TokenError::TokenNotFound));
    assert_eq!(result.unwrap_err().status(), NOT_FOUND);
    assert_eq!(confirm(&mut app, "not even hex"), Err(TokenError::TokenNotFound));
    assert_eq!(confirm(&mut app, ""), Err(TokenError::TokenNotFound));

    let record = app.model_mgr().find_by_email("le_guin@gmail.com").unwrap();
    assert_eq!(record.status, SubscriptionStatus::PendingConfirmation);
}

#[test]
fn a_confirmed_subscriber_stays_confirmed_when_subscribing_again() {
    let mut app = spawn_test_app();
    post_subscriptions(&mut app, Some("Ursula"), Some("le_guin@gmail.com"), 1, 0);
    confirm(&mut app, "000102030405060708090a0b0c0d0e0f").unwrap();
    let (status, _) = post_subscriptions(&mut app, Some("Ursula"), Some("le_guin@gmail.com"), 2, 50);
    assert_eq!(status, OK);
    let record = app.model_mgr().find_by_email("le_guin@gmail.com").unwrap();
    assert_eq!(record.status, SubscriptionStatus::Confirmed);
    assert_eq!(app.model_mgr().len(), 1);
}

#[test]
fn a_taken_id_or_token_is_a_constraint_violation() {
    let mut app = spawn_test_app();
    post_subscriptions(&mut app, Some("Ursula"), Some("le_guin@gmail.com"), 1, 0);

    let same_id = DeserSubscriber::new("John".to_string(), "john@example.com".to_string());
    let result = subscribe(&mut app, same_id, 1, &entropy(77), 5);
    assert_eq!(result.unwrap_err(), SubscribeError::Store(StoreError::ConstraintViolation));

    let same_token = DeserSubscriber::new("John".to_string(), "john@example.com".to_string());
    let result = subscribe(&mut app, same_token, 2, &entropy(0), 5);
    let error = result.unwrap_err();
    assert_eq!(error, SubscribeError::Store(StoreError::ConstraintViolation));
    assert_eq!(error.status(), INTERNAL_SERVER_ERROR);
    assert_eq!(error.kind(), ErrorKind::Store);

    assert_eq!(app.model_mgr().len(), 1);
    assert!(app.model_mgr().find_by_email("john@example.com").is_none());
}

#[test]
fn a_failed_delivery_fails_the_request_and_keeps_the_record() {
    let mut app = spawn_test_app();
    let raw = DeserSubscriber::new("Ursula".to_string(), "le_guin@gmail.com".to_string());
    assert!(subscribe(&mut app, raw, 1, &entropy(0), 5).is_ok());

    let result = conclude_subscription(Err(TransportError::Timeout));
    assert_eq!(result, Err(SubscribeError::Transport(TransportError::Timeout)));
    assert_eq!(result.unwrap_err().status(), INTERNAL_SERVER_ERROR);
    assert_eq!(result.unwrap_err().kind(), ErrorKind::Transport);
    assert_eq!(conclude_subscription(Ok(())), Ok(()));

    let record = app.model_mgr().find_by_email("le_guin@gmail.com").unwrap();
    assert_eq!(record.status, SubscriptionStatus::PendingConfirmation);
}

#[test]
fn missing_fields_are_reported_name_first() {
    assert_eq!(
        DeserSubscriber::from_fields(None, None).unwrap_err(),
        MalformedInput::MissingName
    );
    assert_eq!(
        DeserSubscriber::from_fields(Some("a".to_string()), None).unwrap_err(),
        MalformedInput::MissingEmail
    );
    assert_eq!(MalformedInput::MissingEmail.status(), UNPROCESSABLE_ENTITY);
    assert_eq!(MalformedInput::MissingName.kind(), ErrorKind::ClientInput);
    let raw = DeserSubscriber::from_fields(Some("a".to_string()), Some("b".to_string())).unwrap();
    assert_eq!(raw.name, "a");
    assert_eq!(raw.email, "b");
}

fn check(name: &str, email: &str) -> Result<(), ValidationError> {
    validate(DeserSubscriber::new(name.to_string(), email.to_string())).map(|_| ())
}

#[test]
fn names_are_checked_before_addresses() {
    assert_eq!(check("", ""), Err(ValidationError::EmptyName));
    assert_eq!(check(" \t\n", "jd@example.com"), Err(ValidationError::EmptyName));
    assert_eq!(check("\u{3000}\u{a0}", "jd@example.com"), Err(ValidationError::EmptyName));
    assert_eq!(check("John\u{7}Doe", "jd@example.com"), Err(ValidationError::ForbiddenCharacter));
    assert_eq!(check("John\tDoe", "jd@example.com"), Err(ValidationError::ForbiddenCharacter));
    assert_eq!(check("John\u{9f}", "jd@example.com"), Err(ValidationError::ForbiddenCharacter));
    assert_eq!(check(&"a".repeat(257), "jd@example.com"), Err(ValidationError::NameTooLong));
    assert_eq!(check(&"\u{7}".repeat(257), "jd@example.com"), Err(ValidationError::NameTooLong));
    assert_eq!(check(&"a".repeat(256), "jd@example.com"), Ok(()));
    assert_eq!(check(&"ё".repeat(256), "jd@example.com"), Ok(()));
    assert_eq!(check("  John Doe  ", "jd@example.com"), Ok(()));
    assert_eq!(check("John Doe", ""), Err(ValidationError::EmptyEmail));
    assert_eq!(check("John Doe", "not an email"), Err(ValidationError::InvalidEmail));
    assert_eq!(ValidationError::InvalidEmail.status(), BAD_REQUEST);
    assert_eq!(ValidationError::EmptyName.kind(), ErrorKind::ClientInput);
}

#[test]
fn addresses_follow_the_grammar() {
    let valid = [
        "john.doe@example.com",
        "le_guin@gmail.com",
        "jd@example.com",
        "a@b",
        "x+tag@sub-domain.example.org",
        "!#$%&'*+/=?^_`{|}~-@example.com",
        ".dots..anywhere.@example.com",
        "A1@1a.2b",
    ];
    for email in valid {
        assert_eq!(check("n", email), Ok(()), "{email}");
    }
    let invalid = [
        "not an email",
        "no-at-sign.example.com",
        "@example.com",
        "john@",
        "john@@example.com",
        "john@exa@mple.com",
        "jo hn@example.com",
        "john@example..com",
        "john@.example.com",
        "john@example.com.",
        "john@-example.com",
        "john@example-.com",
        "john@exam_ple.com",
        "jöhn@example.com",
        "john@exämple.com",
        "john(x)@example.com",
    ];
    for email in invalid {
        assert_eq!(check("n", email), Err(ValidationError::InvalidEmail), "{email}");
    }
}

#[test]
fn addresses_have_length_limits() {
    let local64 = "a".repeat(64);
    let local65 = "a".repeat(65);
    assert_eq!(check("n", &format!("{local64}@example.com")), Ok(()));
    assert_eq!(
        check("n", &format!("{local65}@example.com")),
        Err(ValidationError::InvalidEmail)
    );
    let label63 = "b".repeat(63);
    let label64 = "b".repeat(64);
    assert_eq!(check("n", &format!("a@{label63}.com")), Ok(()));
    assert_eq!(check("n", &format!("a@{label64}.com")), Err(ValidationError::InvalidEmail));
    assert_eq!(check("n", &format!("a@x.{label63}")), Ok(()));
    assert_eq!(check("n", &format!("a@x.{label64}")), Err(ValidationError::InvalidEmail));
    let domain255 = format!("{label63}.{label63}.{label63}.{}", "c".repeat(63));
    assert_eq!(domain255.len(), 255);
    assert_eq!(check("n", &format!("a@{domain255}")), Ok(()));
    let domain256 = format!("{label63}.{label63}.{label63}.{}.d", "c".repeat(62));
    assert_eq!(domain256.len(), 256);
    assert_eq!(check("n", &format!("a@{domain256}")), Err(ValidationError::InvalidEmail));
}

#[test]
fn a_valid_subscriber_keeps_its_text() {
    let subscriber =
        validate(DeserSubscriber::new(" John Doe ".to_string(), "jd@example.com".to_string()))
            .unwrap();
    assert_eq!(subscriber.name().as_str(), " John Doe ");
    assert_eq!(subscriber.email().as_str(), "jd@example.com");
    let copy = subscriber.clone();
    assert_eq!(copy.name().as_str(), " John Doe ");
    assert_eq!(copy.email().as_str(), "jd@example.com");
}

#[test]
fn invalid_data_is_a_validation_failure_and_stores_nothing() {
    let mut app = spawn_test_app();
    let raw = DeserSubscriber::new("".to_string(), "jd@example.com".to_string());
    let error = subscribe(&mut app, raw, 1, &entropy(0), 5).unwrap_err();
    assert_eq!(error, SubscribeError::Validation(ValidationError::EmptyName));
    assert_eq!(error.kind(), ErrorKind::ClientInput);
    assert_eq!(error.status(), BAD_REQUEST);

    let raw = DeserSubscriber::new("John Doe".to_string(), "not an email".to_string());
    let error = subscribe(&mut app, raw, 1, &entropy(0), 5).unwrap_err();
    assert_eq!(error, SubscribeError::Validation(ValidationError::InvalidEmail));
    assert_eq!(app.model_mgr().len(), 0);
}
