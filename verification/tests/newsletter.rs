use mailomat::app::AppState;
use mailomat::email_client::{EmailClient, TransportError};
use mailomat::model::{InsertOutcome, ModelManager, Operator, StoreError};
use mailomat::templ_manager::TemplateManager;
use mailomat::token::{
    confirmation_link, resolve, resolve_outcome, ConfirmationToken, TokenError,
};
use mailomat::utils::b64_encode;
use mailomat::web::auth::error::AuthError;
use mailomat::web::data::{validate, DeserSubscriber, SubscriberEmail, ValidSubscriber};
use mailomat::web::newsletter::{
    broadcast, DeliveryOutcome, Dispatch, DispatchError, Newsletter,
};
use mailomat::web::response::{ErrorKind, BAD_REQUEST, INTERNAL_SERVER_ERROR, UNAUTHORIZED};
use mailomat::web::subscriptions::{confirm, subscribe};

fn entropy(seed: u8) -> [u8; 16] {
    [seed; 16]
}

fn token(seed: u8) -> String {
    ConfirmationToken::issue(0, &entropy(seed)).token
}

fn valid(name: &str, email: &str) -> ValidSubscriber {
    validate(DeserSubscriber::new(name.to_string(), email.to_string())).unwrap()
}

fn spawn_test_app() -> AppState {
    let sender = SubscriberEmail::parse("newsletter@example.com".to_string()).unwrap();
    let email_client =
        EmailClient::new("http://mail.test".to_string(), sender, "secret".to_string(), 2_500);
    let mut store = ModelManager::init();
    store.add_operator(Operator { username: "admin".to_string(), password: "password".to_string() });
    AppState::new(store, TemplateManager::init(), email_client, "http://127.0.0.1".to_string())
}

fn create_unconfirmed_subscriber(app: &mut AppState, name: &str, email: &str, seed: u8) {
    let raw = DeserSubscriber::new(name.to_string(), email.to_string());
    subscribe(app, raw, seed as u128, &entropy(seed), 1).unwrap();
}

fn create_confirmed_subscriber(app: &mut AppState, name: &str, email: &str, seed: u8) {
    create_unconfirmed_subscriber(app, name, email, seed);
    confirm(app, &token(seed)).unwrap();
}

fn newsletter() -> Newsletter {
    Newsletter {
        title: "Newsletter title".to_string(),
        text: "Newsletter body as plain text".to_string(),
        html: "<p>Newsletter body as HTML</p>".to_string(),
    }
}

fn authorization() -> Vec<u8> {
    format!("Basic {}", b64_encode("admin:password")).into_bytes()
}

fn addresses(dispatch: &mut Dispatch, outcomes: &[Result<(), TransportError>]) -> Vec<String> {
    let mut sent = Vec::new();
    let mut i = 0;
    loop {
        let to = match dispatch.next() {
            None => break,
            Some(email) => email.to.clone(),
        };
        sent.push(to);
        assert!(dispatch.record(outcomes[i % outcomes.len()]));
        i += 1;
    }
    sent
}

#[test]
fn tokens_are_hex_of_the_entropy() {
    let bytes: [u8; 16] =
        [0x00, 0x01, 0x09, 0x0a, 0x0f, 0x10, 0x7f, 0x80, 0x99, 0xa0, 0xaf, 0xf0, 0xfe, 0xff, 0x5a, 0xc3];
    let issued = ConfirmationToken::issue(42, &bytes);
    assert_eq!(issued.subscriber_id, 42);
    assert_eq!(issued.token, "0001090a0f107f8099a0aff0feff5ac3");
    assert_eq!(issued.token.len(), 32);
    assert_ne!(token(1), token(2));
}

#[test]
fn confirmation_links_have_the_agreed_shape() {
    assert_eq!(
        confirmation_link("https://news.example.com", "abc123"),
        "https://news.example.com/subscriptions/confirm?token=abc123"
    );
    assert_eq!(confirmation_link("", ""), "/subscriptions/confirm?token=");
}

#[test]
fn the_store_inserts_once_per_address() {
    let mut store = ModelManager::init();
    assert_eq!(store.len(), 0);
    let first = store.insert_pending(&valid("A", "a@example.com"), 1, "t1".to_string(), 10).unwrap();
    assert_eq!((first.id, first.token.as_str(), first.created), (1, "t1", true));
    let again = store.insert_pending(&valid("B", "a@example.com"), 2, "t2".to_string(), 20).unwrap();
    assert_eq!((again.id, again.token.as_str(), again.created), (1, "t1", false));
    let InsertOutcome { id, token, created } =
        store.insert_pending(&valid("C", "c@example.com"), 3, "t3".to_string(), 30).unwrap();
    assert_eq!((id, token.as_str(), created), (3, "t3", true));
    assert_eq!(store.len(), 2);

    assert_eq!(
        store.insert_pending(&valid("D", "d@example.com"), 1, "t4".to_string(), 40).unwrap_err(),
        StoreError::ConstraintViolation
    );
    assert_eq!(
        store.insert_pending(&valid("D", "d@example.com"), 4, "t3".to_string(), 40).unwrap_err(),
        StoreError::ConstraintViolation
    );
    assert_eq!(store.len(), 2);

    assert_eq!(store.find_by_token("t1"), Ok(1));
    assert_eq!(store.find_by_token("t3"), Ok(3));
    assert_eq!(store.find_by_token("t2"), Err(StoreError::NotFound));
    assert_eq!(store.find_by_token("t4"), Err(StoreError::NotFound));

    let record = store.find_by_email("a@example.com").unwrap();
    assert_eq!((record.id, record.name.as_str(), record.subscribed_at), (1, "A", 10));
    assert!(store.find_by_email("d@example.com").is_none());
}

#[test]
fn the_store_confirms_by_id() {
    let mut store = ModelManager::init();
    store.insert_pending(&valid("A", "a@example.com"), 1, "t1".to_string(), 10).unwrap();
    store.insert_pending(&valid("B", "b@example.com"), 2, "t2".to_string(), 20).unwrap();
    store.insert_pending(&valid("C", "c@example.com"), 3, "t3".to_string(), 30).unwrap();
    assert!(store.list_confirmed().is_empty());

    assert_eq!(store.confirm(9), Err(StoreError::NotFound));
    assert_eq!(store.confirm(3), Ok(()));
    assert_eq!(store.confirm(1), Ok(()));
    assert_eq!(store.confirm(3), Ok(()));

    let list = store.list_confirmed();
    let listed: Vec<(&str, &str)> =
        list.iter().map(|r| (r.email.as_str(), r.name.as_str())).collect();
    assert_eq!(listed, vec![("a@example.com", "A"), ("c@example.com", "C")]);
    assert_eq!(store.find_by_email("b@example.com").unwrap().status.as_str(), "pending_confirmation");
    assert_eq!(store.find_by_token("t3"), Ok(3));
    assert_eq!(store.len(), 3);
}

#[test]
fn tokens_resolve_through_the_store() {
    let mut store = ModelManager::init();
    store.insert_pending(&valid("A", "a@example.com"), 1, token(1), 10).unwrap();
    assert_eq!(resolve(&store, &token(1)), Ok(1));
    assert_eq!(resolve(&store, &token(2)), Err(TokenError::TokenNotFound));
    assert_eq!(resolve(&store, "???"), Err(TokenError::TokenNotFound));

    assert_eq!(resolve_outcome(Ok(5)), Ok(5));
    assert_eq!(resolve_outcome(Err(StoreError::NotFound)), Err(TokenError::TokenNotFound));
    assert_eq!(
        resolve_outcome(Err(StoreError::Connectivity)),
        Err(TokenError::Store(StoreError::Connectivity))
    );
    assert_eq!(
        resolve_outcome(Err(StoreError::ConstraintViolation)),
        Err(TokenError::Store(StoreError::ConstraintViolation))
    );
    assert_eq!(TokenError::Store(StoreError::Connectivity).status(), INTERNAL_SERVER_ERROR);
    assert_eq!(TokenError::Store(StoreError::Connectivity).kind(), ErrorKind::Store);
    assert_eq!(TokenError::TokenNotFound.kind(), ErrorKind::ClientInput);
}

#[test]
fn the_email_client_keeps_its_settings() {
    let app = spawn_test_app();
    let client = app.email_client();
    assert_eq!(client.base_url(), "http://mail.test");
    assert_eq!(client.endpoint(), "http://mail.test/email");
    assert_eq!(client.sender_address().as_str(), "newsletter@example.com");
    assert_eq!(client.token(), "secret");
    assert_eq!(client.timeout(), 2_500);
    assert_eq!(app.base_url(), "http://127.0.0.1");
    let email = client.compose("to@example.com", "s", "<b>h</b>", "t");
    assert_eq!(
        (
            email.from.as_str(),
            email.to.as_str(),
            email.subject.as_str(),
            email.html_body.as_str(),
            email.text_body.as_str()
        ),
        ("newsletter@example.com", "to@example.com", "s", "<b>h</b>", "t")
    );
    assert_eq!(
        app.templ_mgr().confirmation_text("L"),
        "Welcome to our newsletter!\nVisit L to confirm your subscription."
    );
    assert_eq!(
        app.templ_mgr().confirmation_html("L"),
        "Welcome to our newsletter!<br />Click <a href=\"L\">here</a> to confirm your subscription."
    );
}

#[test]
fn broadcast_without_authorization_plans_nothing() {
    let mut app = spawn_test_app();
    create_confirmed_subscriber(&mut app, "A", "a@example.com", 1);

    match broadcast(&app, None, &newsletter()) {
        Err(DispatchError::Auth(AuthError::MissingAuthHeader)) => {}
        other => panic!("{other:?}"),
    }
    let wrong_password = format!("Basic {}", b64_encode("admin:wrong")).into_bytes();
    let error = broadcast(&app, Some(&wrong_password), &newsletter()).unwrap_err();
    assert!(matches!(error, DispatchError::Auth(AuthError::InvalidLoginParams(_))));
    assert_eq!(error.status(), UNAUTHORIZED);
    assert_eq!(error.kind(), ErrorKind::Auth);

    let error = broadcast(&app, Some(b"Basic ???"), &newsletter()).unwrap_err();
    assert!(matches!(error, DispatchError::Auth(AuthError::Base64Decode(_))));
    assert_eq!(error.status(), BAD_REQUEST);
    assert_eq!(error.kind(), ErrorKind::ClientInput);
}

#[test]
fn broadcast_reaches_confirmed_subscribers_only() {
    let mut app = spawn_test_app();
    create_confirmed_subscriber(&mut app, "A", "a@example.com", 1);
    create_unconfirmed_subscriber(&mut app, "B", "b@example.com", 2);
    create_confirmed_subscriber(&mut app, "C", "c@example.com", 3);
    create_unconfirmed_subscriber(&mut app, "A again", "a@example.com", 4);

    let mut dispatch = broadcast(&app, Some(&authorization()), &newsletter()).unwrap();
    {
        let first = dispatch.next().unwrap();
        assert_eq!(first.from, "newsletter@example.com");
        assert_eq!(first.subject, "Newsletter title");
        assert_eq!(first.text_body, "Newsletter body as plain text");
        assert_eq!(first.html_body, "<p>Newsletter body as HTML</p>");
    }
    let sent = addresses(&mut dispatch, &[Ok(())]);
    assert_eq!(sent, vec!["a@example.com", "c@example.com"]);
    assert!(dispatch.next().is_none());
    assert!(!dispatch.record(Ok(())));

    let report = dispatch.finish().unwrap();
    let entries: Vec<(&str, DeliveryOutcome)> =
        report.entries.iter().map(|e| (e.recipient.as_str(), e.outcome)).collect();
    assert_eq!(
        entries,
        vec![
            ("a@example.com", DeliveryOutcome::Delivered),
            ("c@example.com", DeliveryOutcome::Delivered)
        ]
    );
}

#[test]
fn broadcast_to_nobody_succeeds() {
    let mut app = spawn_test_app();
    create_unconfirmed_subscriber(&mut app, "B", "b@example.com", 2);
    let dispatch = broadcast(&app, Some(&authorization()), &newsletter()).unwrap();
    assert!(dispatch.next().is_none());
    assert!(dispatch.finish().unwrap().entries.is_empty());
}

#[test]
fn a_failed_delivery_does_not_stop_the_others() {
    let mut app = spawn_test_app();
    create_confirmed_subscriber(&mut app, "A", "a@example.com", 1);
    create_confirmed_subscriber(&mut app, "B", "b@example.com", 2);
    create_confirmed_subscriber(&mut app, "C", "c@example.com", 3);

    let mut dispatch = broadcast(&app, Some(&authorization()), &newsletter()).unwrap();
    let sent = addresses(
        &mut dispatch,
        &[Err(TransportError::Timeout), Ok(()), Err(TransportError::Rejected)],
    );
    assert_eq!(sent, vec!["a@example.com", "b@example.com", "c@example.com"]);

    let error = dispatch.finish().unwrap_err();
    assert_eq!(error.status(), INTERNAL_SERVER_ERROR);
    assert_eq!(error.kind(), ErrorKind::Transport);
    match error {
        DispatchError::Delivery(report) => {
            let entries: Vec<(&str, DeliveryOutcome)> =
                report.entries.iter().map(|e| (e.recipient.as_str(), e.outcome)).collect();
            assert_eq!(
                entries,
                vec![
                    ("a@example.com", DeliveryOutcome::Failed(TransportError::Timeout)),
                    ("b@example.com", DeliveryOutcome::Delivered),
                    ("c@example.com", DeliveryOutcome::Failed(TransportError::Rejected)),
                ]
            );
        }
        other => panic!("{other:?}"),
    }
}

#[test]
fn an_unfinished_dispatch_is_not_a_success() {
    let mut app = spawn_test_app();
    create_confirmed_subscriber(&mut app, "A", "a@example.com", 1);
    create_confirmed_subscriber(&mut app, "B", "b@example.com", 2);

    let mut dispatch = broadcast(&app, Some(&authorization()), &newsletter()).unwrap();
    assert!(dispatch.record(Ok(())));
    match dispatch.finish() {
        Err(DispatchError::Delivery(report)) => {
            assert_eq!(report.entries[0].outcome, DeliveryOutcome::Delivered);
            assert_eq!(report.entries[1].outcome, DeliveryOutcome::NotAttempted);
            assert_eq!(report.entries[1].recipient, "b@example.com");
        }
        other => panic!("{other:?}"),
    }
}
