use troop::config::{AccountConfig, AccountType};
use troop::source::webhook::{
    message_from_payload, TelegramChat, TelegramMessage, TelegramUpdate, TelegramUser,
    WebhookQueues, WebhookSource,
};
use troop::source::MessageSource;
use troop::source::pop3::Pop3Source;
use troop::source::telegram::TelegramSource;
use troop::web::actions::{receive_webhook, webhook_source_name, Delivery};

fn update(update_id: i64, user: Option<TelegramUser>, chat: i64, text: &str) -> TelegramUpdate {
    TelegramUpdate {
        update_id,
        message: Some(TelegramMessage {
            from: user,
            chat: TelegramChat { id: chat },
            text: Some(text.to_string()),
            caption: None,
        }),
        edited_message: None,
        channel_post: None,
        edited_channel_post: None,
    }
}

fn webhook_account(name: &str, secret: Option<&str>) -> AccountConfig {
    AccountConfig {
        name: name.into(),
        account_type: AccountType::Webhook,
        host: None,
        port: None,
        username: None,
        password: None,
        tls: false,
        token: None,
        webhook_secret: secret.map(|s| s.to_string()),
        enabled: true,
        poll_interval_secs: 5,
        smtp_host: None,
        smtp_port: None,
        smtp_username: None,
        smtp_password: None,
        smtp_tls: true,
        reply_from: None,
    }
}

#[test]
fn parse_telegram_update() {
    let payload = br#"{
            "update_id": 1,
            "message": {
                "message_id": 1,
                "from": {"id": 42, "first_name": "Alice", "username": "alice"},
                "chat": {"id": 42, "type": "private"},
                "date": 1700000000,
                "text": "TROOP list"
            }
        }"#;
    let user = TelegramUser { id: 42, username: Some("alice".into()), first_name: "Alice".into() };
    let decoded = update(1, Some(user), 42, "TROOP list");
    let msg = message_from_payload(payload, "webhook:test", "sec", Some(decoded)).unwrap();
    assert_eq!(msg.from, "@alice");
    assert_eq!(msg.subject, "TROOP list");
}

#[test]
fn parse_telegram_update_no_username() {
    let payload = br#"{
            "update_id": 2,
            "message": {
                "message_id": 2,
                "from": {"id": 7, "first_name": "Bob"},
                "chat": {"id": 7, "type": "private"},
                "date": 1700000001,
                "text": "TROOP status"
            }
        }"#;
    let user = TelegramUser { id: 7, username: None, first_name: "Bob".into() };
    let decoded = update(2, Some(user), 7, "TROOP status");
    let msg = message_from_payload(payload, "webhook:test", "sec", Some(decoded)).unwrap();
    assert_eq!(msg.from, "Bob");
}

#[test]
fn parse_generic_json() {
    let payload = br#"{"from":"user1","text":"TROOP add Test task"}"#;
    let msg = message_from_payload(payload, "webhook:test", "sec", None).unwrap();
    assert_eq!(msg.from, "user1");
    assert_eq!(msg.subject, "TROOP add Test task");
}

#[test]
fn parse_plain_text() {
    let payload = b"TROOP list";
    let msg = message_from_payload(payload, "webhook:test", "sec", None).unwrap();
    assert_eq!(msg.subject, "TROOP list");
}

#[test]
fn empty_payload_returns_none() {
    let msg = message_from_payload(b"   ", "webhook:test", "sec", None);
    assert!(msg.is_none());
}

#[test]
fn telegram_message_headers_and_sender_without_user() {
    let decoded = update(3, None, -100123, "hello");
    let msg = message_from_payload(b"{}", "webhook:tg", "s3", Some(decoded)).unwrap();
    assert_eq!(msg.from, "chat:-100123");
    assert_eq!(msg.body, "hello");
    assert_eq!(msg.source, "webhook:tg");
    assert_eq!(msg.headers.get("x-chat-id").map(|s| s.as_str()), Some("-100123"));
    assert_eq!(msg.headers.get("x-webhook-secret").map(|s| s.as_str()), Some("s3"));
    assert_eq!(msg.raw_body, b"{}".to_vec());
}

#[test]
fn telegram_update_without_text_is_ignored() {
    let decoded = update(4, None, 1, "   ");
    assert!(message_from_payload(b"{}", "webhook:tg", "s", Some(decoded)).is_none());
    let empty = TelegramUpdate {
        update_id: 5,
        message: None,
        edited_message: None,
        channel_post: None,
        edited_channel_post: None,
    };
    assert!(message_from_payload(b"{}", "webhook:tg", "s", Some(empty)).is_none());
}

#[test]
fn json_with_blank_text_falls_back_to_raw_text() {
    let payload = br#"{"text":"  "}"#;
    let msg = message_from_payload(payload, "webhook:x", "s", None).unwrap();
    assert_eq!(msg.subject, r#"{"text":"  "}"#);
    assert_eq!(msg.from, "webhook");
}

#[test]
fn queues_are_reused_per_secret() {
    let mut queues = WebhookQueues::new();
    let a = WebhookSource::new(&webhook_account("ci", None), &mut queues);
    let b = WebhookSource::new(&webhook_account("other", Some("ci")), &mut queues);
    let c = WebhookSource::new(&webhook_account("deploy", Some("s2")), &mut queues);
    assert_eq!(a.queue(), b.queue());
    assert_ne!(a.queue(), c.queue());
    assert_eq!(queues.len(), 2);
    assert_eq!(a.name(), "webhook:ci");
    assert_eq!(queues.queue_for("s2"), Some(c.queue()));
    assert_eq!(queues.queue_for("nope"), None);
}

#[test]
fn deliveries_are_queued_and_drained() {
    let accounts = vec![webhook_account("ci", Some("sec"))];
    let mut queues = WebhookQueues::new();
    let src = WebhookSource::new(&accounts[0], &mut queues);
    assert_eq!(receive_webhook(&mut queues, &accounts, "bad", b"TROOP list", None), Delivery::UnknownSecret);
    assert_eq!(receive_webhook(&mut queues, &accounts, "sec", b"   ", None), Delivery::Ignored);
    assert_eq!(receive_webhook(&mut queues, &accounts, "sec", b"TROOP list", None), Delivery::Queued);
    assert_eq!(receive_webhook(&mut queues, &accounts, "sec", b"TROOP status", None), Delivery::Queued);
    let got = queues.drain(src.queue());
    assert_eq!(got.len(), 2);
    assert_eq!(got[0].subject, "TROOP list");
    assert_eq!(got[0].source, "webhook:ci");
    assert_eq!(got[1].subject, "TROOP status");
    assert!(queues.drain(src.queue()).is_empty());
}

#[test]
fn delivery_source_names_the_owning_account() {
    let accounts = vec![webhook_account("ci", Some("sec")), webhook_account("plain", None)];
    assert_eq!(webhook_source_name(&accounts, "sec"), "webhook:ci");
    assert_eq!(webhook_source_name(&accounts, "plain"), "webhook:plain");
    assert_eq!(webhook_source_name(&accounts, "zzz"), "webhook:zzz");
}

#[test]
fn placeholder_sources_yield_nothing() {
    let mut a = webhook_account("p", None);
    a.account_type = AccountType::Pop3;
    let p = Pop3Source::new(a.clone());
    assert_eq!(p.name(), "pop3:p");
    assert_eq!(p.poll().unwrap().len(), 0);
    assert!(!p.is_connected());
    let t = TelegramSource::new(a);
    assert_eq!(t.name(), "telegram:p");
    assert_eq!(t.poll().unwrap().len(), 0);
}

#[test]
fn polling_drains_the_queue_once() {
    let accounts = vec![webhook_account("ci", Some("sec"))];
    let mut queues = WebhookQueues::new();
    let src = WebhookSource::new(&accounts[0], &mut queues);
    receive_webhook(&mut queues, &accounts, "sec", b"one", None);
    receive_webhook(&mut queues, &accounts, "sec", b"two", None);
    let got = src.poll_queue(&mut queues).unwrap();
    assert_eq!(got.iter().map(|m| m.subject.as_str()).collect::<Vec<_>>(), vec!["one", "two"]);
    assert!(src.poll_queue(&mut queues).unwrap().is_empty());
    let mut empty = WebhookQueues::new();
    assert!(src.poll_queue(&mut empty).is_none());
}
