use troop::config::{path_within, AccountConfig, AccountType, FilterConfig};
use troop::time::Timestamp;
use troop::web::actions::{
    check_password_change, find_account, flash_location, integration_accounts, login_outcome,
    new_session_token, new_web_task, poll_return_path, remove_accounts_named, remove_filter,
    Integration, LoginOutcome, PasswordError,
};
use troop::web::forms::{
    account_from_email_form, account_from_telegram_form, account_from_webhook_form,
    apply_email_edit, apply_telegram_edit, apply_webhook_edit, checkbox, email_account_type,
    filter_from_form, nonempty, number_field, port_field, split_csv, AddEmailForm,
    AddFilterForm, AddTaskForm, AddTelegramForm, AddWebhookForm, ChangePasswordForm,
    EditEmailForm, EditTelegramForm, EditWebhookForm,
};

fn s(v: &str) -> Option<String> {
    Some(v.to_string())
}

fn account(name: &str, t: AccountType) -> AccountConfig {
    AccountConfig {
        name: name.into(),
        account_type: t,
        host: None,
        port: None,
        username: None,
        password: Some("old-pw".into()),
        tls: true,
        token: Some("old-token".into()),
        webhook_secret: Some("old-secret".into()),
        enabled: true,
        poll_interval_secs: 10,
        smtp_host: None,
        smtp_port: None,
        smtp_username: None,
        smtp_password: Some("old-smtp".into()),
        smtp_tls: false,
        reply_from: None,
    }
}

#[test]
fn field_helpers() {
    assert_eq!(nonempty(s("  ")), None);
    assert_eq!(nonempty(s(" x ")), s(" x "));
    assert_eq!(nonempty(None), None);
    assert!(checkbox(&s("on"), false));
    assert!(checkbox(&s("true"), false));
    assert!(!checkbox(&s("yes"), true));
    assert!(checkbox(&None, true));
    assert_eq!(number_field(&s("90"), 60), 90);
    assert_eq!(number_field(&s("+7"), 60), 7);
    assert_eq!(number_field(&s("abc"), 60), 60);
    assert_eq!(number_field(&s(" 5"), 60), 60);
    assert_eq!(number_field(&None, 30), 30);
    assert_eq!(port_field(&s("993")), Some(993));
    assert_eq!(port_field(&s("70000")), None);
    assert_eq!(email_account_type("POP3"), AccountType::Pop3);
    assert_eq!(email_account_type("imap"), AccountType::Imap);
    assert_eq!(email_account_type("other"), AccountType::Imap);
}

#[test]
fn csv_lists() {
    assert_eq!(split_csv(s("a@x, b@x ,c")), Some(vec!["a@x".into(), "b@x".into(), "c".into()]));
    assert_eq!(split_csv(s("one")), Some(vec!["one".into()]));
    assert_eq!(split_csv(s("a,,")), Some(vec!["a".into(), "".into(), "".into()]));
    assert_eq!(split_csv(s("   ")), None);
    assert_eq!(split_csv(None), None);
}

#[test]
fn email_account_from_form() {
    let form = AddEmailForm {
        name: "  work ".into(),
        account_type: "Pop3".into(),
        host: s("pop.example.com"),
        port: s("995"),
        username: s("me"),
        password: s(""),
        poll_interval_secs: None,
        tls: None,
        enabled: s("off"),
        smtp_host: s(" "),
        smtp_port: s("x"),
        smtp_username: None,
        smtp_password: None,
        smtp_tls: None,
        reply_from: s("me@example.com"),
    };
    let a = account_from_email_form(form);
    assert_eq!(a.name, "work");
    assert_eq!(a.account_type, AccountType::Pop3);
    assert_eq!(a.host, s("pop.example.com"));
    assert_eq!(a.port, Some(995));
    assert_eq!(a.password, None);
    assert!(!a.tls);
    assert!(!a.enabled);
    assert_eq!(a.poll_interval_secs, 60);
    assert_eq!(a.smtp_host, None);
    assert_eq!(a.smtp_port, None);
    assert!(a.smtp_tls);
    assert_eq!(a.reply_from, s("me@example.com"));
    assert_eq!(a.token, None);
}

#[test]
fn email_edit_keeps_blank_passwords() {
    let mut a = account("work", AccountType::Imap);
    let form = EditEmailForm {
        account_type: "imap".into(),
        host: s("imap.x"),
        port: None,
        username: s("me"),
        password: s("  "),
        poll_interval_secs: s("120"),
        tls: None,
        enabled: s("on"),
        smtp_host: s("smtp.x"),
        smtp_port: s("587"),
        smtp_username: None,
        smtp_password: s("new-smtp"),
        smtp_tls: None,
        reply_from: None,
    };
    apply_email_edit(&mut a, form);
    assert_eq!(a.name, "work");
    assert_eq!(a.password, s("old-pw"));
    assert_eq!(a.smtp_password, s("new-smtp"));
    assert!(!a.tls);
    assert!(a.enabled);
    assert!(a.smtp_tls);
    assert_eq!(a.poll_interval_secs, 120);
    assert_eq!(a.smtp_port, Some(587));
    assert_eq!(a.token, s("old-token"));
}

#[test]
fn telegram_accounts() {
    let a = account_from_telegram_form(AddTelegramForm {
        name: "bot".into(),
        token: "123:abc".into(),
        poll_interval_secs: None,
        enabled: None,
    });
    assert_eq!(a.account_type, AccountType::Telegram);
    assert_eq!(a.token, s("123:abc"));
    assert_eq!(a.poll_interval_secs, 30);
    assert!(a.enabled);
    assert!(!a.tls);
    assert!(a.smtp_tls);
    let mut b = account("bot", AccountType::Telegram);
    apply_telegram_edit(&mut b, EditTelegramForm { token: s(""), poll_interval_secs: s("15"), enabled: None });
    assert_eq!(b.token, s("old-token"));
    assert_eq!(b.poll_interval_secs, 15);
    assert!(!b.enabled);
}

#[test]
fn webhook_accounts() {
    let a = account_from_webhook_form(AddWebhookForm {
        name: "ci".into(),
        webhook_secret: s("abc"),
        poll_interval_secs: None,
        enabled: None,
    });
    assert_eq!(a.account_type, AccountType::Webhook);
    assert_eq!(a.webhook_secret, s("abc"));
    assert_eq!(a.poll_interval_secs, 5);
    let g = account_from_webhook_form(AddWebhookForm {
        name: "ci".into(),
        webhook_secret: None,
        poll_interval_secs: s("9"),
        enabled: s("true"),
    });
    let secret = g.webhook_secret.unwrap();
    assert_eq!(secret.len(), 36);
    assert_eq!(secret.matches('-').count(), 4);
    let mut b = account("ci", AccountType::Webhook);
    apply_webhook_edit(&mut b, EditWebhookForm { webhook_secret: s("new"), poll_interval_secs: None, enabled: s("on") });
    assert_eq!(b.webhook_secret, s("new"));
    assert_eq!(b.poll_interval_secs, 5);
    assert!(b.enabled);
}

#[test]
fn filters_from_form() {
    let f = filter_from_form(AddFilterForm {
        account: s("main"),
        from_address: s("a@x, b@x"),
        subject_contains: s(" "),
        body_contains: None,
        header_name: s("X-Auth"),
        header_value: s("tok"),
        gpg_required: s("true"),
    });
    assert_eq!(f.account, s("main"));
    assert_eq!(f.from_address, Some(vec!["a@x".into(), "b@x".into()]));
    assert_eq!(f.subject_contains, None);
    let hc = f.header_checks.unwrap();
    assert_eq!(hc.len(), 1);
    assert_eq!(hc[0].name, "X-Auth");
    assert_eq!(hc[0].value, "tok");
    assert!(f.gpg_required);
    let g = filter_from_form(AddFilterForm {
        account: None,
        from_address: None,
        subject_contains: None,
        body_contains: None,
        header_name: s("X-Auth"),
        header_value: None,
        gpg_required: s("on"),
    });
    assert!(g.header_checks.is_none());
    assert!(!g.gpg_required);
}

#[test]
fn removing_and_finding_accounts() {
    let mut accounts = vec![
        account("a", AccountType::Imap),
        account("b", AccountType::Telegram),
        account("a", AccountType::Webhook),
    ];
    assert_eq!(find_account(&accounts, "a"), Some(0));
    assert_eq!(find_account(&accounts, "b"), Some(1));
    assert_eq!(poll_return_path(&accounts, "b"), "/admin/integrations/telegram");
    assert_eq!(poll_return_path(&accounts, "a"), "/admin/integrations/email");
    assert_eq!(poll_return_path(&accounts, "zz"), "/admin/integrations/email");
    assert_eq!(integration_accounts(&accounts, Integration::Email), vec![0]);
    assert_eq!(integration_accounts(&accounts, Integration::Webhook), vec![2]);
    assert!(remove_accounts_named(&mut accounts, "a"));
    assert_eq!(accounts.len(), 1);
    assert_eq!(accounts[0].name, "b");
    assert!(!remove_accounts_named(&mut accounts, "a"));
    assert_eq!(accounts.len(), 1);
    assert_eq!(find_account(&accounts, "a"), None);
}

#[test]
fn removing_filters_by_position() {
    let mut filters = vec![FilterConfig::default(), FilterConfig { gpg_required: true, ..Default::default() }];
    assert!(!remove_filter(&mut filters, 2));
    assert_eq!(filters.len(), 2);
    assert!(remove_filter(&mut filters, 0));
    assert_eq!(filters.len(), 1);
    assert!(filters[0].gpg_required);
}

#[test]
fn password_changes() {
    let form = |c: &str, n: &str, k: &str| ChangePasswordForm {
        current_password: c.into(),
        new_password: n.into(),
        confirm_password: k.into(),
    };
    assert_eq!(check_password_change(&None, &form("", "a", "b")), Err(PasswordError::Mismatch));
    assert_eq!(check_password_change(&None, &form("", "", "")), Err(PasswordError::Empty));
    assert_eq!(check_password_change(&None, &form("", "new", "new")), Ok(()));
    assert_eq!(check_password_change(&s("old"), &form("wrong", "new", "new")), Err(PasswordError::WrongCurrent));
    assert_eq!(check_password_change(&s("old"), &form("old", "new", "new")), Ok(()));
    assert_eq!(PasswordError::Mismatch.message(), "Passwords do not match.");
    assert_eq!(PasswordError::Empty.message(), "New password cannot be empty.");
    assert_eq!(PasswordError::WrongCurrent.message(), "Current password is incorrect.");
}

#[test]
fn logins() {
    assert_eq!(login_outcome(&None, "anything"), LoginOutcome::Open);
    assert_eq!(login_outcome(&s("pw"), "pw"), LoginOutcome::Accepted);
    assert_eq!(login_outcome(&s("pw"), "PW"), LoginOutcome::Rejected);
}

#[test]
fn session_tokens_are_uuids() {
    let t = new_session_token();
    assert_eq!(t.len(), 36);
    assert_ne!(t, new_session_token());
}

#[test]
fn redirect_with_flash() {
    assert_eq!(flash_location("/tasks", "Task [ab12] added."), "/tasks?flash=Task%20%5Bab12%5D%20added.");
    assert_eq!(flash_location("/admin", "ERR:é~_"), "/admin?flash=ERR%3A%C3%A9~_");
}

#[test]
fn web_tasks() {
    let t = new_web_task(
        AddTaskForm { title: "  Buy milk ".into(), description: None },
        "ab12cd34".into(),
        Timestamp::from_unix(99, 0).unwrap(),
    );
    assert_eq!(t.title, "Buy milk");
    assert_eq!(t.description, "");
    assert_eq!(t.from, "web");
    assert_eq!(t.source, "web");
    assert!(!t.done);
    assert_eq!(t.created.secs(), 99);
    let t = new_web_task(
        AddTaskForm { title: "x".into(), description: s(" two\nlines \n") },
        "ab12cd34".into(),
        Timestamp::from_unix(0, 0).unwrap(),
    );
    assert_eq!(t.description, "two\nlines");
}

#[test]
fn email_checkboxes_are_on_only_when_ticked() {
    let form = |tls: Option<String>, enabled: Option<String>| AddEmailForm {
        name: "w".into(),
        account_type: "imap".into(),
        host: None,
        port: None,
        username: None,
        password: None,
        poll_interval_secs: None,
        tls,
        enabled,
        smtp_host: None,
        smtp_port: None,
        smtp_username: None,
        smtp_password: None,
        smtp_tls: None,
        reply_from: None,
    };
    let a = account_from_email_form(form(s("on"), s("true")));
    assert!(a.tls && a.enabled && a.smtp_tls);
    let b = account_from_email_form(form(None, None));
    assert!(!b.tls && !b.enabled && b.smtp_tls);
}

#[test]
fn config_is_written_inside_the_working_directory_only() {
    assert!(path_within("/srv/troop", "/srv/troop"));
    assert!(path_within("/srv/troop/conf", "/srv/troop"));
    assert!(!path_within("/srv/troopx", "/srv/troop"));
    assert!(!path_within("/srv", "/srv/troop"));
    assert!(!path_within("srv/troop", "/srv/troop"));
    assert!(path_within("/anything", "/"));
}
