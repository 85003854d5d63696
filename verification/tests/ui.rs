use troop::config::{AccountConfig, AccountType, FilterConfig, HeaderCheck};
use troop::storage::Task;
use troop::time::Timestamp;
use troop::web::ui::{
    admin_dashboard, admin_filters, html_escape, not_found, page, task_detail, task_list, CSS,
};

fn task(id: &str, title: &str, done: bool, desc: &str) -> Task {
    Task {
        id: id.to_string(),
        title: title.to_string(),
        description: desc.to_string(),
        created: Timestamp::from_unix(1_700_000_000, 0).unwrap(),
        from: "alice@example.com".to_string(),
        source: "imap:main".to_string(),
        done,
        message_id: None,
    }
}

fn account(name: &str, t: AccountType, enabled: bool) -> AccountConfig {
    AccountConfig {
        name: name.into(),
        account_type: t,
        host: None,
        port: None,
        username: None,
        password: None,
        tls: true,
        token: None,
        webhook_secret: None,
        enabled,
        poll_interval_secs: 45,
        smtp_host: None,
        smtp_port: None,
        smtp_username: None,
        smtp_password: None,
        smtp_tls: true,
        reply_from: None,
    }
}

#[test]
fn escapes_markup() {
    assert_eq!(html_escape("a < b & \"c\" > 'd'"), "a &lt; b &amp; &quot;c&quot; &gt; &#x27;d&#x27;");
    assert_eq!(html_escape("plain text"), "plain text");
    assert_eq!(html_escape(""), "");
    assert_eq!(html_escape("&amp;"), "&amp;amp;");
}

#[test]
fn page_layout() {
    let html = page("A <b>", "/admin", None, "<p>x</p>");
    let expected = format!(
        "<!DOCTYPE html>\n<html lang=\"en\">\n<head>\n<meta charset=\"utf-8\">\n<meta name=\"viewport\" content=\"width=device-width, initial-scale=1, viewport-fit=cover\">\n<title>A &lt;b&gt; – troop</title>\n<style>{}</style>\n</head>\n<body>\n<header>\n  <a href=\"/tasks\">📋 troop</a>\n  <nav>\n    <a href=\"/tasks\">Tasks</a>\n    <a href=\"/admin\" class=\"active\">Admin</a>\n  </nav>\n</header>\n<main>\n<p>x</p>\n</main>\n</body>\n</html>",
        CSS
    );
    assert_eq!(html, expected);
}

#[test]
fn flash_banners() {
    let ok = page("T", "", Some("Saved <ok>"), "");
    assert!(ok.contains("<div class=\"flash flash-ok\">Saved &lt;ok&gt;</div>"));
    let err = page("T", "", Some("ERR:bad & worse"), "");
    assert!(err.contains("<div class=\"flash flash-err\">bad &amp; worse</div>"));
    assert!(!err.contains("ERR:"));
}

#[test]
fn not_found_page() {
    let html = not_found();
    assert!(html.contains("<title>Not Found – troop</title>"));
    assert!(html.contains("<div class=\"empty\"><p>Page not found.</p><p><a href=\"/tasks\">← Back to tasks</a></p></div>"));
    assert!(html.contains("<a href=\"/tasks\">Tasks</a>"));
}

#[test]
fn task_list_page() {
    let todo = vec![task("aa11", "Buy <milk>", false, "")];
    let html = task_list(&todo, &[], None);
    assert!(html.contains("<h2>Pending (1)</h2>"));
    assert!(html.contains("<h2>Done (0)</h2>"));
    assert!(html.contains("<p class=\"empty\">Nothing completed yet.</p>"));
    assert!(html.contains("<a href=\"/tasks/aa11\">Buy &lt;milk&gt;</a>"));
    assert!(html.contains("action=\"/tasks/aa11/done\""));
    assert!(html.contains("2023-11-14 22:13</div>"));
    let html = task_list(&[], &[task("bb22", "Done one", true, "")], None);
    assert!(html.contains("<p class=\"empty\">No pending tasks 🎉</p>"));
    assert!(html.contains("<span class=\"badge badge-done\">done</span>"));
    assert!(!html.contains("action=\"/tasks/bb22/done\""));
    assert!(html.contains("action=\"/tasks/bb22/delete\""));
}

#[test]
fn task_detail_page() {
    let html = task_detail(&task("aa11", "Fix <it>", false, "line 1\n<b>"), Some("hi"));
    assert!(html.contains("<title>Fix &lt;it&gt; – troop</title>"));
    assert!(html.contains("<h1>Fix &lt;it&gt;</h1>"));
    assert!(html.contains("<pre>line 1\n&lt;b&gt;</pre>"));
    assert!(html.contains("&nbsp;created 2023-11-14 22:13 UTC"));
    assert!(html.contains("✓ Mark Done"));
    assert!(html.contains("from: alice@example.com &nbsp;·&nbsp; source: imap:main"));
    let html = task_detail(&task("bb22", "Done", true, ""), None);
    assert!(html.contains("No description."));
    assert!(!html.contains("Mark Done"));
    assert!(html.contains("<span class=\"badge badge-done\">done</span>"));
}

#[test]
fn dashboard_page() {
    let accounts = vec![account("work", AccountType::Imap, true), account("bot", AccountType::Telegram, false)];
    let status = vec![("imap:work".to_string(), true)];
    let html = admin_dashboard(&accounts, &status, 3, 4, None);
    assert!(html.contains(">3</div><div class=\"card-meta\">Pending</div>"));
    assert!(html.contains(">7</div><div class=\"card-meta\">Total</div>"));
    assert!(html.contains("<h2>Accounts (2)</h2>"));
    assert!(html.contains("<span class=\"status-dot dot-ok\"></span>work</div>"));
    assert!(html.contains("<div class=\"card-meta\">imap &nbsp;·&nbsp; connected &nbsp;·&nbsp; <span class=\"badge badge-done\">enabled</span>"));
    assert!(html.contains("<span class=\"status-dot dot-off\"></span>bot</div>"));
    assert!(html.contains("telegram &nbsp;·&nbsp; offline"));
    assert!(html.contains("poll every 45s"));
    assert!(html.contains("action=\"/admin/accounts/work/delete\""));
    let empty = admin_dashboard(&[], &[], 0, 0, None);
    assert!(empty.contains("<p class=\"empty\">No accounts configured.</p>"));
}

#[test]
fn filters_page() {
    let f = FilterConfig {
        account: Some("main".into()),
        from_address: Some(vec!["a@x".into(), "b@x".into()]),
        header_checks: Some(vec![HeaderCheck { name: "X-Auth".into(), value: "t".into() }]),
        gpg_required: true,
        ..Default::default()
    };
    let html = admin_filters(&[f, FilterConfig::default()], None);
    assert!(html.contains("<h2>Filters (2)</h2>"));
    assert!(html.contains("<div class=\"card-meta\">account: main &nbsp;·&nbsp; from: a@x, b@x &nbsp;·&nbsp; header X-Auth: t &nbsp;·&nbsp; GPG signature required</div>"));
    assert!(html.contains("<div class=\"card-meta\">(accepts everything)</div>"));
    assert!(html.contains("action=\"/admin/filters/0/delete\""));
    assert!(html.contains("action=\"/admin/filters/1/delete\""));
    let none = admin_filters(&[], Some("ERR:x"));
    assert!(none.contains("No filters configured – all messages accepted."));
}

#[test]
fn account_status_is_matched_by_exact_source_name() {
    let accounts = vec![account("main", AccountType::Imap, true)];
    let other = vec![("imap:domain".to_string(), true)];
    let html = admin_dashboard(&accounts, &other, 0, 0, None);
    assert!(html.contains("<span class=\"status-dot dot-off\"></span>main</div>"));
    assert!(html.contains("imap &nbsp;·&nbsp; offline"));
    let own = vec![("imap:domain".to_string(), false), ("imap:main".to_string(), true)];
    let html = admin_dashboard(&accounts, &own, 0, 0, None);
    assert!(html.contains("<span class=\"status-dot dot-ok\"></span>main</div>"));
    let wrong_kind = vec![("pop3:main".to_string(), true)];
    let html = admin_dashboard(&accounts, &wrong_kind, 0, 0, None);
    assert!(html.contains("imap &nbsp;·&nbsp; offline"));
}
