use troop::commands::{
    added_reply, command_action, done_reply, list_reply, parse_command, plan_command, show_reply,
    status_reply, Command, CommandAction,
};
use troop::message::Message;
use troop::storage::Task;
use troop::time::Timestamp;

fn msg(subject: &str, body: &str) -> Message {
    Message {
        source: "imap:test".into(),
        from: "user@example.com".into(),
        subject: subject.to_string(),
        body: body.to_string(),
        ..Default::default()
    }
}

fn task(id: &str, title: &str, done: bool) -> Task {
    Task {
        id: id.to_string(),
        title: title.to_string(),
        description: String::new(),
        created: Timestamp::from_unix(1_700_000_000, 0).unwrap(),
        from: "alice@example.com".to_string(),
        source: "imap:main".to_string(),
        done,
        message_id: None,
    }
}

#[test]
fn parse_list_from_subject() {
    assert_eq!(parse_command(&msg("TROOP list", "")), Command::List);
}

#[test]
fn parse_bare_troop_means_list() {
    assert_eq!(parse_command(&msg("TROOP", "")), Command::List);
}

#[test]
fn parse_status_from_subject() {
    assert_eq!(parse_command(&msg("TROOP status", "")), Command::Status);
}

#[test]
fn parse_add_from_subject() {
    let cmd = parse_command(&msg("TROOP add Buy groceries", "Milk, eggs, bread"));
    assert_eq!(
        cmd,
        Command::Add {
            title: "Buy groceries".into(),
            description: "Milk, eggs, bread".into(),
        }
    );
}

#[test]
fn parse_done_from_subject() {
    assert_eq!(
        parse_command(&msg("TROOP done a1b2c3d4", "")),
        Command::Done { id: "a1b2c3d4".into() }
    );
}

#[test]
fn parse_show_from_subject() {
    assert_eq!(
        parse_command(&msg("TROOP show a1b2c3d4", "")),
        Command::Show { id: "a1b2c3d4".into() }
    );
}

#[test]
fn parse_command_from_body_first_line() {
    let cmd = parse_command(&msg("Random subject", "TROOP list\nsome extra body text"));
    assert_eq!(cmd, Command::List);
}

#[test]
fn parse_unknown_returns_subject() {
    let cmd = parse_command(&msg("Hello there", "No command here"));
    assert_eq!(cmd, Command::Unknown("Hello there".into()));
}

#[test]
fn parse_case_insensitive() {
    assert_eq!(parse_command(&msg("troop LIST", "")), Command::List);
    assert_eq!(parse_command(&msg("Troop STATUS", "")), Command::Status);
}

#[test]
fn add_without_title_is_untitled_and_body_after_command_line_is_description() {
    let cmd = parse_command(&msg("", "\n  \nTROOP add\nfirst line\nsecond line\n"));
    assert_eq!(
        cmd,
        Command::Add { title: "Untitled".into(), description: "first line\nsecond line".into() }
    );
}

#[test]
fn unknown_verb_keeps_text_after_keyword() {
    assert_eq!(
        parse_command(&msg("TROOP frobnicate now", "")),
        Command::Unknown("frobnicate now".into())
    );
}

#[test]
fn subject_command_wins_over_body() {
    assert_eq!(parse_command(&msg("TROOP status", "TROOP list")), Command::Status);
}

#[test]
fn plan_add_creates_task_from_message() {
    let mut m = msg("TROOP add Fix bug", "details");
    m.headers.insert("message-id".into(), "<m1@x>".into());
    let cmd = parse_command(&m);
    let now = Timestamp::from_unix(1_700_000_000, 5).unwrap();
    match plan_command(&cmd, &m, "abcd1234".to_string(), now) {
        CommandAction::CreateTask(t) => {
            assert_eq!(t.id, "abcd1234");
            assert_eq!(t.title, "Fix bug");
            assert_eq!(t.description, "details");
            assert_eq!(t.from, "user@example.com");
            assert_eq!(t.source, "imap:test");
            assert!(!t.done);
            assert_eq!(t.message_id.as_deref(), Some("<m1@x>"));
            assert_eq!(t.created.secs(), 1_700_000_000);
            assert_eq!(t.created.nanos(), 5);
        }
        _ => panic!("expected a new task"),
    }
}

#[test]
fn plan_done_and_show_without_id_give_usage() {
    let m = msg("", "");
    let now = Timestamp::from_unix(0, 0).unwrap();
    match plan_command(&Command::Done { id: String::new() }, &m, "x".into(), now) {
        CommandAction::Reply(s) => assert_eq!(s, "Usage: TROOP done <id>"),
        _ => panic!("expected usage"),
    }
    let now = Timestamp::from_unix(0, 0).unwrap();
    match plan_command(&Command::Show { id: String::new() }, &m, "x".into(), now) {
        CommandAction::Reply(s) => assert_eq!(s, "Usage: TROOP show <id>"),
        _ => panic!("expected usage"),
    }
}

#[test]
fn message_without_command_becomes_a_task() {
    let mut m = msg("Call the plumber", "Kitchen sink leaks.\n");
    m.headers.insert("message-id".into(), "<q@x>".into());
    let cmd = parse_command(&m);
    assert_eq!(cmd, Command::Unknown("Call the plumber".into()));
    let now = Timestamp::from_unix(1_700_000_000, 0).unwrap();
    match plan_command(&cmd, &m, "ab12cd34".into(), now) {
        CommandAction::CreateTask(t) => {
            assert_eq!(t.id, "ab12cd34");
            assert_eq!(t.title, "Call the plumber");
            assert_eq!(t.description, "Kitchen sink leaks.\n");
            assert_eq!(t.from, "user@example.com");
            assert_eq!(t.message_id.as_deref(), Some("<q@x>"));
            assert!(!t.done);
        }
        _ => panic!("expected a new task"),
    }
    match command_action(&Command::Unknown("hi".into()), &msg("hi", "")) {
        CommandAction::CreateTask(t) => {
            assert_eq!(t.title, "hi");
            assert_eq!(t.id.len(), 8);
        }
        _ => panic!("expected a new task"),
    }
}

#[test]
fn plan_list_status_done_show() {
    let m = msg("", "");
    assert!(matches!(command_action(&Command::List, &m), CommandAction::ListPending));
    assert!(matches!(command_action(&Command::Status, &m), CommandAction::CountTasks));
    match command_action(&Command::Done { id: "ab12".into() }, &m) {
        CommandAction::MarkDone(id) => assert_eq!(id, "ab12"),
        _ => panic!("expected mark done"),
    }
    match command_action(&Command::Show { id: "ab12".into() }, &m) {
        CommandAction::ShowTask(id) => assert_eq!(id, "ab12"),
        _ => panic!("expected show"),
    }
}

#[test]
fn command_action_gives_new_task_a_valid_id() {
    let m = msg("TROOP add x", "");
    match command_action(&parse_command(&m), &m) {
        CommandAction::CreateTask(t) => {
            assert_eq!(t.id.len(), 8);
            assert!(troop::storage::Storage::validate_id(&t.id).is_ok());
            assert_eq!(t.title, "x");
        }
        _ => panic!("expected a new task"),
    }
}

#[test]
fn replies_read_as_expected() {
    assert_eq!(list_reply(&[]), "No pending tasks.");
    let ts = vec![task("a1", "One", false), task("b2", "Two", false)];
    assert_eq!(list_reply(&ts), "Pending tasks:\n[a1] One\n[b2] Two");
    assert_eq!(status_reply(3, 12), "Tasks: 3 pending, 12 done.");
    assert_eq!(added_reply("a1", "One"), "Task added: [a1] One");
    assert_eq!(done_reply("a1", true), "Task [a1] marked as done.");
    assert_eq!(done_reply("a1", false), "Task [a1] not found.");
    assert_eq!(show_reply("zz", None), "Task [zz] not found.");
}

#[test]
fn show_reply_describes_task() {
    let t = task("a1", "One", true);
    let expected_time = chrono::DateTime::from_timestamp(1_700_000_000, 0)
        .unwrap()
        .format("%Y-%m-%d %H:%M UTC")
        .to_string();
    assert_eq!(
        show_reply("a1", Some(&t)),
        format!("[a1] One (done)\nFrom: alice@example.com\nCreated: {}\n\n(no description)", expected_time)
    );
}
