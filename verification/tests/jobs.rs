use troop::commands::Command;
use troop::config::{AccountConfig, AccountType, FilterConfig};
use troop::jobs::{
    enabled_accounts, find_trigger, plan_message, reply_subject, wants_reply, JobBoard, JobInfo,
    JobPhase, MessagePlan,
};
use troop::message::Message;
use troop::time::Timestamp;

fn account(name: &str, enabled: bool, smtp: bool) -> AccountConfig {
    AccountConfig {
        name: name.into(),
        account_type: AccountType::Imap,
        host: None,
        port: None,
        username: None,
        password: None,
        tls: true,
        token: None,
        webhook_secret: None,
        enabled,
        poll_interval_secs: 60,
        smtp_host: if smtp { Some("smtp.x".into()) } else { None },
        smtp_port: None,
        smtp_username: None,
        smtp_password: None,
        smtp_tls: true,
        reply_from: None,
    }
}

#[test]
fn phases_have_lower_case_names() {
    assert_eq!(JobPhase::Starting.as_str(), "starting");
    assert_eq!(JobPhase::Running.as_str(), "running");
    assert_eq!(JobPhase::Idle.as_str(), "idle");
    assert_eq!(JobPhase::Error.as_str(), "error");
    assert_eq!(JobPhase::Stopped.as_str(), "stopped");
}

#[test]
fn dump_of_a_fresh_job() {
    let j = JobInfo::starting("imap:work".into(), 60);
    assert_eq!(
        j.dump(),
        "name:               imap:work\nphase:              starting\nconnected:          false\npoll_interval_secs: 60\nrun_count:          0\nlast_run:           never\nlast_error:         none"
    );
}

#[test]
fn dump_after_a_failed_poll() {
    let mut board = JobBoard::new();
    board.register("imap:work".into(), 30);
    board.poll_started("imap:work", Timestamp::from_unix(1_700_000_000, 0).unwrap());
    board.poll_failed("imap:work", "timeout".into());
    board.poll_settled("imap:work");
    assert_eq!(
        board.get(0).dump(),
        "name:               imap:work\nphase:              error\nconnected:          false\npoll_interval_secs: 30\nrun_count:          1\nlast_run:           2023-11-14 22:13:20 UTC\nlast_error:         timeout"
    );
}

#[test]
fn a_poll_cycle_moves_through_the_phases() {
    let mut board = JobBoard::new();
    board.register("telegram:bot".into(), 30);
    assert_eq!(board.get(0).phase, JobPhase::Starting);
    board.poll_started("telegram:bot", Timestamp::from_unix(10, 0).unwrap());
    assert_eq!(board.get(0).phase, JobPhase::Running);
    board.poll_succeeded("telegram:bot");
    assert_eq!(board.get(0).phase, JobPhase::Idle);
    assert!(board.get(0).connected);
    assert_eq!(board.get(0).run_count, 1);
    board.poll_started("telegram:bot", Timestamp::from_unix(20, 0).unwrap());
    board.poll_settled("telegram:bot");
    assert_eq!(board.get(0).phase, JobPhase::Idle);
    assert_eq!(board.get(0).last_run.as_ref().unwrap().secs(), 20);
    board.poll_failed("telegram:bot", "boom".into());
    board.poll_succeeded("telegram:bot");
    assert_eq!(board.get(0).last_error, None);
    assert_eq!(board.get(0).run_count, 3);
    board.stop("telegram:bot");
    assert_eq!(board.get(0).phase, JobPhase::Stopped);
}

#[test]
fn registering_again_resets_phase_and_keeps_history() {
    let mut board = JobBoard::new();
    board.register("imap:a".into(), 60);
    board.register("imap:b".into(), 60);
    board.poll_started("imap:a", Timestamp::from_unix(5, 0).unwrap());
    board.poll_succeeded("imap:a");
    board.stop("imap:a");
    board.register("imap:a".into(), 120);
    assert_eq!(board.len(), 2);
    let a = board.get(0);
    assert_eq!(a.phase, JobPhase::Starting);
    assert_eq!(a.poll_interval_secs, 120);
    assert_eq!(a.run_count, 1);
    assert!(a.connected);
    let snap = board.snapshot();
    assert_eq!(snap.len(), 2);
    assert_eq!(snap[1].name, "imap:b");
    assert_eq!(board.find("imap:b"), Some(1));
    assert_eq!(board.find("imap:c"), None);
}

#[test]
fn unknown_names_leave_the_board_alone() {
    let mut board = JobBoard::new();
    board.register("imap:a".into(), 60);
    board.stop("imap:zzz");
    board.poll_failed("imap:zzz", "x".into());
    assert_eq!(board.get(0).phase, JobPhase::Starting);
    assert_eq!(board.get(0).run_count, 0);
}

#[test]
fn reply_subjects() {
    assert_eq!(reply_subject(""), "Re: troop");
    assert_eq!(reply_subject("re: hello"), "re: hello");
    assert_eq!(reply_subject("RE: hello"), "RE: hello");
    assert_eq!(reply_subject("TROOP list"), "Re: TROOP list");
}

#[test]
fn only_mail_sources_with_smtp_answer() {
    assert!(wants_reply("imap:work", &account("work", true, true)));
    assert!(wants_reply("pop3:work", &account("work", true, true)));
    assert!(!wants_reply("imap:work", &account("work", true, false)));
    assert!(!wants_reply("telegram:bot", &account("bot", true, true)));
}

#[test]
fn triggers_match_exact_name_first_then_suffix() {
    let keys: Vec<String> = vec!["imap:main-email".into(), "main-email".into(), "telegram:bot".into()];
    assert_eq!(find_trigger(&keys, "main-email"), Some(1));
    assert_eq!(find_trigger(&keys, "bot"), Some(2));
    assert_eq!(find_trigger(&keys, "telegram:bot"), Some(2));
    assert_eq!(find_trigger(&keys, "email"), None);
    assert_eq!(find_trigger(&[], "x"), None);
}

#[test]
fn only_enabled_accounts_get_a_poller() {
    let accounts = vec![account("a", true, false), account("b", false, false), account("c", true, false)];
    assert_eq!(enabled_accounts(&accounts), vec![0, 2]);
}

#[test]
fn messages_are_filtered_parsed_and_answered() {
    let m = Message {
        source: "imap:work".into(),
        from: "boss@example.com".into(),
        subject: "TROOP list".into(),
        body: String::new(),
        ..Default::default()
    };
    let f = FilterConfig { from_address: Some(vec!["boss@example.com".into()]), ..Default::default() };
    match plan_message(&m, &[f.clone()], false, "imap:work", &account("work", true, true)) {
        MessagePlan::Run { command, reply_subject } => {
            assert_eq!(command, Command::List);
            assert_eq!(reply_subject.as_deref(), Some("Re: TROOP list"));
        }
        MessagePlan::Rejected => panic!("should pass"),
    }
    match plan_message(&m, &[], false, "telegram:bot", &account("bot", true, true)) {
        MessagePlan::Run { reply_subject, .. } => assert_eq!(reply_subject, None),
        MessagePlan::Rejected => panic!("should pass"),
    }
    let mut eve = m.clone();
    eve.from = "eve@example.com".into();
    assert!(matches!(
        plan_message(&eve, &[f], false, "imap:work", &account("work", true, true)),
        MessagePlan::Rejected
    ));
}

#[test]
fn a_source_is_triggered_by_account_or_source_name() {
    let keys: Vec<String> = vec!["imap:main-email".into()];
    assert_eq!(find_trigger(&keys, "main-email"), Some(0));
    assert_eq!(find_trigger(&keys, "imap:main-email"), Some(0));
    assert_eq!(find_trigger(&keys, "work"), None);
}
