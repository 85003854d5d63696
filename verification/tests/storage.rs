use troop::config::StorageConfig;
use troop::storage::{
    format_task_file, parse_task_file, tasks_from_entries, DirEntry, Storage, StorageError, Task,
    TaskLocation,
};
use troop::time::Timestamp;

fn ts(secs: i64) -> Timestamp {
    Timestamp::from_unix(secs, 0).unwrap()
}

fn storage() -> Storage {
    Storage::new(&StorageConfig { todo_dir: "/data/todo".into(), done_dir: "/data/done".into() })
}

fn sample_task(id: &str) -> Task {
    Task {
        id: id.to_string(),
        title: "Test Task".to_string(),
        description: "desc".to_string(),
        created: ts(1_700_000_000),
        from: "alice@example.com".to_string(),
        source: "imap:main".to_string(),
        done: false,
        message_id: Some("<test-id@example.com>".to_string()),
    }
}

#[test]
fn valid_ids_are_accepted() {
    assert!(Storage::validate_id("a1b2c3d4").is_ok());
    assert!(Storage::validate_id("abcd-1234").is_ok());
    assert!(Storage::validate_id("ABCD1234").is_ok());
}

#[test]
fn path_traversal_ids_are_rejected() {
    assert!(Storage::validate_id("../../etc/passwd").is_err());
    assert!(Storage::validate_id("../secret").is_err());
    assert!(Storage::validate_id("a/b").is_err());
    assert!(Storage::validate_id("a\\b").is_err());
}

#[test]
fn empty_id_is_rejected() {
    assert!(Storage::validate_id("").is_err());
}

#[test]
fn oversized_id_is_rejected() {
    let long = "a".repeat(65);
    assert!(Storage::validate_id(&long).is_err());
}

#[test]
fn id_errors_say_why() {
    assert_eq!(Storage::validate_id(""), Err(StorageError::InvalidIdLength));
    assert_eq!(Storage::validate_id(&"a".repeat(64)), Ok(()));
    assert_eq!(Storage::validate_id("é"), Err(StorageError::InvalidIdChars));
    assert_eq!(Storage::validate_id(&"é".repeat(33)), Err(StorageError::InvalidIdLength));
    assert_eq!(StorageError::InvalidIdLength.message(), "invalid task id length");
    assert_eq!(StorageError::InvalidIdChars.message(), "task id contains invalid characters");
}

#[test]
fn message_id_roundtrips_through_file() {
    let storage = storage();
    let task = sample_task("abc12345");
    let (path, text) = storage.create_task(&task).unwrap();
    assert_eq!(path, "/data/todo/abc12345.md");

    let loaded = parse_task_file("abc12345.md", &text, false, ts(0));
    assert_eq!(loaded.message_id.as_deref(), Some("<test-id@example.com>"));
}

#[test]
fn task_file_reads_back_what_was_written() {
    let task = sample_task("abc12345");
    let text = format_task_file(&task);
    let back = parse_task_file("abc12345.md", &text, false, ts(5));
    assert_eq!(back.id, task.id);
    assert_eq!(back.title, task.title);
    assert_eq!(back.description, task.description);
    assert_eq!(back.from, task.from);
    assert_eq!(back.source, task.source);
    assert_eq!(back.created.secs(), 1_700_000_000);
    assert!(!back.done);
}

#[test]
fn task_file_text() {
    let mut task = sample_task("abc12345");
    task.message_id = None;
    let created = chrono::DateTime::from_timestamp(1_700_000_000, 0).unwrap().to_rfc3339();
    assert_eq!(
        format_task_file(&task),
        format!(
            "id: abc12345\ncreated: {}\nfrom: alice@example.com\nsource: imap:main\n---\n# Test Task\n\ndesc\n",
            created
        )
    );
}

#[test]
fn file_without_header_uses_stem_and_fallback_time() {
    let t = parse_task_file("zz99.md", "just some text", true, ts(42));
    assert_eq!(t.id, "zz99");
    assert_eq!(t.title, "zz99");
    assert_eq!(t.description, "");
    assert_eq!(t.created.secs(), 42);
    assert!(t.done);
    assert_eq!(t.message_id, None);
}

#[test]
fn mark_replied_renames_file() {
    let storage = storage();
    let (from, to) = storage.mark_replied("abc12345").unwrap();
    assert_eq!(from, "/data/done/abc12345.md");
    assert_eq!(to, "/data/done/.abc12345.md");
    assert!(storage.mark_replied("../x").is_err());
}

#[test]
fn mark_done_moves_from_todo_to_done() {
    let storage = storage();
    let (from, to) = storage.mark_done("abc12345").unwrap();
    assert_eq!(from, "/data/todo/abc12345.md");
    assert_eq!(to, "/data/done/abc12345.md");
    assert_eq!(storage.mark_done("a/b"), Err(StorageError::InvalidIdChars));
}

#[test]
fn list_done_unreplied_excludes_replied_files() {
    let mut task = sample_task("aaa11111");
    task.done = true;
    let entries = || {
        vec![
            DirEntry { name: ".aaa11111.md".into(), content: Some(format_task_file(&task)) },
            DirEntry { name: "notes.txt".into(), content: Some("x".into()) },
            DirEntry { name: "broken.md".into(), content: None },
        ]
    };
    let unreplied = tasks_from_entries(entries(), true, true, &ts(0));
    assert!(unreplied.is_empty());
    let all_done = tasks_from_entries(entries(), true, false, &ts(0));
    assert_eq!(all_done.len(), 1);
    assert_eq!(all_done[0].id, "aaa11111");
}

#[test]
fn listing_is_newest_first() {
    let mut a = sample_task("aaaa0001");
    a.created = ts(100);
    let mut b = sample_task("bbbb0002");
    b.created = ts(300);
    let mut c = sample_task("cccc0003");
    c.created = ts(200);
    let entries = vec![
        DirEntry { name: "aaaa0001.md".into(), content: Some(format_task_file(&a)) },
        DirEntry { name: "bbbb0002.md".into(), content: Some(format_task_file(&b)) },
        DirEntry { name: "cccc0003.md".into(), content: Some(format_task_file(&c)) },
    ];
    let listed = tasks_from_entries(entries, false, false, &ts(0));
    let ids: Vec<&str> = listed.iter().map(|t| t.id.as_str()).collect();
    assert_eq!(ids, vec!["bbbb0002", "cccc0003", "aaaa0001"]);
}

#[test]
fn get_task_finds_replied_done_task() {
    let storage = storage();
    let order = storage.lookup_order("bbb22222").unwrap();
    assert_eq!(order.len(), 3);
    assert_eq!(order[0], ("/data/todo/bbb22222.md".to_string(), TaskLocation::Todo));
    assert_eq!(order[1], ("/data/done/bbb22222.md".to_string(), TaskLocation::Done));
    assert_eq!(order[2], ("/data/done/.bbb22222.md".to_string(), TaskLocation::Replied));
    assert!(!order[0].1.is_done());
    assert!(order[1].1.is_done() && order[2].1.is_done());

    let mut task = sample_task("bbb22222");
    task.done = true;
    let found = parse_task_file(".bbb22222.md", &format_task_file(&task), true, ts(0));
    assert_eq!(found.id, "bbb22222");
    assert!(found.done);
}

#[test]
fn new_ids_are_eight_hex_digits() {
    let id = Storage::new_id();
    assert_eq!(id.len(), 8);
    assert!(id.chars().all(|c| c.is_ascii_hexdigit() && !c.is_ascii_uppercase()));
    assert!(Storage::validate_id(&id).is_ok());
}

#[test]
fn counts_treat_failed_listings_as_empty() {
    let ok: Result<Vec<Task>, String> = Ok(vec![sample_task("a1"), sample_task("a2")]);
    let err: Result<Vec<Task>, String> = Err("io".into());
    assert_eq!(Storage::counts(&ok, &err), (2, 0));
}

#[test]
fn paths_join_directories() {
    let s = Storage::new(&StorageConfig { todo_dir: "t/".into(), done_dir: "".into() });
    assert_eq!(s.task_path("x1", false), "t/x1.md");
    assert_eq!(s.task_path("x1", true), "x1.md");
    assert_eq!(s.replied_path("x1"), ".x1.md");
}

#[test]
fn tasks_created_together_keep_listing_order() {
    let mk = |id: &str, secs: i64| {
        let mut t = sample_task(id);
        t.created = ts(secs);
        DirEntry { name: format!("{}.md", id), content: Some(format_task_file(&t)) }
    };
    let entries = vec![mk("aaaa0001", 100), mk("bbbb0002", 200), mk("cccc0003", 100), mk("dddd0004", 200)];
    let listed = tasks_from_entries(entries, false, false, &ts(0));
    let ids: Vec<&str> = listed.iter().map(|t| t.id.as_str()).collect();
    assert_eq!(ids, vec!["bbbb0002", "dddd0004", "aaaa0001", "cccc0003"]);
}

#[test]
fn creation_time_reads_back_exactly() {
    let mut t = sample_task("abc12345");
    t.created = Timestamp::from_unix(1_700_000_000, 123_456_789).unwrap();
    let back = parse_task_file("abc12345.md", &format_task_file(&t), false, ts(0));
    assert_eq!(back.created.secs(), 1_700_000_000);
    assert_eq!(back.created.nanos(), 123_456_789);
}
