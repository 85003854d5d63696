use troop::config::{FilterConfig, HeaderCheck};
use troop::filter::is_allowed;
use troop::message::Message;

fn msg(from: &str, subject: &str, body: &str) -> Message {
    Message {
        source: "imap:main".into(),
        from: from.to_string(),
        subject: subject.to_string(),
        body: body.to_string(),
        ..Default::default()
    }
}

#[test]
fn empty_filter_list_accepts_everything() {
    assert!(is_allowed(&msg("anyone@example.com", "hi", "body"), &[], false));
}

#[test]
fn from_address_filter_allows_matching_sender() {
    let f = FilterConfig {
        from_address: Some(vec!["boss@example.com".into()]),
        ..Default::default()
    };
    assert!(is_allowed(&msg("boss@example.com", "hi", ""), &[f], false));
}

#[test]
fn from_address_filter_rejects_unknown_sender() {
    let f = FilterConfig {
        from_address: Some(vec!["boss@example.com".into()]),
        ..Default::default()
    };
    assert!(!is_allowed(&msg("attacker@evil.com", "hi", ""), &[f], false));
}

#[test]
fn subject_contains_filter() {
    let f = FilterConfig {
        subject_contains: Some(vec!["TROOP".into()]),
        ..Default::default()
    };
    assert!(is_allowed(&msg("any@x.com", "TROOP list", ""), &[f.clone()], false));
    assert!(!is_allowed(&msg("any@x.com", "Hello world", ""), &[f], false));
}

#[test]
fn body_contains_filter() {
    let f = FilterConfig {
        body_contains: Some(vec!["secret".into()]),
        ..Default::default()
    };
    assert!(is_allowed(&msg("x@x.com", "subj", "this is the secret word"), &[f.clone()], false));
    assert!(!is_allowed(&msg("x@x.com", "subj", "no magic word here"), &[f], false));
}

#[test]
fn header_check_filter() {
    let f = FilterConfig {
        header_checks: Some(vec![HeaderCheck {
            name: "x-troop-auth".into(),
            value: "mytoken".into(),
        }]),
        ..Default::default()
    };
    let mut m = msg("x@x.com", "s", "b");
    m.headers.insert("x-troop-auth".into(), "mytoken".into());
    assert!(is_allowed(&m, &[f.clone()], false));

    let m2 = msg("x@x.com", "s", "b"); // no header
    assert!(!is_allowed(&m2, &[f], false));
}

#[test]
fn account_scoping() {
    let f = FilterConfig {
        account: Some("main".into()),
        from_address: Some(vec!["boss@example.com".into()]),
        ..Default::default()
    };
    // Correct account + matching from
    let mut m = msg("boss@example.com", "s", "b");
    m.source = "imap:main".into();
    assert!(is_allowed(&m, &[f.clone()], false));

    // Wrong account – filter does not apply (returns false since it is the only filter)
    let mut m2 = msg("boss@example.com", "s", "b");
    m2.source = "imap:other".into();
    assert!(!is_allowed(&m2, &[f], false));
}

#[test]
fn multiple_filters_are_or_ed() {
    let f1 = FilterConfig {
        from_address: Some(vec!["alice@example.com".into()]),
        ..Default::default()
    };
    let f2 = FilterConfig {
        from_address: Some(vec!["bob@example.com".into()]),
        ..Default::default()
    };
    assert!(is_allowed(&msg("alice@example.com", "s", "b"), &[f1.clone(), f2.clone()], false));
    assert!(is_allowed(&msg("bob@example.com", "s", "b"), &[f1.clone(), f2.clone()], false));
    assert!(!is_allowed(&msg("eve@example.com", "s", "b"), &[f1, f2], false));
}

#[test]
fn fields_within_a_filter_are_and_ed() {
    let f = FilterConfig {
        from_address: Some(vec!["boss@example.com".into()]),
        subject_contains: Some(vec!["TODO:".into()]),
        ..Default::default()
    };
    assert!(is_allowed(&msg("boss@example.com", "TODO: x", ""), &[f.clone()], false));
    assert!(!is_allowed(&msg("boss@example.com", "hello", ""), &[f.clone()], false));
    assert!(!is_allowed(&msg("eve@example.com", "TODO: x", ""), &[f], false));
}

#[test]
fn sender_with_display_name_matches_bare_address() {
    let f = FilterConfig {
        from_address: Some(vec!["boss@example.com".into()]),
        ..Default::default()
    };
    assert!(is_allowed(&msg("The Boss <boss@example.com>", "s", ""), &[f], false));
}

#[test]
fn gpg_filter_follows_the_signature_check() {
    let f = FilterConfig { gpg_required: true, ..Default::default() };
    let mut signed = msg("x@x.com", "s", "b");
    signed.raw_body = b"b".to_vec();
    assert!(is_allowed(&signed, &[f.clone()], true));
    assert!(!is_allowed(&msg("x@x.com", "s", "b"), &[f], false));
}

#[test]
fn filter_without_conditions_accepts_everything() {
    let f = FilterConfig::default();
    assert!(is_allowed(&msg("x@x.com", "s", "b"), &[f], false));
}

#[test]
fn sender_must_be_a_listed_address_not_contain_one() {
    let f = FilterConfig {
        from_address: Some(vec!["boss@example.com".into()]),
        ..Default::default()
    };
    assert!(!is_allowed(&msg("notboss@example.com", "s", "b"), &[f.clone()], false));
    assert!(!is_allowed(&msg("boss@example.com.evil", "s", "b"), &[f.clone()], false));
    assert!(is_allowed(&msg("BOSS@Example.com", "s", "b"), &[f.clone()], false));
    assert!(is_allowed(&msg("  boss@example.com ", "s", "b"), &[f], false));
}

#[test]
fn signature_check_needs_a_body() {
    let mut m = msg("x@x.com", "s", "b");
    assert!(!troop::filter::signature_checkable(&m));
    m.raw_body = b"-----BEGIN PGP SIGNED MESSAGE-----".to_vec();
    assert!(troop::filter::signature_checkable(&m));
}

#[test]
fn signed_filter_rejects_message_without_raw_body() {
    let f = FilterConfig { gpg_required: true, ..Default::default() };
    let m = Message::default();
    assert!(!is_allowed(&m, &[f], true));
}
