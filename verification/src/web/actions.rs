//! What the request handlers decide: which account or filter a request
//! names, what a removal leaves, whether a password is accepted, where the
//! browser is sent next, and what becomes of a webhook delivery.
use vstd::prelude::*;

use crate::config::{AccountConfig, AccountType, FilterConfig};
use crate::message::Message;
use crate::source::webhook::{
    message_from_payload, payload_message, webhook_secret_of, TelegramUpdate, WebhookQueues,
};
use crate::storage::{uuid_text_shape, uuid_v4_text, Task, TaskView};
use crate::storage::opt_view;
use crate::text::{concat2, str_eq, trim, trim_str};
use crate::time::Timestamp;
use crate::web::forms::{AddTaskForm, ChangePasswordForm};
use vstd::utf8::encode_utf8;

verus! {

// ── Finding and removing accounts and filters ─────────────────────────────────

/// `i` is the first account named `name`.
pub open spec fn first_account(accounts: Seq<AccountConfig>, name: Seq<char>, i: int) -> bool {
    &&& 0 <= i < accounts.len()
    &&& accounts[i].name@ == name
    &&& forall|j: int| 0 <= j < i ==> accounts[j].name@ != name
}

pub open spec fn has_account(accounts: Seq<AccountConfig>, name: Seq<char>) -> bool {
    exists|i: int| 0 <= i < accounts.len() && accounts[i].name@ == name
}

/// The first account named `name`, as the edit pages and the poll button
/// look it up.
pub fn find_account(accounts: &[AccountConfig], name: &str) -> (r: Option<usize>)
    ensures
        match r {
            Some(i) => first_account(accounts@, name@, i as int),
            None => !has_account(accounts@, name@),
        },
{
    let mut i: usize = 0;
    while i < accounts.len()
        invariant
            i <= accounts@.len(),
            forall|j: int| 0 <= j < i ==> accounts@[j].name@ != name@,
        decreases accounts@.len() - i,
    {
        if str_eq(accounts[i].name.as_str(), name) {
            return Some(i);
        }
        i = i + 1;
    }
    None
}

/// The accounts that are not named `name`, in their order.
pub open spec fn without_named(accounts: Seq<AccountConfig>, name: Seq<char>) -> Seq<AccountConfig>
    decreases accounts.len(),
{
    if accounts.len() == 0 {
        Seq::empty()
    } else {
        let p = without_named(accounts.drop_last(), name);
        if accounts.last().name@ == name {
            p
        } else {
            p.push(accounts.last())
        }
    }
}

proof fn lemma_without_named_id(accounts: Seq<AccountConfig>, name: Seq<char>)
    requires
        forall|j: int| 0 <= j < accounts.len() ==> accounts[j].name@ != name,
    ensures
        without_named(accounts, name) == accounts,
    decreases accounts.len(),
{
    if accounts.len() > 0 {
        lemma_without_named_id(accounts.drop_last(), name);
        assert(accounts.drop_last().push(accounts.last()) =~= accounts);
    } else {
        assert(accounts =~= Seq::empty());
    }
}

proof fn lemma_without_named_remove(accounts: Seq<AccountConfig>, name: Seq<char>, i: int)
    requires
        0 <= i < accounts.len(),
        accounts[i].name@ == name,
    ensures
        without_named(accounts.remove(i), name) == without_named(accounts, name),
    decreases accounts.len(),
{
    if i == accounts.len() - 1 {
        assert(accounts.remove(i) =~= accounts.drop_last());
    } else {
        lemma_without_named_remove(accounts.drop_last(), name, i);
        assert(accounts.remove(i).drop_last() =~= accounts.drop_last().remove(i));
        assert(accounts.remove(i).last() == accounts.last());
    }
}

/// Remove every account named `name` (`retain` with a differing name);
/// `true` when there was one.
pub fn remove_accounts_named(accounts: &mut Vec<AccountConfig>, name: &str) -> (r: bool)
    ensures
        final(accounts)@ == without_named(old(accounts)@, name@),
        r == has_account(old(accounts)@, name@),
{
    let mut removed = false;
    let mut i: usize = 0;
    while i < accounts.len()
        invariant
            i <= accounts@.len(),
            forall|j: int| 0 <= j < i ==> accounts@[j].name@ != name@,
            without_named(accounts@, name@) == without_named(old(accounts)@, name@),
            removed ==> has_account(old(accounts)@, name@),
            !removed ==> accounts@ == old(accounts)@,
        decreases accounts@.len() - i,
    {
        if str_eq(accounts[i].name.as_str(), name) {
            proof {
                lemma_without_named_remove(accounts@, name@, i as int);
                if !removed {
                    assert(old(accounts)@[i as int].name@ == name@);
                }
            }
            accounts.remove(i);
            removed = true;
        } else {
            i = i + 1;
        }
    }
    proof {
        lemma_without_named_id(accounts@, name@);
    }
    removed
}

/// Removing the accounts named like a newly added one gives back the
/// accounts as they were before the addition, when none had that name.
pub proof fn lemma_remove_undoes_add(accounts: Seq<AccountConfig>, added: AccountConfig)
    requires
        !has_account(accounts, added.name@),
    ensures
        without_named(accounts.push(added), added.name@) == accounts,
{
    assert(accounts.push(added).drop_last() =~= accounts);
    lemma_without_named_id(accounts, added.name@);
}

/// Remove the filter at position `idx`; `false` (and nothing removed) when
/// the position is out of range.
pub fn remove_filter(filters: &mut Vec<FilterConfig>, idx: usize) -> (r: bool)
    ensures
        r == (idx < old(filters)@.len()),
        r ==> final(filters)@ == old(filters)@.remove(idx as int),
        !r ==> final(filters)@ == old(filters)@,
{
    if idx >= filters.len() {
        return false;
    }
    filters.remove(idx);
    true
}

// ── Redirects ─────────────────────────────────────────────────────────────────

/// The integrations page an account belongs on.
pub open spec fn integrations_path(t: AccountType) -> Seq<char> {
    match t {
        AccountType::Telegram => "/admin/integrations/telegram"@,
        AccountType::Webhook => "/admin/integrations/webhook"@,
        _ => "/admin/integrations/email"@,
    }
}

/// Where a manual poll of `name` returns to: the page of the first account
/// of that name, the e-mail page when there is none.
pub fn poll_return_path(accounts: &[AccountConfig], name: &str) -> (r: &'static str)
    ensures
        match find_first(accounts@, name@) {
            Some(i) => r@ == integrations_path(accounts@[i].account_type),
            None => r@ == "/admin/integrations/email"@,
        },
{
    match find_account(accounts, name) {
        Some(i) => match accounts[i].account_type {
            AccountType::Telegram => "/admin/integrations/telegram",
            AccountType::Webhook => "/admin/integrations/webhook",
            _ => "/admin/integrations/email",
        },
        None => "/admin/integrations/email",
    }
}

/// The position of the first account named `name`.
pub open spec fn find_first(accounts: Seq<AccountConfig>, name: Seq<char>) -> Option<int> {
    if has_account(accounts, name) {
        Some(choose|i: int| first_account(accounts, name, i))
    } else {
        None
    }
}

// ── Flash messages in redirects ───────────────────────────────────────────────

/// A byte that percent-encoding leaves as it is.
pub open spec fn url_safe(b: u8) -> bool {
    (48 <= b <= 57) || (65 <= b <= 90) || (97 <= b <= 122) || b == 45 || b == 46 || b == 95 || b
        == 126
}

/// An upper-case hexadecimal digit.
pub open spec fn hex_digit(d: u8) -> char {
    if d < 10 {
        ((48 + d) as u8) as char
    } else {
        ((55 + d) as u8) as char
    }
}

/// The text that stands for byte `b` in a URL.
pub open spec fn url_byte(b: u8) -> Seq<char> {
    if url_safe(b) {
        seq![b as char]
    } else {
        seq!['%', hex_digit(b / 16), hex_digit(b % 16)]
    }
}

/// Percent-encoding of `bytes`.
pub open spec fn url_encoded(bytes: Seq<u8>) -> Seq<char>
    decreases bytes.len(),
{
    if bytes.len() == 0 {
        Seq::empty()
    } else {
        url_encoded(bytes.drop_last()) + url_byte(bytes.last())
    }
}

/// A character that may stand in a URL's query value: an unreserved ASCII
/// character, `%` or an upper-case hex digit.
pub open spec fn url_char(c: char) -> bool {
    ('0' <= c <= '9') || ('A' <= c <= 'Z') || ('a' <= c <= 'z') || c == '-' || c == '.' || c == '_'
        || c == '~' || c == '%'
}

/// Percent-encoded text holds only URL characters: no space, `&`, `#`, `?`
/// or `=` of a message can end up in the query unescaped.
pub proof fn lemma_url_encoded_chars(bytes: Seq<u8>)
    ensures
        forall|i: int| 0 <= i < url_encoded(bytes).len() ==> url_char(#[trigger] url_encoded(bytes)[i]),
    decreases bytes.len(),
{
    if bytes.len() > 0 {
        lemma_url_encoded_chars(bytes.drop_last());
        let a = url_encoded(bytes.drop_last());
        let b = url_byte(bytes.last());
        let x = bytes.last();
        assert(x / 16 < 16 && x % 16 < 16);
        assert forall|i: int| 0 <= i < url_encoded(bytes).len() implies url_char(
            #[trigger] url_encoded(bytes)[i],
        ) by {
            if i >= a.len() {
                assert(url_encoded(bytes)[i] == b[i - a.len()]);
            } else {
                assert(url_encoded(bytes)[i] == a[i]);
            }
        }
    }
}

/// `urlencoding::encode`: percent-encodes every byte of the UTF-8 text
/// except ASCII letters, digits and `-`, `.`, `_`, `~`, with upper-case hex
/// digits.
#[verifier::external_body]
fn url_encode(s: &str) -> (r: String)
    ensures
        r@ == url_encoded(encode_utf8(s@)),
{
    urlencoding::encode(s).into_owned()
}

/// The target of a redirect to `path` that shows `msg` in the page's banner.
pub fn flash_location(path: &str, msg: &str) -> (r: String)
    ensures
        r@ == path@ + "?flash="@ + url_encoded(encode_utf8(msg@)),
{
    let mut r = concat2(path, "?flash=");
    r.append(url_encode(msg).as_str());
    r
}

// ── Passwords ─────────────────────────────────────────────────────────────────

/// Why a password change is refused.
#[derive(Debug, Clone, Copy, PartialEq, Eq, Structural)]
pub enum PasswordError {
    Mismatch,
    Empty,
    WrongCurrent,
}

impl PasswordError {
    pub fn message(&self) -> (r: &'static str)
        ensures
            r@ == password_error_text(*self),
    {
        match self {
            PasswordError::Mismatch => "Passwords do not match.",
            PasswordError::Empty => "New password cannot be empty.",
            PasswordError::WrongCurrent => "Current password is incorrect.",
        }
    }
}

pub open spec fn password_error_text(e: PasswordError) -> Seq<char> {
    match e {
        PasswordError::Mismatch => "Passwords do not match."@,
        PasswordError::Empty => "New password cannot be empty."@,
        PasswordError::WrongCurrent => "Current password is incorrect."@,
    }
}

/// The verdict on a password change, checked in this order: the two new
/// passwords must agree, must not be empty, and when a password is set the
/// current one must be given correctly.
pub open spec fn password_verdict(current: Option<Seq<char>>, form: ChangePasswordForm) -> Result<
    (),
    PasswordError,
> {
    if form.new_password@ != form.confirm_password@ {
        Err(PasswordError::Mismatch)
    } else if form.new_password@.len() == 0 {
        Err(PasswordError::Empty)
    } else if current matches Some(pw) && form.current_password@ != pw {
        Err(PasswordError::WrongCurrent)
    } else {
        Ok(())
    }
}

/// A password change goes through exactly when the new password is typed
/// twice alike, is not empty, and, where a password is set, the current one
/// is given correctly; a refused change is refused for the first of these
/// that fails.
pub proof fn lemma_password_change_guarded(current: Option<Seq<char>>, form: ChangePasswordForm)
    ensures
        password_verdict(current, form) is Ok <==> {
            &&& form.new_password@ == form.confirm_password@
            &&& form.new_password@.len() > 0
            &&& current matches Some(pw) ==> form.current_password@ == pw
        },
        form.new_password@ != form.confirm_password@ ==> password_verdict(current, form) == Err::<
            (),
            PasswordError,
        >(PasswordError::Mismatch),
        (current matches Some(pw) && form.current_password@ != pw && form.new_password@
            == form.confirm_password@ && form.new_password@.len() > 0) ==> password_verdict(
            current,
            form,
        ) == Err::<(), PasswordError>(PasswordError::WrongCurrent),
{
}

pub fn check_password_change(current: &Option<String>, form: &ChangePasswordForm) -> (r: Result<
    (),
    PasswordError,
>)
    ensures
        r == password_verdict(opt_view(*current), *form),
{
    if !str_eq(form.new_password.as_str(), form.confirm_password.as_str()) {
        return Err(PasswordError::Mismatch);
    }
    if form.new_password.as_str().is_empty() {
        return Err(PasswordError::Empty);
    }
    if let Some(pw) = current {
        if !str_eq(form.current_password.as_str(), pw.as_str()) {
            return Err(PasswordError::WrongCurrent);
        }
    }
    Ok(())
}

/// What a login attempt leads to.
#[derive(Debug, Clone, Copy, PartialEq, Eq, Structural)]
pub enum LoginOutcome {
    /// No password is configured: straight to the admin pages.
    Open,
    /// The password matches: a session cookie is issued.
    Accepted,
    /// Wrong password.
    Rejected,
}

pub fn login_outcome(expected: &Option<String>, given: &str) -> (r: LoginOutcome)
    ensures
        r == match opt_view(*expected) {
            None => LoginOutcome::Open,
            Some(pw) => if given@ == pw {
                LoginOutcome::Accepted
            } else {
                LoginOutcome::Rejected
            },
        },
{
    match expected {
        None => LoginOutcome::Open,
        Some(pw) => if str_eq(given, pw.as_str()) {
            LoginOutcome::Accepted
        } else {
            LoginOutcome::Rejected
        },
    }
}

// ── Tasks added from the web ──────────────────────────────────────────────────

/// The task the "new task" form creates, with the given id and time.
pub fn new_web_task(form: AddTaskForm, id: String, now: Timestamp) -> (r: Task)
    ensures
        r@ == (TaskView {
            id: id@,
            title: trim(form.title@),
            description: trim(
                match form.description {
                    Some(d) => d@,
                    None => Seq::empty(),
                },
            ),
            created: now@,
            from: "web"@,
            source: "web"@,
            done: false,
            message_id: None,
        }),
{
    let description = match &form.description {
        Some(d) => trim_str(d.as_str()).to_owned(),
        None => {
            proof {
                reveal_strlit("");
            }
            trim_str("").to_owned()
        },
    };
    let ghost d = description@;
    assert(d == trim(
        match form.description {
            Some(d) => d@,
            None => Seq::empty(),
        },
    ));
    Task {
        id,
        title: trim_str(form.title.as_str()).to_owned(),
        description,
        created: now,
        from: "web".to_owned(),
        source: "web".to_owned(),
        done: false,
        message_id: None,
    }
}

// ── Webhook deliveries ────────────────────────────────────────────────────────

/// The source label of a delivery to `secret`: `webhook:` and the name of the
/// first webhook account with that secret, else `webhook:` and the secret.
pub open spec fn delivery_source(accounts: Seq<AccountConfig>, secret: Seq<char>) -> Seq<char>
    decreases accounts.len(),
{
    if accounts.len() == 0 {
        "webhook:"@ + secret
    } else if accounts[0].account_type == AccountType::Webhook && webhook_secret_of(accounts[0])
        == secret {
        "webhook:"@ + accounts[0].name@
    } else {
        delivery_source(accounts.drop_first(), secret)
    }
}

pub fn webhook_source_name(accounts: &[AccountConfig], secret: &str) -> (r: String)
    ensures
        r@ == delivery_source(accounts@, secret@),
{
    let mut i: usize = 0;
    assert(accounts@.subrange(0, accounts@.len() as int) =~= accounts@);
    while i < accounts.len()
        invariant
            i <= accounts@.len(),
            delivery_source(accounts@.subrange(i as int, accounts@.len() as int), secret@)
                == delivery_source(accounts@, secret@),
        decreases accounts@.len() - i,
    {
        let ghost rest = accounts@.subrange(i as int, accounts@.len() as int);
        assert(rest.drop_first() =~= accounts@.subrange(i + 1, accounts@.len() as int));
        let a = &accounts[i];
        if a.account_type == AccountType::Webhook {
            let matches = match &a.webhook_secret {
                Some(s) => str_eq(s.as_str(), secret),
                None => str_eq(a.name.as_str(), secret),
            };
            if matches {
                return concat2("webhook:", a.name.as_str());
            }
        }
        i = i + 1;
    }
    concat2("webhook:", secret)
}

/// The answer to a webhook delivery.
#[derive(Debug, Clone, Copy, PartialEq, Eq, Structural)]
pub enum Delivery {
    /// No endpoint has this secret (404).
    UnknownSecret,
    /// A message was queued for the endpoint (200).
    Queued,
    /// Accepted, but nothing in it to act on (204).
    Ignored,
}

/// Handle a delivery of `payload` to the endpoint `secret`: unknown secrets
/// are refused; otherwise the message the payload carries, if any, is queued
/// on the endpoint's queue.  `update` is the payload decoded as a Telegram
/// update, when it is one.
pub fn receive_webhook(
    queues: &mut WebhookQueues,
    accounts: &[AccountConfig],
    secret: &str,
    payload: &[u8],
    update: Option<TelegramUpdate>,
) -> (r: Delivery)
    ensures
        final(queues)@.secrets == old(queues)@.secrets,
        match crate::source::webhook::secret_index(old(queues)@.secrets, secret@) {
            None => r == Delivery::UnknownSecret && final(queues)@ == old(queues)@,
            Some(q) => exists|m: Option<Message>|
                {
                    &&& payload_message(
                        m,
                        payload@,
                        delivery_source(accounts@, secret@),
                        secret@,
                        update,
                    )
                    &&& match m {
                        Some(msg) => r == Delivery::Queued && final(queues)@.queues == old(
                            queues,
                        )@.queues.update(q, old(queues)@.queues[q].push(msg)),
                        None => r == Delivery::Ignored && final(queues)@ == old(queues)@,
                    }
                },
        },
{
    let q = match queues.queue_for(secret) {
        Some(q) => q,
        None => return Delivery::UnknownSecret,
    };
    let source = webhook_source_name(accounts, secret);
    let m = message_from_payload(payload, source.as_str(), secret, update);
    let ghost gm = m;
    match m {
        Some(msg) => {
            queues.push(q, msg);
            assert(payload_message(gm, payload@, delivery_source(accounts@, secret@), secret@, update));
            Delivery::Queued
        },
        None => Delivery::Ignored,
    }
}

// ── Sessions ──────────────────────────────────────────────────────────────────

/// A fresh session token: a random UUID in hyphenated lower-case form.  A new
/// one is made at start-up and after each password change, which ends all
/// older sessions.
pub fn new_session_token() -> (r: String)
    ensures
        uuid_text_shape(r@),
{
    uuid_v4_text()
}

// ── Integration pages ─────────────────────────────────────────────────────────

/// The three pages that manage accounts.
#[derive(Debug, Clone, Copy, PartialEq, Eq, Structural)]
pub enum Integration {
    /// IMAP and POP3 accounts.
    Email,
    Telegram,
    Webhook,
}

pub open spec fn listed_on(t: AccountType, page: Integration) -> bool {
    match page {
        Integration::Email => t == AccountType::Imap || t == AccountType::Pop3,
        Integration::Telegram => t == AccountType::Telegram,
        Integration::Webhook => t == AccountType::Webhook,
    }
}

/// Positions, in order, of the accounts a page lists.
pub open spec fn listed_positions(accounts: Seq<AccountConfig>, page: Integration) -> Seq<int>
    decreases accounts.len(),
{
    if accounts.len() == 0 {
        Seq::empty()
    } else {
        let p = listed_positions(accounts.drop_last(), page);
        if listed_on(accounts.last().account_type, page) {
            p.push(accounts.len() - 1)
        } else {
            p
        }
    }
}

/// The accounts an integrations page lists.
pub fn integration_accounts(accounts: &[AccountConfig], page: Integration) -> (r: Vec<usize>)
    ensures
        r@.map_values(|i: usize| i as int) == listed_positions(accounts@, page),
{
    let mut r: Vec<usize> = Vec::new();
    let mut i: usize = 0;
    while i < accounts.len()
        invariant
            i <= accounts@.len(),
            r@.map_values(|k: usize| k as int) == listed_positions(accounts@.take(i as int), page),
        decreases accounts@.len() - i,
    {
        assert(accounts@.take(i + 1).drop_last() =~= accounts@.take(i as int));
        let t = accounts[i].account_type;
        let listed = match page {
            Integration::Email => t == AccountType::Imap || t == AccountType::Pop3,
            Integration::Telegram => t == AccountType::Telegram,
            Integration::Webhook => t == AccountType::Webhook,
        };
        if listed {
            r.push(i);
        }
        assert(r@.map_values(|k: usize| k as int) =~= listed_positions(accounts@.take(i + 1), page));
        i = i + 1;
    }
    assert(accounts@.take(i as int) =~= accounts@);
    r
}

} // verus!
