//! Configuration data: the HTTP server, the task directories, the input
//! accounts and the message filters.  Reading and writing `troop.toml` is
//! done outside the library; these are the plain values it holds.
use vstd::prelude::*;

use crate::text::{copy_string, pieces, split_at_char, str_eq, string_views};

verus! {

// ── Server ────────────────────────────────────────────────────────────────────

#[derive(Debug, Clone)]
pub struct ServerConfig {
    /// Address:port to bind the HTTP interface.
    pub bind: String,
    /// Optional admin password.  When set every admin page requires it.
    pub admin_password: Option<String>,
}

impl Default for ServerConfig {
    fn default() -> (r: ServerConfig)
        ensures
            r.bind@ == "0.0.0.0:8080"@,
            r.admin_password is None,
    {
        ServerConfig { bind: "0.0.0.0:8080".to_owned(), admin_password: None }
    }
}

// ── Storage ───────────────────────────────────────────────────────────────────

#[derive(Debug, Clone)]
pub struct StorageConfig {
    pub todo_dir: String,
    pub done_dir: String,
}

impl Default for StorageConfig {
    fn default() -> (r: StorageConfig)
        ensures
            r.todo_dir@ == "todo"@,
            r.done_dir@ == "done"@,
    {
        StorageConfig { todo_dir: "todo".to_owned(), done_dir: "done".to_owned() }
    }
}

// ── Accounts ──────────────────────────────────────────────────────────────────

#[derive(Debug, Clone, Copy, PartialEq, Eq, Structural)]
pub enum AccountType {
    Imap,
    Pop3,
    Telegram,
    Webhook,
}

pub open spec fn account_type_text(t: AccountType) -> Seq<char> {
    match t {
        AccountType::Imap => "imap"@,
        AccountType::Pop3 => "pop3"@,
        AccountType::Telegram => "telegram"@,
        AccountType::Webhook => "webhook"@,
    }
}

impl AccountType {
    /// The lower-case name used in the config file and the UI.
    pub fn as_str(&self) -> (r: &'static str)
        ensures
            r@ == account_type_text(*self),
    {
        match self {
            AccountType::Imap => "imap",
            AccountType::Pop3 => "pop3",
            AccountType::Telegram => "telegram",
            AccountType::Webhook => "webhook",
        }
    }
}

#[derive(Debug, Clone)]
pub struct AccountConfig {
    /// Unique name used to reference this account in filters and logs.
    pub name: String,
    pub account_type: AccountType,
    // IMAP / POP3
    pub host: Option<String>,
    pub port: Option<u16>,
    pub username: Option<String>,
    pub password: Option<String>,
    pub tls: bool,
    // Telegram
    pub token: Option<String>,
    // Webhook: the secret path segment; the account name when unset.
    pub webhook_secret: Option<String>,
    pub enabled: bool,
    pub poll_interval_secs: u64,
    // SMTP (for sending email replies)
    pub smtp_host: Option<String>,
    pub smtp_port: Option<u16>,
    pub smtp_username: Option<String>,
    pub smtp_password: Option<String>,
    pub smtp_tls: bool,
    /// The From address used in outgoing reply emails.
    /// Defaults to `username` when not set.
    pub reply_from: Option<String>,
}

/// Value of a boolean account switch that is on unless the file says otherwise.
pub fn default_true() -> (r: bool)
    ensures
        r,
{
    true
}

/// Polling interval, in seconds, when the file gives none.
pub fn default_poll() -> (r: u64)
    ensures
        r == 60,
{
    60
}

// ── Filters ───────────────────────────────────────────────────────────────────

/// A single header check: the named header must exactly equal `value`.
#[derive(Debug, Clone)]
pub struct HeaderCheck {
    pub name: String,
    pub value: String,
}

/// One filter rule.  All present fields must match (AND).
/// A message is accepted if it satisfies ANY configured filter (OR across
/// the list).  An empty filter list accepts everything.
#[derive(Debug, Clone)]
pub struct FilterConfig {
    /// Restrict this filter to a specific account name (optional).
    pub account: Option<String>,
    /// Sender e-mail address must be in this list.
    pub from_address: Option<Vec<String>>,
    /// Subject must contain at least one of these strings.
    pub subject_contains: Option<Vec<String>>,
    /// Body must contain at least one of these strings.
    pub body_contains: Option<Vec<String>>,
    /// Named headers must match these key/value pairs.
    pub header_checks: Option<Vec<HeaderCheck>>,
    /// If true the message body must carry a valid GPG signature.
    pub gpg_required: bool,
}

impl Default for FilterConfig {
    fn default() -> (r: FilterConfig)
        ensures
            r.account is None,
            r.from_address is None,
            r.subject_contains is None,
            r.body_contains is None,
            r.header_checks is None,
            !r.gpg_required,
    {
        FilterConfig {
            account: None,
            from_address: None,
            subject_contains: None,
            body_contains: None,
            header_checks: None,
            gpg_required: false,
        }
    }
}

// ── Top-level Config ──────────────────────────────────────────────────────────

#[derive(Debug, Clone)]
pub struct Config {
    pub server: ServerConfig,
    pub storage: StorageConfig,
    pub accounts: Vec<AccountConfig>,
    pub filters: Vec<FilterConfig>,
}

impl Default for Config {
    fn default() -> (r: Config)
        ensures
            r.server.bind@ == "0.0.0.0:8080"@,
            r.server.admin_password is None,
            r.storage.todo_dir@ == "todo"@,
            r.storage.done_dir@ == "done"@,
            r.accounts@.len() == 0,
            r.filters@.len() == 0,
    {
        Config {
            server: ServerConfig::default(),
            storage: StorageConfig::default(),
            accounts: Vec::new(),
            filters: Vec::new(),
        }
    }
}

// ── Where the configuration may be written ───────────────────────────────────

/// The non-empty `/`-separated components of a path, in order.
pub open spec fn path_parts(ps: Seq<Seq<char>>) -> Seq<Seq<char>>
    decreases ps.len(),
{
    if ps.len() == 0 {
        Seq::empty()
    } else if ps.last().len() == 0 {
        path_parts(ps.drop_last())
    } else {
        path_parts(ps.drop_last()).push(ps.last())
    }
}

pub open spec fn components(p: Seq<char>) -> Seq<Seq<char>> {
    path_parts(pieces(p, '/'))
}

pub open spec fn rooted(p: Seq<char>) -> bool {
    p.len() > 0 && p[0] == '/'
}

/// `dir` lies in `root`, comparing whole components as `Path::starts_with`
/// does on canonical paths: both absolute or both relative, and the
/// components of `root` begin those of `dir`.
pub open spec fn lies_within(dir: Seq<char>, root: Seq<char>) -> bool {
    &&& rooted(dir) == rooted(root)
    &&& components(root).len() <= components(dir).len()
    &&& components(dir).take(components(root).len() as int) == components(root)
}

fn path_components(p: &str) -> (r: Vec<String>)
    ensures
        string_views(r@) == components(p@),
{
    let parts = split_at_char(p, '/');
    let mut out: Vec<String> = Vec::new();
    let mut i: usize = 0;
    while i < parts.len()
        invariant
            i <= parts@.len(),
            string_views(parts@) == pieces(p@, '/'),
            string_views(out@) == path_parts(pieces(p@, '/').take(i as int)),
        decreases parts@.len() - i,
    {
        let ghost ps = pieces(p@, '/');
        assert(ps.take(i + 1).drop_last() =~= ps.take(i as int));
        assert(ps.take(i + 1).last() == parts@[i as int]@);
        if parts[i].as_str().unicode_len() > 0 {
            let c = copy_string(&parts[i]);
            let ghost before = out@;
            out.push(c);
            assert(string_views(out@) =~= string_views(before).push(c@));
        }
        i = i + 1;
    }
    assert(pieces(p@, '/').take(i as int) =~= pieces(p@, '/'));
    out
}

/// Whether the canonical path `dir` lies in the canonical path `root`; the
/// configuration file is only written into the working directory or below.
pub fn path_within(dir: &str, root: &str) -> (r: bool)
    ensures
        r == lies_within(dir@, root@),
{
    let dir_rooted = dir.unicode_len() > 0 && dir.get_char(0) == '/';
    let root_rooted = root.unicode_len() > 0 && root.get_char(0) == '/';
    if dir_rooted != root_rooted {
        return false;
    }
    let d = path_components(dir);
    let c = path_components(root);
    if c.len() > d.len() {
        return false;
    }
    let mut i: usize = 0;
    while i < c.len()
        invariant
            i <= c@.len() <= d@.len(),
            string_views(d@) == components(dir@),
            string_views(c@) == components(root@),
            forall|j: int| 0 <= j < i ==> components(dir@)[j] == components(root@)[j],
        decreases c@.len() - i,
    {
        if !str_eq(d[i].as_str(), c[i].as_str()) {
            assert(components(dir@).take(c@.len() as int)[i as int] != components(root@)[i as int]);
            return false;
        }
        i = i + 1;
    }
    assert(components(dir@).take(c@.len() as int) =~= components(root@));
    true
}

} // verus!
