//! Reply e-mail: the recipient's address and the sending settings.  The
//! message itself is built and sent over SMTP by the caller.
use vstd::prelude::*;

use crate::config::AccountConfig;
use crate::text::{chars_of, copy_string, trim, trim_str};

verus! {

/// Index of the last `'<'`, if any.
pub open spec fn last_open(a: Seq<char>) -> Option<int> {
    if exists|i: int| 0 <= i < a.len() && a[i] == '<' {
        Some(
            choose|i: int|
                0 <= i < a.len() && a[i] == '<' && forall|j: int| i < j < a.len() ==> a[j] != '<',
        )
    } else {
        None
    }
}

/// Index of the first `'>'` at or after `s`, if any.
pub open spec fn close_after(a: Seq<char>, s: int) -> Option<int> {
    if exists|i: int| s <= i < a.len() && a[i] == '>' {
        Some(
            choose|i: int|
                s <= i < a.len() && a[i] == '>' && forall|j: int| s <= j < i ==> a[j] != '>',
        )
    } else {
        None
    }
}

/// The bare address of a header value such as `"Alice <alice@example.com>"`
/// (the trimmed text between the last `<` and the next `>`) or
/// `"alice@example.com"` (the trimmed value).
pub open spec fn bare_address(a: Seq<char>) -> Seq<char> {
    match last_open(a) {
        Some(s) => match close_after(a, s) {
            Some(e) => trim(a.subrange(s + 1, e)),
            None => trim(a),
        },
        None => trim(a),
    }
}

/// The address in angle brackets is the one after the last `<`: for a
/// display name `name` (which may hold `<` itself), an address `addr`
/// without brackets, and any text after the `>` that holds no `<`, the bare
/// address of `name<addr>tail` is `addr` trimmed.
pub proof fn lemma_bare_address_bracketed(
    name: Seq<char>,
    addr: Seq<char>,
    tail: Seq<char>,
)
    requires
        forall|i: int| 0 <= i < addr.len() ==> addr[i] != '<' && addr[i] != '>',
        forall|i: int| 0 <= i < tail.len() ==> tail[i] != '<',
    ensures
        bare_address(name + seq!['<'] + addr + seq!['>'] + tail) == trim(addr),
{
    let a = name + seq!['<'] + addr + seq!['>'] + tail;
    let k = name.len() as int;
    let e = k + 1 + addr.len();
    assert(a[k] == '<');
    assert(a[e] == '>');
    assert forall|j: int| k < j < a.len() implies a[j] != '<' by {
        if j < e {
            assert(a[j] == addr[j - k - 1]);
        } else if j > e {
            assert(a[j] == tail[j - e - 1]);
        }
    }
    let w = choose|w: int|
        0 <= w < a.len() && a[w] == '<' && forall|j: int| w < j < a.len() ==> a[j] != '<';
    assert(0 <= k < a.len() && a[k] == '<');
    if w < k {
        assert(a[k] != '<');
    }
    assert(last_open(a) == Some(k));
    assert forall|j: int| k <= j < e implies a[j] != '>' by {
        if j > k {
            assert(a[j] == addr[j - k - 1]);
        }
    }
    let c = choose|c: int| k <= c < a.len() && a[c] == '>' && forall|j: int| k <= j < c ==> a[j] != '>';
    assert(k <= e < a.len() && a[e] == '>');
    if c > e {
        assert(a[e] != '>');
    }
    assert(close_after(a, k) == Some(e));
    assert(a.subrange(k + 1, e) =~= addr);
}

/// A value without `<` is an address already: its bare address is the
/// value trimmed.
pub proof fn lemma_bare_address_plain(a: Seq<char>)
    requires
        forall|i: int| 0 <= i < a.len() ==> a[i] != '<',
    ensures
        bare_address(a) == trim(a),
{
}

/// Extract the bare email address from a header value such as
/// `"Alice <alice@example.com>"` or `"alice@example.com"`.
pub fn extract_email_address(addr: &str) -> (r: String)
    ensures
        r@ == bare_address(addr@),
{
    let v = chars_of(addr);
    let n = v.len();
    let mut k: usize = n;
    while k > 0 && v[k - 1] != '<'
        invariant
            k <= n,
            n == v@.len(),
            v@ == addr@,
            forall|j: int| k <= j < n ==> v@[j] != '<',
        decreases k,
    {
        k = k - 1;
    }
    if k == 0 {
        proof {
            if exists|i: int| 0 <= i < addr@.len() && addr@[i] == '<' {
                let i = choose|i: int| 0 <= i < addr@.len() && addr@[i] == '<';
                assert(v@[i] != '<');
            }
        }
        return trim_str(addr).to_owned();
    }
    let start = k - 1;
    proof {
        let w = choose|w: int|
            0 <= w < addr@.len() && addr@[w] == '<' && forall|j: int|
                w < j < addr@.len() ==> addr@[j] != '<';
        assert(0 <= start < addr@.len() && addr@[start as int] == '<');
        if w < start {
            assert(addr@[start as int] != '<');
        }
        if w > start {
            assert(addr@[w] != '<');
        }
        assert(last_open(addr@) == Some(start as int));
    }
    let mut e: usize = start;
    while e < n && v[e] != '>'
        invariant
            start <= e <= n,
            n == v@.len(),
            v@ == addr@,
            forall|j: int| start <= j < e ==> v@[j] != '>',
        decreases n - e,
    {
        e = e + 1;
    }
    if e == n {
        proof {
            if exists|i: int| start <= i < addr@.len() && addr@[i] == '>' {
                let i = choose|i: int| start <= i < addr@.len() && addr@[i] == '>';
                assert(v@[i] != '>');
            }
        }
        return trim_str(addr).to_owned();
    }
    proof {
        let s = start as int;
        let w = choose|w: int|
            s <= w < addr@.len() && addr@[w] == '>' && forall|j: int| s <= j < w ==> addr@[j] != '>';
        assert(s <= e < addr@.len() && addr@[e as int] == '>');
        if w < e {
            assert(addr@[w] != '>');
        }
        if w > e {
            assert(addr@[e as int] != '>');
        }
        assert(addr@[s] == '<');
    }
    // `e > start` since the character at `start` is '<'.
    let inner = addr.substring_char(start + 1, e);
    trim_str(inner).to_owned()
}

/// Why a reply cannot be sent.
#[derive(Debug, Clone, Copy, PartialEq, Eq, Structural)]
pub enum ReplyError {
    /// The account has no `smtp_host`.
    NoSmtpHost,
    /// The account has neither `reply_from` nor `username`.
    NoSender,
}

impl ReplyError {
    pub fn message(&self) -> (r: &'static str)
        ensures
            r@ == match *self {
                ReplyError::NoSmtpHost => "SMTP host not configured"@,
                ReplyError::NoSender => "No sender address: set reply_from or username in the account config"@,
            },
    {
        match self {
            ReplyError::NoSmtpHost => "SMTP host not configured",
            ReplyError::NoSender => "No sender address: set reply_from or username in the account config",
        }
    }
}

/// Everything needed to send one reply.
pub struct ReplySettings {
    pub host: String,
    pub port: u16,
    /// Implicit TLS (`true`) or STARTTLS (`false`).
    pub tls: bool,
    pub credentials: Option<(String, String)>,
    pub from: String,
    pub to: String,
}

/// The settings for a reply to `to` from `account`:
/// the SMTP host; the port (465 with TLS, 587 with STARTTLS, unless set);
/// `reply_from`, else `username`, as sender; the bare address of `to`;
/// credentials when both SMTP username and password are set.
pub fn reply_settings(account: &AccountConfig, to: &str) -> (r: Result<ReplySettings, ReplyError>)
    ensures
        match r {
            Ok(s) => {
                &&& account.smtp_host matches Some(h) && s.host@ == h@
                &&& s.port == (match account.smtp_port {
                    Some(p) => p,
                    None => if account.smtp_tls {
                        465u16
                    } else {
                        587u16
                    },
                })
                &&& s.tls == account.smtp_tls
                &&& (match account.reply_from {
                    Some(f) => s.from@ == f@,
                    None => account.username matches Some(u) && s.from@ == u@,
                })
                &&& s.to@ == bare_address(to@)
                &&& (match (account.smtp_username, account.smtp_password) {
                    (Some(u), Some(p)) => s.credentials matches Some(c) && c.0@ == u@ && c.1@
                        == p@,
                    _ => s.credentials is None,
                })
            },
            Err(ReplyError::NoSmtpHost) => account.smtp_host is None,
            Err(ReplyError::NoSender) => account.smtp_host is Some && account.reply_from is None
                && account.username is None,
        },
{
    let host = match &account.smtp_host {
        Some(h) => copy_string(h),
        None => return Err(ReplyError::NoSmtpHost),
    };
    let port: u16 = match account.smtp_port {
        Some(p) => p,
        None => if account.smtp_tls {
            465
        } else {
            587
        },
    };
    let from = match &account.reply_from {
        Some(f) => copy_string(f),
        None => match &account.username {
            Some(u) => copy_string(u),
            None => return Err(ReplyError::NoSender),
        },
    };
    let credentials = match (&account.smtp_username, &account.smtp_password) {
        (Some(u), Some(p)) => Some((copy_string(u), copy_string(p))),
        _ => None,
    };
    let to = extract_email_address(to);
    Ok(ReplySettings { host, port, tls: account.smtp_tls, credentials, from, to })
}

} // verus!
