//! Which incoming messages may submit commands.
use vstd::prelude::*;

use crate::config::{FilterConfig, HeaderCheck};
use crate::message::Message;
use crate::smtp::{bare_address, extract_email_address};
use crate::text::{
    chars_of, contains, has_char, lowercase, str_contains, str_eq, to_lower,
};

verus! {

/// The account part of a source name `"type:name"`: everything after the
/// first `':'`, or the empty string when there is no `':'`.
pub open spec fn account_of_source(source: Seq<char>) -> Seq<char> {
    if exists|i: int| 0 <= i < source.len() && source[i] == ':' {
        let i = choose|i: int|
            0 <= i < source.len() && source[i] == ':' && forall|j: int|
                0 <= j < i ==> source[j] != ':';
        source.subrange(i + 1, source.len() as int)
    } else {
        Seq::empty()
    }
}

/// The sender is one of the listed addresses: its bare address, lower-cased,
/// equals one of them lower-cased.
pub open spec fn sender_listed(from: Seq<char>, addrs: Seq<String>) -> bool {
    exists|i: int|
        0 <= i < addrs.len() && lowercase(bare_address(from)) == lowercase(#[trigger] addrs[i]@)
}

/// Some needle, lower-cased, occurs in the lower-cased `hay`.
pub open spec fn any_contains(hay: Seq<char>, needles: Seq<String>) -> bool {
    exists|i: int| 0 <= i < needles.len() && contains(lowercase(hay), lowercase(needles[i]@))
}

/// The header value a check compares with; a missing header reads as "".
pub open spec fn header_text(m: Map<Seq<char>, Seq<char>>, name: Seq<char>) -> Seq<char> {
    if m.contains_key(name) {
        m[name]
    } else {
        Seq::empty()
    }
}

pub open spec fn headers_pass(m: Map<Seq<char>, Seq<char>>, checks: Seq<HeaderCheck>) -> bool {
    forall|i: int|
        0 <= i < checks.len() ==> header_text(m, lowercase(#[trigger] checks[i].name@))
            == checks[i].value@
}

/// One filter accepts the message: every condition the filter sets holds.
/// `gpg_verified` is whether the message carries a valid signature; a
/// message without a raw body never passes a filter that requires one.
pub open spec fn filter_accepts(msg: Message, f: FilterConfig, gpg_verified: bool) -> bool {
    &&& (f.account matches Some(a) ==> account_of_source(msg.source@) == a@)
    &&& (f.from_address matches Some(v) ==> sender_listed(msg.from@, v@))
    &&& (f.subject_contains matches Some(v) ==> any_contains(msg.subject@, v@))
    &&& (f.body_contains matches Some(v) ==> any_contains(msg.body@, v@))
    &&& (f.header_checks matches Some(v) ==> headers_pass(msg.headers@, v@))
    &&& (f.gpg_required ==> msg.raw_body@.len() > 0 && gpg_verified)
}

/// A header check matches case-insensitively on the header's name and
/// exactly on its value: a filter whose only condition is the check
/// `name: value` accepts a message exactly when the message's headers map
/// the lower-cased `name` to `value`, in whatever case `name` was written
/// (a missing header reads as the empty value).  A message whose headers
/// map the lower-cased `name` to `value` is therefore allowed by a filter
/// list made of that filter alone.
pub proof fn lemma_header_check_name_case(msg: Message, f: FilterConfig, gpg_verified: bool)
    requires
        f.account is None,
        f.from_address is None,
        f.subject_contains is None,
        f.body_contains is None,
        !f.gpg_required,
        f.header_checks is Some,
        f.header_checks->0@.len() == 1,
    ensures
        filter_accepts(msg, f, gpg_verified) == if msg.headers@.contains_key(
            lowercase(f.header_checks->0@[0].name@),
        ) {
            msg.headers@[lowercase(f.header_checks->0@[0].name@)] == f.header_checks->0@[0].value@
        } else {
            f.header_checks->0@[0].value@.len() == 0
        },
        msg.headers@.contains_key(lowercase(f.header_checks->0@[0].name@)) && msg.headers@[lowercase(
            f.header_checks->0@[0].name@,
        )] == f.header_checks->0@[0].value@ ==> exists|i: int|
            0 <= i < seq![f].len() && filter_accepts(msg, #[trigger] seq![f][i], gpg_verified),
{
    let checks = f.header_checks->0@;
    let m = msg.headers@;
    let want = if m.contains_key(lowercase(checks[0].name@)) {
        m[lowercase(checks[0].name@)] == checks[0].value@
    } else {
        checks[0].value@.len() == 0
    };
    if want {
        assert forall|i: int| 0 <= i < checks.len() implies header_text(
            m,
            lowercase(#[trigger] checks[i].name@),
        ) == checks[i].value@ by {
            assert(i == 0);
        }
        assert(headers_pass(m, checks));
    } else {
        assert(header_text(m, lowercase(checks[0].name@)) != checks[0].value@);
        assert(!headers_pass(m, checks));
    }
    assert(seq![f][0] == f);
}

/// Two filters that differ only in the case of their header checks' names
/// (the names lower-case alike, the values are equal) give every message the
/// same verdict.
pub proof fn lemma_header_names_case_insensitive(
    msg: Message,
    f: FilterConfig,
    g: FilterConfig,
    gpg_verified: bool,
)
    requires
        f.account == g.account,
        f.from_address == g.from_address,
        f.subject_contains == g.subject_contains,
        f.body_contains == g.body_contains,
        f.gpg_required == g.gpg_required,
        f.header_checks is Some,
        g.header_checks is Some,
        f.header_checks->0@.len() == g.header_checks->0@.len(),
        forall|i: int|
            0 <= i < f.header_checks->0@.len() ==> lowercase(
                #[trigger] f.header_checks->0@[i].name@,
            ) == lowercase(g.header_checks->0@[i].name@) && f.header_checks->0@[i].value@
                == g.header_checks->0@[i].value@,
    ensures
        filter_accepts(msg, f, gpg_verified) == filter_accepts(msg, g, gpg_verified),
{
    let a = f.header_checks->0@;
    let b = g.header_checks->0@;
    if headers_pass(msg.headers@, a) {
        assert forall|i: int| 0 <= i < b.len() implies header_text(
            msg.headers@,
            lowercase(#[trigger] b[i].name@),
        ) == b[i].value@ by {
            assert(lowercase(a[i].name@) == lowercase(b[i].name@));
            assert(header_text(msg.headers@, lowercase(a[i].name@)) == a[i].value@);
        }
    }
    if headers_pass(msg.headers@, b) {
        assert forall|i: int| 0 <= i < a.len() implies header_text(
            msg.headers@,
            lowercase(#[trigger] a[i].name@),
        ) == a[i].value@ by {
            assert(lowercase(a[i].name@) == lowercase(b[i].name@));
            assert(header_text(msg.headers@, lowercase(b[i].name@)) == b[i].value@);
        }
    }
}

/// The filter that sets no condition but those of `f` named by the flags.
pub open spec fn only_conditions(
    f: FilterConfig,
    account: bool,
    from: bool,
    subject: bool,
    body: bool,
    headers: bool,
    gpg: bool,
) -> FilterConfig {
    FilterConfig {
        account: if account { f.account } else { None },
        from_address: if from { f.from_address } else { None },
        subject_contains: if subject { f.subject_contains } else { None },
        body_contains: if body { f.body_contains } else { None },
        header_checks: if headers { f.header_checks } else { None },
        gpg_required: gpg && f.gpg_required,
    }
}

/// A filter with no condition at all accepts every message.
pub proof fn lemma_empty_filter_accepts_all(msg: Message, gpg_verified: bool, f: FilterConfig)
    ensures
        filter_accepts(msg, only_conditions(f, false, false, false, false, false, false), gpg_verified),
{
}

/// The conditions of one filter combine by AND: a filter accepts a message
/// exactly when each of its conditions, set alone, accepts it.
pub proof fn lemma_filter_conditions_and(msg: Message, f: FilterConfig, gpg_verified: bool)
    ensures
        filter_accepts(msg, f, gpg_verified) == {
            &&& filter_accepts(msg, only_conditions(f, true, false, false, false, false, false), gpg_verified)
            &&& filter_accepts(msg, only_conditions(f, false, true, false, false, false, false), gpg_verified)
            &&& filter_accepts(msg, only_conditions(f, false, false, true, false, false, false), gpg_verified)
            &&& filter_accepts(msg, only_conditions(f, false, false, false, true, false, false), gpg_verified)
            &&& filter_accepts(msg, only_conditions(f, false, false, false, false, true, false), gpg_verified)
            &&& filter_accepts(msg, only_conditions(f, false, false, false, false, false, true), gpg_verified)
        },
{
}

/// A subject condition matches case-insensitively: set alone, it accepts a
/// message exactly when one of its strings, lower-cased, occurs in the
/// lower-cased subject.  A body condition does the same on the body.
pub proof fn lemma_contains_conditions(msg: Message, f: FilterConfig, gpg_verified: bool)
    requires
        f.subject_contains is Some,
        f.body_contains is Some,
    ensures
        filter_accepts(msg, only_conditions(f, false, false, true, false, false, false), gpg_verified)
            == exists|i: int|
            0 <= i < f.subject_contains->0@.len() && contains(
                lowercase(msg.subject@),
                lowercase(#[trigger] f.subject_contains->0@[i]@),
            ),
        filter_accepts(msg, only_conditions(f, false, false, false, true, false, false), gpg_verified)
            == exists|i: int|
            0 <= i < f.body_contains->0@.len() && contains(
                lowercase(msg.body@),
                lowercase(#[trigger] f.body_contains->0@[i]@),
            ),
{
}

/// A sender condition compares addresses case-insensitively: set alone, it
/// accepts a message exactly when the sender's bare address, lower-cased,
/// equals one of the listed addresses lower-cased.
pub proof fn lemma_sender_condition(msg: Message, f: FilterConfig, gpg_verified: bool)
    requires
        f.from_address is Some,
    ensures
        filter_accepts(msg, only_conditions(f, false, true, false, false, false, false), gpg_verified)
            == exists|i: int|
            0 <= i < f.from_address->0@.len() && lowercase(bare_address(msg.from@)) == lowercase(
                #[trigger] f.from_address->0@[i]@,
            ),
{
}

/// An account condition names the account part of the source: set alone,
/// it accepts a message from the source `"<type>:<name>"` exactly when
/// `name` is the account named.
pub proof fn lemma_account_condition(
    msg: Message,
    f: FilterConfig,
    gpg_verified: bool,
    kind: Seq<char>,
    name: Seq<char>,
)
    requires
        f.account is Some,
        !has_char(kind, ':'),
        msg.source@ == kind + seq![':'] + name,
    ensures
        filter_accepts(msg, only_conditions(f, true, false, false, false, false, false), gpg_verified)
            == (name == f.account->0@),
{
    let src = msg.source@;
    let k = kind.len() as int;
    assert(src[k] == ':');
    assert forall|j: int| 0 <= j < k implies src[j] != ':' by {
        assert(src[j] == kind[j]);
        if src[j] == ':' {
            assert(has_char(kind, ':'));
        }
    }
    let i = choose|i: int|
        0 <= i < src.len() && src[i] == ':' && forall|j: int| 0 <= j < i ==> src[j] != ':';
    assert(0 <= k < src.len() && src[k] == ':');
    if i < k {
        assert(src[i] != ':');
    }
    if i > k {
        assert(src[k] != ':');
    }
    assert(src.subrange(k + 1, src.len() as int) =~= name);
}

/// A signature condition, set alone, accepts a message exactly when the
/// message has a raw body and its signature was verified.
pub proof fn lemma_signature_condition(msg: Message, f: FilterConfig, gpg_verified: bool)
    requires
        f.gpg_required,
    ensures
        filter_accepts(msg, only_conditions(f, false, false, false, false, false, true), gpg_verified)
            == (msg.raw_body@.len() > 0 && gpg_verified),
{
}

/// Whether a signature check of the message can succeed at all: a message
/// without a raw body carries no signature, so no check is run for it.
pub fn signature_checkable(msg: &Message) -> (r: bool)
    ensures
        r == (msg.raw_body@.len() > 0),
{
    msg.raw_body.len() > 0
}

/// Returns `true` when `msg` is allowed to submit commands.
///
/// If `filters` is empty every message is accepted.
/// Otherwise at least one filter must match (OR logic).
/// Within a single filter all present fields must match (AND logic).
/// `gpg_verified` is the outcome of checking the signature in
/// `msg.raw_body`; it only matters for filters that require one.
pub fn is_allowed(msg: &Message, filters: &[FilterConfig], gpg_verified: bool) -> (r: bool)
    ensures
        r == (filters@.len() == 0 || exists|i: int|
            0 <= i < filters@.len() && filter_accepts(*msg, #[trigger] filters@[i], gpg_verified)),
{
    if filters.len() == 0 {
        return true;
    }
    let n = filters.len();
    let mut i: usize = 0;
    while i < n
        invariant
            i <= n,
            n == filters@.len(),
            forall|j: int| 0 <= j < i ==> !filter_accepts(*msg, #[trigger] filters@[j], gpg_verified),
        decreases n - i,
    {
        if filter_matches(msg, &filters[i], gpg_verified) {
            return true;
        }
        i = i + 1;
    }
    false
}

fn account_name(source: &str) -> (r: Vec<char>)
    ensures
        r@ == account_of_source(source@),
{
    let v = chars_of(source);
    let n = v.len();
    let mut i: usize = 0;
    while i < n
        invariant
            i <= n,
            n == v@.len(),
            v@ == source@,
            forall|j: int| 0 <= j < i ==> v@[j] != ':',
        decreases n - i,
    {
        if v[i] == ':' {
            let mut out: Vec<char> = Vec::new();
            let mut k: usize = i + 1;
            while k < n
                invariant
                    i < k <= n,
                    n == v@.len(),
                    out@ == v@.subrange(i + 1, k as int),
                decreases n - k,
            {
                out.push(v[k]);
                assert(v@.subrange(i + 1, k + 1) =~= v@.subrange(i + 1, k as int).push(
                    v@[k as int],
                ));
                k = k + 1;
            }
            proof {
                let w = choose|w: int|
                    0 <= w < source@.len() && source@[w] == ':' && forall|j: int|
                        0 <= j < w ==> source@[j] != ':';
                assert(0 <= i < source@.len() && source@[i as int] == ':' && forall|j: int|
                    0 <= j < i ==> source@[j] != ':');
                if w < i {
                    assert(source@[w] != ':');
                }
                if w > i {
                    assert(source@[i as int] != ':');
                }
            }
            return out;
        }
        i = i + 1;
    }
    Vec::new()
}

fn any_needle_in(hay: &str, needles: &Vec<String>) -> (r: bool)
    ensures
        r == any_contains(hay@, needles@),
{
    let lower = to_lower(hay);
    let n = needles.len();
    let mut i: usize = 0;
    while i < n
        invariant
            i <= n,
            n == needles@.len(),
            lower@ == lowercase(hay@),
            forall|j: int| 0 <= j < i ==> !contains(lowercase(hay@), lowercase(#[trigger] needles@[j]@)),
        decreases n - i,
    {
        let needle = to_lower(needles[i].as_str());
        if str_contains(lower.as_str(), needle.as_str()) {
            return true;
        }
        i = i + 1;
    }
    false
}

fn sender_in(from: &str, addrs: &Vec<String>) -> (r: bool)
    ensures
        r == sender_listed(from@, addrs@),
{
    let bare = to_lower(extract_email_address(from).as_str());
    let n = addrs.len();
    let mut i: usize = 0;
    while i < n
        invariant
            i <= n,
            n == addrs@.len(),
            bare@ == lowercase(bare_address(from@)),
            forall|j: int|
                0 <= j < i ==> lowercase(bare_address(from@)) != lowercase(#[trigger] addrs@[j]@),
        decreases n - i,
    {
        let a = to_lower(addrs[i].as_str());
        if str_eq(bare.as_str(), a.as_str()) {
            return true;
        }
        i = i + 1;
    }
    false
}

fn headers_match(msg: &Message, checks: &Vec<HeaderCheck>) -> (r: bool)
    ensures
        r == headers_pass(msg.headers@, checks@),
{
    let n = checks.len();
    let mut i: usize = 0;
    while i < n
        invariant
            i <= n,
            n == checks@.len(),
            forall|j: int|
                0 <= j < i ==> header_text(msg.headers@, lowercase(#[trigger] checks@[j].name@))
                    == checks@[j].value@,
        decreases n - i,
    {
        let check = &checks[i];
        let key = to_lower(check.name.as_str());
        let same = match msg.headers.get(key.as_str()) {
            Some(actual) => *actual == check.value,
            None => {
                let empty = String::new();
                empty == check.value
            },
        };
        if !same {
            return false;
        }
        i = i + 1;
    }
    true
}

fn filter_matches(msg: &Message, f: &FilterConfig, gpg_verified: bool) -> (r: bool)
    ensures
        r == filter_accepts(*msg, *f, gpg_verified),
{
    // Account restriction: msg.source is "type:name", e.g. "imap:main".
    if let Some(acct) = &f.account {
        let name = account_name(msg.source.as_str());
        let want = chars_of(acct.as_str());
        if name.len() != want.len() {
            return false;
        }
        let mut i: usize = 0;
        while i < name.len()
            invariant
                i <= name@.len(),
                name@.len() == want@.len(),
                name@ == account_of_source(msg.source@),
                want@ == f.account->0@,
                f.account is Some,
                forall|j: int| 0 <= j < i ==> name@[j] == want@[j],
            decreases name@.len() - i,
        {
            if name[i] != want[i] {
                assert(name@[i as int] != want@[i as int]);
                assert(name@ != want@);
                assert(account_of_source(msg.source@) != f.account->0@);
                return false;
            }
            i = i + 1;
        }
        assert(name@ =~= want@);
    }
    if let Some(addrs) = &f.from_address {
        if !sender_in(msg.from.as_str(), addrs) {
            return false;
        }
    }
    if let Some(needles) = &f.subject_contains {
        if !any_needle_in(msg.subject.as_str(), needles) {
            return false;
        }
    }
    if let Some(needles) = &f.body_contains {
        if !any_needle_in(msg.body.as_str(), needles) {
            return false;
        }
    }
    if let Some(checks) = &f.header_checks {
        if !headers_match(msg, checks) {
            return false;
        }
    }
    if f.gpg_required && !(signature_checkable(msg) && gpg_verified) {
        return false;
    }
    true
}

} // verus!
