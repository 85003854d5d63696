//! Reading IMAP messages: what the library does with the raw RFC 822 text
//! and the message ids.  The IMAP session itself is driven by the caller.
use vstd::prelude::*;

use crate::message::{HeaderMap, Message};
use crate::text::{copy_string, decimal, lowercase, str_eq, to_lower, u64_to_decimal};

verus! {

/// One MIME part, in the depth-first order of `ParsedMail::parts()`.
pub struct MailNode {
    /// `ctype.mimetype`.
    pub mimetype: String,
    /// `get_body()`, or `None` when the body could not be decoded.
    pub body: Option<String>,
    /// Number of direct subparts.
    pub subparts: usize,
}

/// A parsed RFC 822 message: the top-level headers (`get_key`, `get_value`)
/// in order, and every MIME part in depth-first order.
pub struct RawMail {
    pub headers: Vec<(String, String)>,
    pub parts: Vec<MailNode>,
}

pub struct MailNodeView {
    pub mimetype: Seq<char>,
    pub body: Option<Seq<char>>,
    pub subparts: nat,
}

pub struct RawMailView {
    pub headers: Seq<(Seq<char>, Seq<char>)>,
    pub parts: Seq<MailNodeView>,
}

impl View for MailNode {
    type V = MailNodeView;

    open spec fn view(&self) -> MailNodeView {
        MailNodeView {
            mimetype: self.mimetype@,
            body: match self.body {
                Some(b) => Some(b@),
                None => None,
            },
            subparts: self.subparts as nat,
        }
    }
}

impl View for RawMail {
    type V = RawMailView;

    open spec fn view(&self) -> RawMailView {
        RawMailView {
            headers: self.headers@.map_values(|h: (String, String)| (h.0@, h.1@)),
            parts: self.parts@.map_values(|p: MailNode| p@),
        }
    }
}

/// What `mailparse::parse_mail(raw)` yields, read as a `RawMail`; `None` on
/// a parse error.
pub uninterp spec fn mailparse_result(raw: Seq<u8>) -> Option<RawMailView>;

/// `mailparse::parse_mail`, with each header read by `get_key`/`get_value`
/// and each part (from `parts()`, depth first) by its mime type, `get_body`
/// and number of subparts.  The contract names the result; MIME parsing and
/// decoding are not restated.  That mailparse returns rather than panics on
/// every input, however malformed its headers, charsets or transfer
/// encodings, is taken on trust.
#[verifier::external_body]
pub(crate) fn parse_mail(raw: &[u8]) -> (r: Option<RawMail>)
    ensures
        match r {
            Some(m) => mailparse_result(raw@) == Some(m@),
            None => mailparse_result(raw@) is None,
        },
{
    match mailparse::parse_mail(raw) {
        Ok(m) => Some(RawMail {
            headers: m.headers.iter().map(|h| (h.get_key(), h.get_value())).collect(),
            parts: m.parts().map(|p| MailNode {
                mimetype: p.ctype.mimetype.clone(),
                body: p.get_body().ok(),
                subparts: p.subparts.len(),
            }).collect(),
        }),
        Err(_) => None,
    }
}

/// A part that can carry the plain-text body: a leaf whose (lower-cased)
/// mime type is `text/plain` or `text`, with a non-empty decoded body.
pub open spec fn text_leaf(p: MailNodeView) -> bool {
    &&& p.subparts == 0
    &&& (lowercase(p.mimetype) == "text/plain"@ || lowercase(p.mimetype) == "text"@)
    &&& p.body matches Some(b) && b.len() > 0
}

/// The plain-text body: that of the first text leaf in depth-first order,
/// or "" when there is none.  This is what searching the part tree
/// recursively for the first non-empty `text/plain` leaf finds.
pub open spec fn text_body(parts: Seq<MailNodeView>) -> Seq<char> {
    if exists|i: int| 0 <= i < parts.len() && text_leaf(parts[i]) {
        let i = choose|i: int|
            0 <= i < parts.len() && text_leaf(parts[i]) && forall|j: int|
                0 <= j < i ==> !text_leaf(parts[j]);
        parts[i].body->0
    } else {
        Seq::empty()
    }
}

/// The body is that of the first text leaf in depth-first order: when part
/// `i` is a text leaf and no part before it is one, the body is part `i`'s,
/// whatever text leaves (attachments among them) come after it.
pub proof fn lemma_text_body_first_leaf(parts: Seq<MailNodeView>, i: int)
    requires
        0 <= i < parts.len(),
        text_leaf(parts[i]),
        forall|j: int| 0 <= j < i ==> !text_leaf(#[trigger] parts[j]),
    ensures
        text_body(parts) == parts[i].body->0,
{
    let w = choose|w: int|
        0 <= w < parts.len() && text_leaf(parts[w]) && forall|j: int|
            0 <= j < w ==> !text_leaf(parts[j]);
    assert(0 <= i < parts.len() && text_leaf(parts[i]));
    if w < i {
        assert(!text_leaf(parts[w]));
    }
    if w > i {
        assert(!text_leaf(parts[i]));
    }
}

/// Parts that follow a text leaf never change the body: the body of
/// `parts + more` is that of `parts` as soon as `parts` holds a text leaf.
pub proof fn lemma_text_body_ignores_later_parts(
    parts: Seq<MailNodeView>,
    more: Seq<MailNodeView>,
)
    requires
        exists|i: int| 0 <= i < parts.len() && text_leaf(#[trigger] parts[i]),
    ensures
        text_body(parts + more) == text_body(parts),
{
    let k = choose|i: int| 0 <= i < parts.len() && text_leaf(#[trigger] parts[i]);
    let i = first_leaf_at_or_before(parts, k);
    lemma_text_body_first_leaf(parts, i);
    let all = parts + more;
    assert forall|j: int| 0 <= j < i implies !text_leaf(#[trigger] all[j]) by {
        assert(all[j] == parts[j]);
    }
    assert(all[i] == parts[i]);
    lemma_text_body_first_leaf(all, i);
}

/// The first text leaf at or before a text leaf at `k`.
proof fn first_leaf_at_or_before(parts: Seq<MailNodeView>, k: int) -> (i: int)
    requires
        0 <= k < parts.len(),
        text_leaf(parts[k]),
    ensures
        0 <= i <= k,
        text_leaf(parts[i]),
        forall|j: int| 0 <= j < i ==> !text_leaf(#[trigger] parts[j]),
    decreases k,
{
    if exists|j: int| 0 <= j < k && text_leaf(#[trigger] parts[j]) {
        let j = choose|j: int| 0 <= j < k && text_leaf(#[trigger] parts[j]);
        first_leaf_at_or_before(parts, j)
    } else {
        k
    }
}

/// A message without any text leaf has an empty body.
pub proof fn lemma_text_body_none(parts: Seq<MailNodeView>)
    requires
        forall|j: int| 0 <= j < parts.len() ==> !text_leaf(#[trigger] parts[j]),
    ensures
        text_body(parts) == Seq::<char>::empty(),
{
}

fn is_text_leaf(p: &MailNode) -> (r: bool)
    ensures
        r == text_leaf(p@),
{
    if p.subparts != 0 {
        return false;
    }
    let ct = to_lower(p.mimetype.as_str());
    if !(str_eq(ct.as_str(), "text/plain") || str_eq(ct.as_str(), "text")) {
        return false;
    }
    match &p.body {
        Some(b) => b.as_str().unicode_len() > 0,
        None => false,
    }
}

/// The plain-text body of a parsed message.
pub fn extract_text_body(mail: &RawMail) -> (r: String)
    ensures
        r@ == text_body(mail@.parts),
{
    let ghost pv = mail@.parts;
    let n = mail.parts.len();
    let mut i: usize = 0;
    while i < n
        invariant
            i <= n,
            n == mail.parts@.len(),
            pv == mail@.parts,
            forall|j: int| 0 <= j < i ==> !text_leaf(pv[j]),
        decreases n - i,
    {
        let p = &mail.parts[i];
        assert(pv[i as int] == p@);
        if is_text_leaf(p) {
            proof {
                let w = choose|w: int|
                    0 <= w < pv.len() && text_leaf(pv[w]) && forall|j: int|
                        0 <= j < w ==> !text_leaf(pv[j]);
                assert(0 <= i < pv.len() && text_leaf(pv[i as int]));
                if w < i {
                    assert(!text_leaf(pv[w]));
                }
                if w > i {
                    assert(!text_leaf(pv[i as int]));
                }
            }
            return match &p.body {
                Some(b) => copy_string(b),
                None => String::new(),
            };
        }
        i = i + 1;
    }
    String::new()
}

/// The header map of a message: each key lower-cased, a later header
/// replacing an earlier one with the same key.
pub open spec fn header_map(hs: Seq<(Seq<char>, Seq<char>)>) -> Map<Seq<char>, Seq<char>>
    decreases hs.len(),
{
    if hs.len() == 0 {
        Map::empty()
    } else {
        header_map(hs.drop_last()).insert(lowercase(hs.last().0), hs.last().1)
    }
}

pub open spec fn header_or_empty(m: Map<Seq<char>, Seq<char>>, k: Seq<char>) -> Seq<char> {
    if m.contains_key(k) {
        m[k]
    } else {
        Seq::empty()
    }
}

/// `msg` is the message of the parsed mail `m` (whose text is `raw`) from
/// source `source`: headers by lower-case name, sender and subject from them
/// (empty when missing), and the first text part as body.
pub open spec fn mail_message(msg: Message, m: RawMailView, raw: Seq<u8>, source: Seq<char>) -> bool {
    let h = header_map(m.headers);
    &&& msg.source@ == source
    &&& msg.from@ == header_or_empty(h, "from"@)
    &&& msg.subject@ == header_or_empty(h, "subject"@)
    &&& msg.body@ == text_body(m.parts)
    &&& msg.headers@ == h
    &&& msg.raw_body@ == raw
}

/// Headers are found under their lower-cased name, and of several headers
/// whose names lower-case alike the last one counts: when no header after
/// position `i` has a name that lower-cases like header `i`'s, the header
/// map gives header `i`'s value under that lower-cased name.
pub proof fn lemma_header_map_last(hs: Seq<(Seq<char>, Seq<char>)>, i: int)
    requires
        0 <= i < hs.len(),
        forall|j: int| i < j < hs.len() ==> lowercase(#[trigger] hs[j].0) != lowercase(hs[i].0),
    ensures
        header_map(hs).contains_key(lowercase(hs[i].0)),
        header_map(hs)[lowercase(hs[i].0)] == hs[i].1,
    decreases hs.len(),
{
    if i < hs.len() - 1 {
        let init = hs.drop_last();
        assert forall|j: int| i < j < init.len() implies lowercase(#[trigger] init[j].0) != lowercase(
            init[i].0,
        ) by {
            assert(init[j] == hs[j]);
        }
        lemma_header_map_last(init, i);
        assert(init[i] == hs[i]);
        assert(lowercase(hs.last().0) != lowercase(hs[i].0));
    }
}

/// A name that no header's name lower-cases to is missing from the header
/// map.
pub proof fn lemma_header_map_missing(hs: Seq<(Seq<char>, Seq<char>)>, k: Seq<char>)
    requires
        forall|j: int| 0 <= j < hs.len() ==> lowercase(#[trigger] hs[j].0) != k,
    ensures
        !header_map(hs).contains_key(k),
    decreases hs.len(),
{
    if hs.len() > 0 {
        let init = hs.drop_last();
        assert forall|j: int| 0 <= j < init.len() implies lowercase(#[trigger] init[j].0) != k by {
            assert(init[j] == hs[j]);
        }
        lemma_header_map_missing(init, k);
        assert(lowercase(hs[hs.len() - 1].0) != k);
    }
}

/// The message read from a mail keeps each header under its lower-cased
/// name, the last of several alike counting; its sender and subject are the
/// values of the last `From` and `Subject` headers, in whatever case their
/// names were written, and are empty when the mail has no such header.
pub proof fn lemma_mail_headers(
    msg: Message,
    m: RawMailView,
    raw: Seq<u8>,
    source: Seq<char>,
    i: int,
)
    requires
        mail_message(msg, m, raw, source),
        0 <= i < m.headers.len(),
        forall|j: int|
            i < j < m.headers.len() ==> lowercase(#[trigger] m.headers[j].0) != lowercase(
                m.headers[i].0,
            ),
    ensures
        msg.headers@.contains_key(lowercase(m.headers[i].0)),
        msg.headers@[lowercase(m.headers[i].0)] == m.headers[i].1,
        lowercase(m.headers[i].0) == "from"@ ==> msg.from@ == m.headers[i].1,
        lowercase(m.headers[i].0) == "subject"@ ==> msg.subject@ == m.headers[i].1,
{
    lemma_header_map_last(m.headers, i);
}

/// A mail without a `From` header (in any case) gives an empty sender, and
/// one without a `Subject` header an empty subject.
pub proof fn lemma_mail_missing_headers(msg: Message, m: RawMailView, raw: Seq<u8>, source: Seq<char>)
    requires
        mail_message(msg, m, raw, source),
    ensures
        (forall|j: int| 0 <= j < m.headers.len() ==> lowercase(#[trigger] m.headers[j].0) != "from"@)
            ==> msg.from@ == Seq::<char>::empty(),
        (forall|j: int|
            0 <= j < m.headers.len() ==> lowercase(#[trigger] m.headers[j].0) != "subject"@)
            ==> msg.subject@ == Seq::<char>::empty(),
{
    if forall|j: int| 0 <= j < m.headers.len() ==> lowercase(#[trigger] m.headers[j].0) != "from"@ {
        lemma_header_map_missing(m.headers, "from"@);
    }
    if forall|j: int|
        0 <= j < m.headers.len() ==> lowercase(#[trigger] m.headers[j].0) != "subject"@ {
        lemma_header_map_missing(m.headers, "subject"@);
    }
}

/// The message read from a mail takes as body the first text leaf of the
/// mail, in depth-first order: a plain-text body part followed by text
/// attachments yields the body part's text.
pub proof fn lemma_mail_body_first_leaf(
    msg: Message,
    m: RawMailView,
    raw: Seq<u8>,
    source: Seq<char>,
    i: int,
)
    requires
        mail_message(msg, m, raw, source),
        0 <= i < m.parts.len(),
        text_leaf(m.parts[i]),
        forall|j: int| 0 <= j < i ==> !text_leaf(#[trigger] m.parts[j]),
    ensures
        msg.body@ == m.parts[i].body->0,
{
    lemma_text_body_first_leaf(m.parts, i);
}

/// The message an RFC 822 text yields, from source `source_name`; `None`
/// when it does not parse.
pub fn parse_rfc822(raw: &[u8], source_name: &str) -> (r: Option<Message>)
    ensures
        match mailparse_result(raw@) {
            Some(m) => r matches Some(msg) && mail_message(msg, m, raw@, source_name@),
            None => r is None,
        },
{
    let parsed = match parse_mail(raw) {
        Some(p) => p,
        None => return None,
    };
    let ghost hv = parsed@.headers;
    let mut headers = HeaderMap::new();
    let n = parsed.headers.len();
    let mut i: usize = 0;
    while i < n
        invariant
            i <= n,
            n == parsed.headers@.len(),
            hv == parsed@.headers,
            headers@ == header_map(hv.take(i as int)),
        decreases n - i,
    {
        let h = &parsed.headers[i];
        let key = to_lower(h.0.as_str());
        headers.insert(key, copy_string(&h.1));
        assert(hv.take(i + 1).drop_last() =~= hv.take(i as int));
        i = i + 1;
    }
    assert(hv.take(n as int) =~= hv);
    let from = match headers.get("from") {
        Some(v) => copy_string(v),
        None => String::new(),
    };
    let subject = match headers.get("subject") {
        Some(v) => copy_string(v),
        None => String::new(),
    };
    let body = extract_text_body(&parsed);
    Some(Message {
        source: source_name.to_owned(),
        from,
        subject,
        body,
        headers,
        raw_body: vstd::slice::slice_to_vec(raw),
    })
}

/// The UID set of a FETCH or STORE command: the ids joined with commas.
pub open spec fn uid_set_text(uids: Seq<u32>) -> Seq<char>
    decreases uids.len(),
{
    if uids.len() == 0 {
        Seq::empty()
    } else if uids.len() == 1 {
        decimal(uids[0] as nat)
    } else {
        uid_set_text(uids.drop_last()) + ","@ + decimal(uids.last() as nat)
    }
}

pub fn uid_set(uids: &[u32]) -> (r: String)
    ensures
        r@ == uid_set_text(uids@),
{
    let mut r = String::new();
    let n = uids.len();
    let mut i: usize = 0;
    while i < n
        invariant
            i <= n,
            n == uids@.len(),
            r@ == uid_set_text(uids@.take(i as int)),
        decreases n - i,
    {
        assert(uids@.take(i + 1).drop_last() =~= uids@.take(i as int));
        if i > 0 {
            r.append(",");
        }
        let d = u64_to_decimal(uids[i] as u64);
        r.append(d.as_str());
        proof {
            if i == 0 {
                assert(r@ =~= decimal(uids@[0] as nat));
            }
        }
        i = i + 1;
    }
    assert(uids@.take(n as int) =~= uids@);
    r
}

/// The fetched bodies that yield a message: present and parseable, in order.
pub open spec fn parseable_bodies(bodies: Seq<Option<Vec<u8>>>) -> Seq<Seq<u8>>
    decreases bodies.len(),
{
    if bodies.len() == 0 {
        Seq::empty()
    } else {
        let p = parseable_bodies(bodies.drop_last());
        match bodies.last() {
            Some(b) => if mailparse_result(b@) is Some {
                p.push(b@)
            } else {
                p
            },
            None => p,
        }
    }
}

/// The messages of a FETCH answer: one per body that is present and parses,
/// in order; the others are skipped.
pub fn messages_from_fetch(bodies: &[Option<Vec<u8>>], source_name: &str) -> (r: Vec<Message>)
    ensures
        r@.len() == parseable_bodies(bodies@).len(),
        forall|i: int|
            0 <= i < r@.len() ==> mail_message(
                #[trigger] r@[i],
                mailparse_result(parseable_bodies(bodies@)[i]).unwrap(),
                parseable_bodies(bodies@)[i],
                source_name@,
            ),
{
    let mut out: Vec<Message> = Vec::new();
    let mut i: usize = 0;
    while i < bodies.len()
        invariant
            i <= bodies@.len(),
            out@.len() == parseable_bodies(bodies@.take(i as int)).len(),
            forall|k: int|
                0 <= k < out@.len() ==> mail_message(
                    #[trigger] out@[k],
                    mailparse_result(parseable_bodies(bodies@.take(i as int))[k]).unwrap(),
                    parseable_bodies(bodies@.take(i as int))[k],
                    source_name@,
                ),
        decreases bodies@.len() - i,
    {
        assert(bodies@.take(i + 1).drop_last() =~= bodies@.take(i as int));
        if let Some(b) = &bodies[i] {
            if let Some(m) = parse_rfc822(b.as_slice(), source_name) {
                out.push(m);
            }
        }
        i = i + 1;
    }
    assert(bodies@.take(i as int) =~= bodies@);
    out
}

} // verus!
