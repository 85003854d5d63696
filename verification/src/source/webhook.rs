//! Push-based input: messages that arrive by HTTP POST.
//!
//! Each webhook account has a queue keyed by its secret.  The HTTP handler
//! pushes incoming messages into the queue; the account's poller drains it.
use vstd::prelude::*;

use crate::config::AccountConfig;
use crate::message::{HeaderMap, Message};
use crate::text::{concat2, copy_string, i64_to_decimal, signed_decimal, str_eq, trim, trim_str};

verus! {

// ── Queues ────────────────────────────────────────────────────────────────────

/// The message queues of all webhook endpoints, keyed by secret.  A queue is
/// named by its position, which never changes once registered.
pub struct WebhookQueues {
    entries: Vec<(String, Vec<Message>)>,
}

pub struct WebhookQueuesView {
    pub secrets: Seq<Seq<char>>,
    pub queues: Seq<Seq<Message>>,
}

impl View for WebhookQueues {
    type V = WebhookQueuesView;

    closed spec fn view(&self) -> WebhookQueuesView {
        WebhookQueuesView {
            secrets: self.entries@.map_values(|e: (String, Vec<Message>)| e.0@),
            queues: self.entries@.map_values(|e: (String, Vec<Message>)| e.1@),
        }
    }
}

/// Position of the first registration of `secret`.
pub open spec fn secret_index(secrets: Seq<Seq<char>>, secret: Seq<char>) -> Option<int> {
    if exists|i: int| 0 <= i < secrets.len() && secrets[i] == secret {
        Some(
            choose|i: int|
                0 <= i < secrets.len() && secrets[i] == secret && forall|j: int|
                    0 <= j < i ==> secrets[j] != secret,
        )
    } else {
        None
    }
}

impl WebhookQueues {
    pub fn new() -> (r: WebhookQueues)
        ensures
            r@.secrets.len() == 0,
            r@.queues.len() == 0,
    {
        let r = WebhookQueues { entries: Vec::new() };
        assert(r@.secrets =~= Seq::<Seq<char>>::empty());
        assert(r@.queues =~= Seq::<Seq<Message>>::empty());
        r
    }

    /// Number of registered queues.
    pub fn len(&self) -> (r: usize)
        ensures
            r == self@.secrets.len(),
            r == self@.queues.len(),
    {
        self.entries.len()
    }

    /// The queue registered for `secret`, if any.
    pub fn queue_for(&self, secret: &str) -> (r: Option<usize>)
        ensures
            match r {
                Some(i) => i < self@.secrets.len() && i < self@.queues.len() && self@.secrets[i as int]
                    == secret@ && secret_index(self@.secrets, secret@) == Some(i as int),
                None => secret_index(self@.secrets, secret@) is None,
            },
    {
        let ghost sv = self@.secrets;
        let n = self.entries.len();
        let mut i: usize = 0;
        while i < n
            invariant
                i <= n,
                n == self.entries@.len(),
                sv == self@.secrets,
                forall|j: int| 0 <= j < i ==> sv[j] != secret@,
            decreases n - i,
        {
            if str_eq(self.entries[i].0.as_str(), secret) {
                proof {
                    assert(sv[i as int] == secret@);
                    let w = choose|w: int|
                        0 <= w < sv.len() && sv[w] == secret@ && forall|j: int|
                            0 <= j < w ==> sv[j] != secret@;
                    assert(0 <= i < sv.len() && sv[i as int] == secret@);
                    if w < i {
                        assert(sv[w] != secret@);
                    }
                    if w > i {
                        assert(sv[i as int] != secret@);
                    }
                }
                return Some(i);
            }
            i = i + 1;
        }
        None
    }

    /// The queue for `secret`: the existing one when the secret is already
    /// registered (so messages in flight survive a reload), else a new empty
    /// queue.
    pub fn register(&mut self, secret: String) -> (r: usize)
        ensures
            match secret_index(old(self)@.secrets, secret@) {
                Some(i) => r == i && final(self)@ == old(self)@,
                None => r == old(self)@.secrets.len() && final(self)@.secrets == old(
                    self,
                )@.secrets.push(secret@) && final(self)@.queues == old(self)@.queues.push(
                    Seq::empty(),
                ),
            },
            r < final(self)@.secrets.len(),
            final(self)@.secrets[r as int] == secret@,
    {
        match self.queue_for(secret.as_str()) {
            Some(i) => i,
            None => {
                let ghost before = self.entries@;
                let n = self.entries.len();
                self.entries.push((secret, Vec::new()));
                proof {
                    assert(self.entries@ == before.push(self.entries@[n as int]));
                    assert(self@.secrets =~= old(self)@.secrets.push(self.entries@[n as int].0@));
                    assert(self@.queues =~= old(self)@.queues.push(Seq::empty()));
                }
                n
            },
        }
    }

    /// Appends `msg` to queue `q`.
    pub fn push(&mut self, q: usize, msg: Message)
        requires
            q < old(self)@.queues.len(),
        ensures
            final(self)@.secrets == old(self)@.secrets,
            final(self)@.queues == old(self)@.queues.update(
                q as int,
                old(self)@.queues[q as int].push(msg),
            ),
    {
        let ghost before = self.entries@;
        let mut e: (String, Vec<Message>) = (String::new(), Vec::new());
        std::mem::swap(&mut e, &mut self.entries[q]);
        e.1.push(msg);
        std::mem::swap(&mut e, &mut self.entries[q]);
        proof {
            assert(self.entries@ =~= before.update(
                q as int,
                (before[q as int].0, self.entries@[q as int].1),
            ));
            assert(self@.secrets =~= old(self)@.secrets);
            assert(self@.queues =~= old(self)@.queues.update(
                q as int,
                old(self)@.queues[q as int].push(msg),
            ));
        }
    }

    /// Removes and returns everything in queue `q`, oldest first.
    pub fn drain(&mut self, q: usize) -> (r: Vec<Message>)
        requires
            q < old(self)@.queues.len(),
        ensures
            r@ == old(self)@.queues[q as int],
            final(self)@.secrets == old(self)@.secrets,
            final(self)@.queues == old(self)@.queues.update(q as int, Seq::empty()),
    {
        let ghost before = self.entries@;
        let mut e: (String, Vec<Message>) = (String::new(), Vec::new());
        std::mem::swap(&mut e, &mut self.entries[q]);
        let mut taken: Vec<Message> = Vec::new();
        std::mem::swap(&mut taken, &mut e.1);
        std::mem::swap(&mut e, &mut self.entries[q]);
        proof {
            assert(self@.secrets =~= old(self)@.secrets);
            assert(self@.queues =~= old(self)@.queues.update(q as int, Seq::empty()));
        }
        taken
    }
}

// ── WebhookSource ─────────────────────────────────────────────────────────────

/// The secret of a webhook account: `webhook_secret`, or the account name.
pub open spec fn webhook_secret_of(config: AccountConfig) -> Seq<char> {
    match config.webhook_secret {
        Some(s) => s@,
        None => config.name@,
    }
}

/// Push-based message source that receives messages via HTTP POST requests.
///
/// The HTTP handler enqueues messages into its queue; polling drains it.
pub struct WebhookSource {
    name: String,
    queue: usize,
}

impl WebhookSource {
    /// Create the source for `config`, reusing the queue already registered
    /// for its secret (so in-flight messages survive a config reload), or
    /// registering a new empty one.
    pub fn new(config: &AccountConfig, queues: &mut WebhookQueues) -> (r: WebhookSource)
        ensures
            r.source_name() == "webhook:"@ + config.name@,
            r.queue_index() < final(queues)@.secrets.len(),
            final(queues)@.secrets[r.queue_index() as int] == webhook_secret_of(*config),
            match secret_index(old(queues)@.secrets, webhook_secret_of(*config)) {
                Some(i) => r.queue_index() == i && final(queues)@ == old(queues)@,
                None => r.queue_index() == old(queues)@.secrets.len() && final(queues)@.secrets
                    == old(queues)@.secrets.push(webhook_secret_of(*config))
                    && final(queues)@.queues == old(queues)@.queues.push(Seq::empty()),
            },
    {
        let name = concat2("webhook:", config.name.as_str());
        let secret = match &config.webhook_secret {
            Some(s) => copy_string(s),
            None => copy_string(&config.name),
        };
        let queue = queues.register(secret);
        WebhookSource { name, queue }
    }

    pub closed spec fn source_name(&self) -> Seq<char> {
        self.name@
    }

    pub closed spec fn queue_index(&self) -> usize {
        self.queue
    }

    /// The queue this source drains.
    pub fn queue(&self) -> (r: usize)
        ensures
            r == self.queue_index(),
    {
        self.queue
    }

    /// A poll: every message queued for this endpoint, oldest first, leaving
    /// its queue empty; `None` (and nothing changed) when `queues` does not
    /// hold this source's queue.
    pub fn poll_queue(&self, queues: &mut WebhookQueues) -> (r: Option<Vec<Message>>)
        ensures
            final(queues)@.secrets == old(queues)@.secrets,
            self.queue_index() < old(queues)@.queues.len() ==> (r matches Some(v) && v@ == old(
                queues,
            )@.queues[self.queue_index() as int] && final(queues)@.queues == old(
                queues,
            )@.queues.update(self.queue_index() as int, Seq::empty())),
            self.queue_index() >= old(queues)@.queues.len() ==> r is None && final(queues)@
                == old(queues)@,
    {
        if self.queue >= queues.len() {
            return None;
        }
        Some(queues.drain(self.queue))
    }

    /// Human-readable name of this source, e.g. `"webhook:ci"`.
    pub fn name(&self) -> (r: &str)
        ensures
            r@ == self.source_name(),
    {
        self.name.as_str()
    }
}

// ── Payloads ──────────────────────────────────────────────────────────────────

/// A Telegram `Update`, as far as troop reads it.
pub struct TelegramUpdate {
    pub update_id: i64,
    pub message: Option<TelegramMessage>,
    pub edited_message: Option<TelegramMessage>,
    pub channel_post: Option<TelegramMessage>,
    pub edited_channel_post: Option<TelegramMessage>,
}

pub struct TelegramMessage {
    pub from: Option<TelegramUser>,
    pub chat: TelegramChat,
    pub text: Option<String>,
    /// Caption for photos, audio, documents, etc.
    pub caption: Option<String>,
}

pub struct TelegramUser {
    pub id: i64,
    pub username: Option<String>,
    pub first_name: String,
}

pub struct TelegramChat {
    pub id: i64,
}

/// What `serde_json` reads as the string member `key` of the JSON object in
/// `payload`: `None` when the payload is not JSON, or the member is missing
/// or not a string.
pub uninterp spec fn json_string_member(payload: Seq<u8>, key: Seq<char>) -> Option<Seq<char>>;

/// The text of `String::from_utf8_lossy(payload)`.
pub uninterp spec fn utf8_lossy(payload: Seq<u8>) -> Seq<char>;

/// `serde_json::from_slice::<serde_json::Value>(payload)`, then
/// `Value::get(key)` and `Value::as_str`: the string member `key` of a JSON
/// object.  The contract names the result; JSON parsing itself is not
/// restated.
#[verifier::external_body]
fn json_str_member(payload: &[u8], key: &str) -> (r: Option<String>)
    ensures
        match r {
            Some(s) => json_string_member(payload@, key@) == Some(s@),
            None => json_string_member(payload@, key@) is None,
        },
{
    match serde_json::from_slice::<serde_json::Value>(payload) {
        Ok(v) => v.get(key).and_then(|x| x.as_str()).map(|s| s.to_owned()),
        Err(_) => None,
    }
}

/// `String::from_utf8_lossy` (std): the payload decoded as UTF-8, invalid
/// sequences replaced by U+FFFD.  The contract names the result and states
/// what std documents of valid input: it is decoded unchanged.
#[verifier::external_body]
fn lossy_text(payload: &[u8]) -> (r: String)
    ensures
        r@ == utf8_lossy(payload@),
        vstd::utf8::valid_utf8(payload@) ==> r@ == vstd::utf8::decode_utf8(payload@),
{
    String::from_utf8_lossy(payload).into_owned()
}

/// The first message variant an update carries.
pub open spec fn update_message(u: TelegramUpdate) -> Option<TelegramMessage> {
    if u.message is Some {
        u.message
    } else if u.edited_message is Some {
        u.edited_message
    } else if u.channel_post is Some {
        u.channel_post
    } else {
        u.edited_channel_post
    }
}

/// The sender of a Telegram message: `@username`, else the first name,
/// else `chat:<chat id>`.
pub open spec fn telegram_sender(m: TelegramMessage) -> Seq<char> {
    match m.from {
        Some(u) => match u.username {
            Some(n) => "@"@ + n@,
            None => u.first_name@,
        },
        None => "chat:"@ + signed_decimal(m.chat.id as int),
    }
}

/// The text of a Telegram message: its text, else its caption, else "".
pub open spec fn telegram_text(m: TelegramMessage) -> Seq<char> {
    match m.text {
        Some(t) => t@,
        None => match m.caption {
            Some(c) => c@,
            None => Seq::empty(),
        },
    }
}

/// A webhook message with this sender, text and headers.
pub open spec fn webhook_message(
    r: Message,
    source: Seq<char>,
    from: Seq<char>,
    text: Seq<char>,
    headers: Map<Seq<char>, Seq<char>>,
    payload: Seq<u8>,
) -> bool {
    &&& r.source@ == source
    &&& r.from@ == from
    &&& r.subject@ == text
    &&& r.body@ == text
    &&& r.headers@ == headers
    &&& r.raw_body@ == payload
}

pub open spec fn secret_header(secret: Seq<char>) -> Map<Seq<char>, Seq<char>> {
    Map::empty().insert("x-webhook-secret"@, secret)
}

/// The message a payload yields:
/// 1. a Telegram update (`update`, when the payload decodes as one): its
///    first message variant, unless that has no text;
/// 2. else a JSON object with a non-blank string `text` (and an optional
///    string `from`, default `webhook`);
/// 3. else the payload as trimmed UTF-8 text, unless blank.
pub open spec fn payload_message(
    r: Option<Message>,
    payload: Seq<u8>,
    source: Seq<char>,
    secret: Seq<char>,
    update: Option<TelegramUpdate>,
) -> bool {
    match update {
        Some(u) => match update_message(u) {
            Some(m) => if trim(telegram_text(m)).len() == 0 {
                r is None
            } else {
                r matches Some(msg) && webhook_message(
                    msg,
                    source,
                    telegram_sender(m),
                    telegram_text(m),
                    secret_header(secret).insert("x-chat-id"@, signed_decimal(m.chat.id as int)),
                    payload,
                )
            },
            None => r is None,
        },
        None => match json_string_member(payload, "text"@) {
            Some(t) if trim(t).len() > 0 => r matches Some(msg) && webhook_message(
                msg,
                source,
                match json_string_member(payload, "from"@) {
                    Some(f) => f,
                    None => "webhook"@,
                },
                t,
                secret_header(secret),
                payload,
            ),
            _ => {
                let text = trim(utf8_lossy(payload));
                if text.len() == 0 {
                    r is None
                } else {
                    r matches Some(msg) && webhook_message(
                        msg,
                        source,
                        "webhook"@,
                        text,
                        secret_header(secret),
                        payload,
                    )
                }
            },
        },
    }
}

/// A Telegram message that carries no text but a caption that is not blank
/// (a photo or a document sent with a caption) yields a message whose
/// subject and body are the caption.
pub proof fn lemma_caption_stands_for_text(
    r: Option<Message>,
    payload: Seq<u8>,
    source: Seq<char>,
    secret: Seq<char>,
    u: TelegramUpdate,
    m: TelegramMessage,
)
    requires
        update_message(u) == Some(m),
        m.text is None,
        m.caption is Some,
        trim(m.caption->0@).len() > 0,
        payload_message(r, payload, source, secret, Some(u)),
    ensures
        r is Some,
        r->0.subject@ == m.caption->0@,
        r->0.body@ == m.caption->0@,
{
}

/// Where a Telegram message has text, the text decides and the caption is
/// not read: text that is not blank becomes the subject and the body, and
/// blank text yields no message at all.
pub proof fn lemma_text_before_caption(
    r: Option<Message>,
    payload: Seq<u8>,
    source: Seq<char>,
    secret: Seq<char>,
    u: TelegramUpdate,
    m: TelegramMessage,
)
    requires
        update_message(u) == Some(m),
        m.text is Some,
        payload_message(r, payload, source, secret, Some(u)),
    ensures
        trim(m.text->0@).len() > 0 ==> r is Some && r->0.subject@ == m.text->0@ && r->0.body@
            == m.text->0@,
        trim(m.text->0@).len() == 0 ==> r is None,
{
}

/// A Telegram message with neither text nor caption yields no message.
pub proof fn lemma_no_text_no_message(
    r: Option<Message>,
    payload: Seq<u8>,
    source: Seq<char>,
    secret: Seq<char>,
    u: TelegramUpdate,
    m: TelegramMessage,
)
    requires
        update_message(u) == Some(m),
        m.text is None,
        m.caption is None,
        payload_message(r, payload, source, secret, Some(u)),
    ensures
        r is None,
{
    assert(trim(Seq::<char>::empty()).len() == 0);
}

/// The message made from a Telegram message with non-blank text comes from
/// `@username` when the sender has a user name, else from the sender's
/// first name, else from `chat:<chat id>`; it carries the webhook secret
/// and the chat id as headers, the payload as raw body, and the source name.
pub proof fn lemma_telegram_message_fields(
    r: Option<Message>,
    payload: Seq<u8>,
    source: Seq<char>,
    secret: Seq<char>,
    u: TelegramUpdate,
    m: TelegramMessage,
)
    requires
        update_message(u) == Some(m),
        m.text is Some,
        trim(m.text->0@).len() > 0,
        payload_message(r, payload, source, secret, Some(u)),
    ensures
        r is Some,
        (m.from matches Some(user) && user.username is Some) ==> r->0.from@ == "@"@
            + m.from->0.username->0@,
        (m.from matches Some(user) && user.username is None) ==> r->0.from@
            == m.from->0.first_name@,
        m.from is None ==> r->0.from@ == "chat:"@ + signed_decimal(m.chat.id as int),
        r->0.headers@.contains_key("x-webhook-secret"@),
        r->0.headers@["x-webhook-secret"@] == secret,
        r->0.headers@.contains_key("x-chat-id"@),
        r->0.headers@["x-chat-id"@] == signed_decimal(m.chat.id as int),
        r->0.source@ == source,
        r->0.raw_body@ == payload,
{
    reveal_strlit("x-webhook-secret");
    reveal_strlit("x-chat-id");
    assert("x-webhook-secret"@.len() != "x-chat-id"@.len());
}

/// A payload that is not a Telegram update but a JSON object with a string
/// member `text` that is not blank yields a message whose subject and body
/// are that text, sent by the string member `from`, or by `webhook` when
/// there is none.
pub proof fn lemma_json_text_message(
    r: Option<Message>,
    payload: Seq<u8>,
    source: Seq<char>,
    secret: Seq<char>,
    t: Seq<char>,
)
    requires
        json_string_member(payload, "text"@) == Some(t),
        trim(t).len() > 0,
        payload_message(r, payload, source, secret, None),
    ensures
        r is Some,
        r->0.subject@ == t,
        r->0.body@ == t,
        json_string_member(payload, "from"@) matches Some(f) ==> r->0.from@ == f,
        json_string_member(payload, "from"@) is None ==> r->0.from@ == "webhook"@,
{
}

fn make_message(
    payload: &[u8],
    source_name: &str,
    from: String,
    text: &str,
    headers: HeaderMap,
) -> (r: Message)
    ensures
        webhook_message(r, source_name@, from@, text@, headers@, payload@),
{
    Message {
        source: source_name.to_owned(),
        from,
        subject: text.to_owned(),
        body: text.to_owned(),
        headers,
        raw_body: vstd::slice::slice_to_vec(payload),
    }
}

fn secret_headers(secret: &str) -> (r: HeaderMap)
    ensures
        r@ == secret_header(secret@),
{
    let mut h = HeaderMap::new();
    h.insert("x-webhook-secret".to_owned(), secret.to_owned());
    h
}

/// Extract a [`Message`] from an incoming payload.
///
/// Parsing strategy:
/// 1. `update` is the payload decoded as a Telegram `Update`, when it is
///    one; the first non-`None` message variant (`message`,
///    `edited_message`, `channel_post`, …) is used.
/// 2. Fall back to a generic `{"text":"…"}` object.
/// 3. Fall back to treating the raw bytes as plain text.
pub fn message_from_payload(
    payload: &[u8],
    source_name: &str,
    secret: &str,
    update: Option<TelegramUpdate>,
) -> (r: Option<Message>)
    ensures
        payload_message(r, payload@, source_name@, secret@, update),
{
    proof {
        reveal_strlit("");
    }
    if let Some(u) = update {
        let ghost gu = u;
        let tg = if u.message.is_some() {
            u.message
        } else if u.edited_message.is_some() {
            u.edited_message
        } else if u.channel_post.is_some() {
            u.channel_post
        } else {
            u.edited_channel_post
        };
        let m = match tg {
            Some(m) => m,
            None => return None,
        };
        assert(update_message(gu) == Some(m));
        let text = match &m.text {
            Some(t) => copy_string(t),
            None => match &m.caption {
                Some(c) => copy_string(c),
                None => String::new(),
            },
        };
        if trim_str(text.as_str()).unicode_len() == 0 {
            return None;
        }
        let chat_id = i64_to_decimal(m.chat.id);
        let from = match &m.from {
            Some(user) => match &user.username {
                Some(n) => concat2("@", n.as_str()),
                None => copy_string(&user.first_name),
            },
            None => concat2("chat:", chat_id.as_str()),
        };
        let mut headers = secret_headers(secret);
        headers.insert("x-chat-id".to_owned(), chat_id);
        return Some(make_message(payload, source_name, from, text.as_str(), headers));
    }
    if let Some(text) = json_str_member(payload, "text") {
        if trim_str(text.as_str()).unicode_len() > 0 {
            let from = match json_str_member(payload, "from") {
                Some(f) => f,
                None => "webhook".to_owned(),
            };
            return Some(make_message(payload, source_name, from, text.as_str(), secret_headers(secret)));
        }
    }
    let lossy = lossy_text(payload);
    let text = trim_str(lossy.as_str());
    if text.unicode_len() == 0 {
        return None;
    }
    Some(make_message(payload, source_name, "webhook".to_owned(), text, secret_headers(secret)))
}

} // verus!
