//! The normalised message that every input source produces.
use vstd::prelude::*;

use crate::text::{copy_string, str_eq};

verus! {

/// Header name/value pairs in insertion order; a later pair for the same
/// name replaces an earlier one, as inserting into a map does.
#[derive(Debug, Clone)]
pub struct HeaderMap {
    entries: Vec<(String, String)>,
}

pub open spec fn pairs_view(s: Seq<(String, String)>) -> Seq<(Seq<char>, Seq<char>)> {
    s.map_values(|p: (String, String)| (p.0@, p.1@))
}

/// The map that a sequence of insertions produces.
pub open spec fn map_of(s: Seq<(Seq<char>, Seq<char>)>) -> Map<Seq<char>, Seq<char>>
    decreases s.len(),
{
    if s.len() == 0 {
        Map::empty()
    } else {
        map_of(s.drop_last()).insert(s.last().0, s.last().1)
    }
}

proof fn lemma_map_of_tail_free(s: Seq<(Seq<char>, Seq<char>)>, i: int, k: Seq<char>)
    requires
        0 <= i <= s.len(),
        forall|j: int| i <= j < s.len() ==> s[j].0 != k,
    ensures
        map_of(s).contains_key(k) == map_of(s.take(i)).contains_key(k),
        map_of(s).contains_key(k) ==> map_of(s)[k] == map_of(s.take(i))[k],
    decreases s.len() - i,
{
    if i < s.len() {
        assert(s.drop_last().take(i) =~= s.take(i));
        lemma_map_of_tail_free(s.drop_last(), i, k);
    } else {
        assert(s.take(i) =~= s);
    }
}

impl View for HeaderMap {
    type V = Map<Seq<char>, Seq<char>>;

    closed spec fn view(&self) -> Map<Seq<char>, Seq<char>> {
        map_of(pairs_view(self.entries@))
    }
}

impl HeaderMap {
    pub fn new() -> (r: HeaderMap)
        ensures
            r@ == Map::<Seq<char>, Seq<char>>::empty(),
    {
        let r = HeaderMap { entries: Vec::new() };
        assert(pairs_view(r.entries@) =~= Seq::empty());
        r
    }

    /// Sets `name` to `value`, replacing any earlier value.
    pub fn insert(&mut self, name: String, value: String)
        ensures
            final(self)@ == old(self)@.insert(name@, value@),
    {
        let ghost before = self.entries@;
        self.entries.push((name, value));
        assert(pairs_view(self.entries@).drop_last() =~= pairs_view(before));
    }

    /// The value stored for `name`, if any.
    pub fn get(&self, name: &str) -> (r: Option<&String>)
        ensures
            match r {
                Some(v) => self@.contains_key(name@) && v@ == self@[name@],
                None => !self@.contains_key(name@),
            },
    {
        let ghost s = pairs_view(self.entries@);
        let mut i: usize = self.entries.len();
        while i > 0
            invariant
                i <= self.entries@.len(),
                s == pairs_view(self.entries@),
                forall|j: int| i <= j < s.len() ==> s[j].0 != name@,
            decreases i,
        {
            let e = &self.entries[i - 1];
            if str_eq(e.0.as_str(), name) {
                proof {
                    lemma_map_of_tail_free(s, i as int, name@);
                    assert(s.take(i as int).drop_last() =~= s.take(i - 1));
                    assert(s.take(i as int).last() == s[i - 1]);
                }
                return Some(&e.1);
            }
            i = i - 1;
        }
        proof {
            lemma_map_of_tail_free(s, 0, name@);
            assert(s.take(0) =~= Seq::<(Seq<char>, Seq<char>)>::empty());
        }
        None
    }

    /// The same pairs, copied.
    pub fn copy(&self) -> (r: HeaderMap)
        ensures
            r@ == self@,
    {
        let mut entries: Vec<(String, String)> = Vec::new();
        let n = self.entries.len();
        let mut i: usize = 0;
        while i < n
            invariant
                i <= n,
                n == self.entries@.len(),
                pairs_view(entries@) =~= pairs_view(self.entries@).take(i as int),
            decreases n - i,
        {
            let e = &self.entries[i];
            entries.push((copy_string(&e.0), copy_string(&e.1)));
            assert(pairs_view(self.entries@).take(i + 1) =~= pairs_view(self.entries@).take(
                i as int,
            ).push((e.0@, e.1@)));
            i = i + 1;
        }
        assert(pairs_view(self.entries@).take(n as int) =~= pairs_view(self.entries@));
        HeaderMap { entries }
    }
}

/// A normalised message from any input source (email, Telegram, webhook).
#[derive(Debug, Clone)]
pub struct Message {
    /// Human-readable source identifier, e.g. `"imap:main"`.
    pub source: String,
    /// Sender address or handle.
    pub from: String,
    /// Subject line (may be empty for non-email sources).
    pub subject: String,
    /// Plain-text body.
    pub body: String,
    /// Headers (name → value); names are stored in lower case.
    pub headers: HeaderMap,
    /// Raw bytes of the body, used for signature verification.
    pub raw_body: Vec<u8>,
}

impl Default for Message {
    fn default() -> (r: Message)
        ensures
            r.source@.len() == 0,
            r.from@.len() == 0,
            r.subject@.len() == 0,
            r.body@.len() == 0,
            r.headers@ == Map::<Seq<char>, Seq<char>>::empty(),
            r.raw_body@.len() == 0,
    {
        Message {
            source: String::new(),
            from: String::new(),
            subject: String::new(),
            body: String::new(),
            headers: HeaderMap::new(),
            raw_body: Vec::new(),
        }
    }
}

} // verus!
