//! Commands carried by incoming messages: parsing, and what each one asks of
//! the task store and answers.
use vstd::prelude::*;

use crate::message::Message;
use crate::storage::{id_check, is_lower_hex, Storage, Task, TaskView};
use crate::text::{
    ascii_upper, ascii_upper_text, chars_of, copy_string, decimal, has_char, is_ws, lemma_lines_cons, lines, split_lines, str_eq, strip_cr, to_ascii_upper,
    to_upper, trim, trim_end, trim_start, trim_str, upper_form, usize_to_decimal,
};
use crate::time::{chrono_format, Timestamp};

verus! {

// ── Command model ─────────────────────────────────────────────────────────────

/// A parsed command extracted from an incoming message.
#[derive(Debug, Clone, PartialEq, Eq)]
pub enum Command {
    /// List all pending tasks.
    List,
    /// Show a summary of todo/done counts.
    Status,
    /// Add a new task.  Payload: (title, description).
    Add { title: String, description: String },
    /// Mark a task as done.  Payload: task id.
    Done { id: String },
    /// Show details of a task.  Payload: task id.
    Show { id: String },
    /// Unrecognised input.
    Unknown(String),
}

pub enum CommandView {
    List,
    Status,
    Add { title: Seq<char>, description: Seq<char> },
    Done { id: Seq<char> },
    Show { id: Seq<char> },
    Unknown(Seq<char>),
}

impl View for Command {
    type V = CommandView;

    open spec fn view(&self) -> CommandView {
        match self {
            Command::List => CommandView::List,
            Command::Status => CommandView::Status,
            Command::Add { title, description } => CommandView::Add {
                title: title@,
                description: description@,
            },
            Command::Done { id } => CommandView::Done { id: id@ },
            Command::Show { id } => CommandView::Show { id: id@ },
            Command::Unknown(s) => CommandView::Unknown(s@),
        }
    }
}

// ── Parsing rules ─────────────────────────────────────────────────────────────

/// The first `n` characters of `line` spell `word` ignoring ASCII case.
pub open spec fn ascii_ci_prefix(line: Seq<char>, word: Seq<char>) -> bool {
    word.len() <= line.len() && forall|k: int|
        0 <= k < word.len() ==> ascii_upper(#[trigger] line[k]) == word[k]
}

/// The line's upper-case form starts with `"TROOP "`.
///
/// The only characters whose upper-case form is one of `T`, `R`, `O`, `P` or
/// a space are those characters themselves and their ASCII lower-case forms,
/// so this is decided on the first six characters with ASCII case folding.
pub open spec fn has_keyword_prefix(line: Seq<char>) -> bool {
    ascii_ci_prefix(line, "TROOP "@)
}

/// The line's upper-case form is exactly `"TROOP"` (see `has_keyword_prefix`).
pub open spec fn is_bare_keyword(line: Seq<char>) -> bool {
    line.len() == 5 && ascii_ci_prefix(line, "TROOP"@)
}

/// Index of the first space in `s`, or `s.len()`.
pub open spec fn space_index(s: Seq<char>) -> int
    decreases s.len(),
{
    if s.len() == 0 {
        0
    } else if s[0] == ' ' {
        0
    } else {
        1 + space_index(s.drop_first())
    }
}

/// `splitn(2, ' ')`: the part before the first space.
pub open spec fn verb_part(s: Seq<char>) -> Seq<char> {
    s.subrange(0, space_index(s))
}

/// `splitn(2, ' ')`: the part after the first space, or "" when there is none.
pub open spec fn arg_part(s: Seq<char>) -> Seq<char> {
    if space_index(s) < s.len() {
        s.subrange(space_index(s) + 1, s.len() as int)
    } else {
        Seq::empty()
    }
}

/// The command a single line names, if it starts with the keyword;
/// `rest` becomes the description of an `add`.
pub open spec fn parse_line(line: Seq<char>, rest: Seq<char>) -> Option<CommandView> {
    if has_keyword_prefix(line) {
        let stripped = trim(line.subrange(6, line.len() as int));
        let verb = upper_form(verb_part(stripped));
        let arg = trim(arg_part(stripped));
        Some(
            if verb == "LIST"@ {
                CommandView::List
            } else if verb == "STATUS"@ {
                CommandView::Status
            } else if verb == "ADD"@ {
                CommandView::Add {
                    title: if arg.len() == 0 {
                        "Untitled"@
                    } else {
                        arg
                    },
                    description: trim(rest),
                }
            } else if verb == "DONE"@ {
                CommandView::Done { id: arg }
            } else if verb == "SHOW"@ {
                CommandView::Show { id: arg }
            } else {
                CommandView::Unknown(stripped)
            },
        )
    } else if is_bare_keyword(line) {
        Some(CommandView::List)
    } else {
        None
    }
}

/// The lines joined with `"\n"` between them.
pub open spec fn join_lines(ls: Seq<Seq<char>>) -> Seq<char>
    decreases ls.len(),
{
    if ls.len() == 0 {
        Seq::empty()
    } else if ls.len() == 1 {
        ls[0]
    } else {
        join_lines(ls.drop_last()) + "\n"@ + ls.last()
    }
}

/// Index of the first line whose trimmed text is not empty, if any.
pub open spec fn first_text_line(ls: Seq<Seq<char>>) -> Option<int> {
    if exists|k: int| 0 <= k < ls.len() && trim(ls[k]).len() > 0 {
        Some(
            choose|k: int|
                0 <= k < ls.len() && trim(ls[k]).len() > 0 && forall|j: int|
                    0 <= j < k ==> trim(ls[j]).len() == 0,
        )
    } else {
        None
    }
}

/// The command carried by a message with this subject and body:
/// 1. the trimmed subject, when it starts with the keyword;
/// 2. otherwise the first non-blank body line, the following lines being
///    the description of an `add`;
/// 3. otherwise `Unknown` with the raw subject.
pub open spec fn command_of(subject: Seq<char>, body: Seq<char>) -> CommandView {
    match parse_line(trim(subject), body) {
        Some(c) => c,
        None => {
            let ls = lines(body);
            match first_text_line(ls) {
                Some(k) => match parse_line(
                    trim(ls[k]),
                    join_lines(ls.subrange(k + 1, ls.len() as int)),
                ) {
                    Some(c) => c,
                    None => CommandView::Unknown(subject),
                },
                None => CommandView::Unknown(subject),
            }
        },
    }
}

proof fn lemma_first_text_line(ls: Seq<Seq<char>>, k: int)
    requires
        0 <= k < ls.len(),
        trim(ls[k]).len() > 0,
        forall|j: int| 0 <= j < k ==> trim(ls[j]).len() == 0,
    ensures
        first_text_line(ls) == Some(k),
{
    let w = choose|w: int|
        0 <= w < ls.len() && trim(ls[w]).len() > 0 && forall|j: int|
            0 <= j < w ==> trim(ls[j]).len() == 0;
    assert(0 <= k < ls.len() && trim(ls[k]).len() > 0);
    if w < k {
        assert(trim(ls[w]).len() == 0);
    }
    if w > k {
        assert(trim(ls[k]).len() == 0);
    }
}

/// One of the verbs a command line may name.
pub open spec fn is_verb(v: Seq<char>) -> bool {
    ||| v == "LIST"@
    ||| v == "STATUS"@
    ||| v == "ADD"@
    ||| v == "DONE"@
    ||| v == "SHOW"@
}

/// `w` spells `v` letter for letter, ignoring ASCII case.
pub open spec fn spells_ignoring_case(w: Seq<char>, v: Seq<char>) -> bool {
    w.len() == v.len() && forall|i: int| 0 <= i < w.len() ==> ascii_upper(#[trigger] w[i]) == v[i]
}

proof fn lemma_space_index_none(s: Seq<char>)
    requires
        forall|i: int| 0 <= i < s.len() ==> s[i] != ' ',
    ensures
        space_index(s) == s.len(),
    decreases s.len(),
{
    if s.len() > 0 {
        assert(s[0] != ' ');
        lemma_space_index_none(s.drop_first());
    }
}

/// The line `"TROOP "` followed by a casing `x` of the verb `v` is its own
/// trimmed form, starts with the keyword, and names `v` with no argument.
proof fn lemma_verb_line(x: Seq<char>, v: Seq<char>)
    requires
        is_verb(v),
        spells_ignoring_case(x, v),
    ensures
        trim("TROOP "@ + x) == "TROOP "@ + x,
        has_keyword_prefix("TROOP "@ + x),
        trim(("TROOP "@ + x).subrange(6, ("TROOP "@ + x).len() as int)) == x,
        verb_part(x) == x,
        arg_part(x) == Seq::<char>::empty(),
        upper_form(x) == v,
{
    reveal_strlit("TROOP ");
    reveal_strlit("LIST");
    reveal_strlit("STATUS");
    reveal_strlit("ADD");
    reveal_strlit("DONE");
    reveal_strlit("SHOW");
    let kw = "TROOP "@;
    let line = kw + x;
    assert(x.len() >= 3);
    assert forall|i: int| 0 <= i < x.len() implies ('A' <= #[trigger] x[i] && x[i] <= 'Z') || (
    'a' <= x[i] && x[i] <= 'z') by {
        assert(ascii_upper(x[i]) == v[i]);
        assert('A' <= v[i] && v[i] <= 'Z');
    }
    assert(!is_ws(x[0]));
    assert(!is_ws(x.last()));
    assert(line[0] == 'T');
    assert(line.last() == x.last());
    assert(trim_start(line) == line);
    assert(trim_end(line) == line);
    assert forall|k: int| 0 <= k < kw.len() implies ascii_upper(#[trigger] line[k]) == kw[k] by {
        assert(line[k] == kw[k]);
    }
    assert(line.subrange(6, line.len() as int) =~= x);
    assert(trim_start(x) == x);
    assert(trim_end(x) == x);
    lemma_space_index_none(x);
    assert(x.subrange(0, x.len() as int) =~= x);
    assert(vstd::utf8::is_ascii_chars(x));
    assert(ascii_upper_text(x) =~= v);
}

/// The line `"TROOP "`, a casing `x` of the verb `v`, a space and the
/// argument `a` (trimmed, not empty) is its own trimmed form, starts with
/// the keyword, and names `v` with the argument `a`.
proof fn lemma_verb_arg_line(x: Seq<char>, v: Seq<char>, a: Seq<char>)
    requires
        is_verb(v),
        spells_ignoring_case(x, v),
        a.len() > 0,
        trim(a) == a,
    ensures
        trim("TROOP "@ + x + " "@ + a) == "TROOP "@ + x + " "@ + a,
        has_keyword_prefix("TROOP "@ + x + " "@ + a),
        trim(("TROOP "@ + x + " "@ + a).subrange(6, ("TROOP "@ + x + " "@ + a).len() as int))
            == x + " "@ + a,
        verb_part(x + " "@ + a) == x,
        arg_part(x + " "@ + a) == a,
        upper_form(x) == v,
{
    reveal_strlit("TROOP ");
    reveal_strlit(" ");
    reveal_strlit("LIST");
    reveal_strlit("STATUS");
    reveal_strlit("ADD");
    reveal_strlit("DONE");
    reveal_strlit("SHOW");
    lemma_verb_line(x, v);
    let kw = "TROOP "@;
    let sx = x + " "@ + a;
    let line = kw + sx;
    assert(line =~= kw + x + " "@ + a);
    lemma_trimmed_ends(a);
    assert(!is_ws(x[0]));
    assert(line[0] == 'T');
    assert(line.last() == a.last());
    assert(trim_start(line) == line);
    assert(trim_end(line) == line);
    assert forall|k: int| 0 <= k < kw.len() implies ascii_upper(#[trigger] line[k]) == kw[k] by {
        assert(line[k] == kw[k]);
    }
    assert(line.subrange(6, line.len() as int) =~= sx);
    assert(sx[0] == x[0]);
    assert(sx.last() == a.last());
    assert(trim_start(sx) == sx);
    assert(trim_end(sx) == sx);
    assert forall|i: int| 0 <= i < x.len() implies x[i] != ' ' by {
        assert(ascii_upper(x[i]) == v[i]);
    }
    assert(sx.subrange(0, x.len() as int) =~= x);
    lemma_space_index_split(x, sx);
    assert(sx.subrange(x.len() as int + 1, sx.len() as int) =~= a);
}

/// `trim_start` of a sequence is never longer than it.
proof fn lemma_trim_start_shorter(s: Seq<char>)
    ensures
        trim_start(s).len() <= s.len(),
    decreases s.len(),
{
    if s.len() > 0 && is_ws(s[0]) {
        lemma_trim_start_shorter(s.drop_first());
    }
}

/// `trim_end` of a sequence is never longer than it.
proof fn lemma_trim_end_not_longer(s: Seq<char>)
    ensures
        trim_end(s).len() <= s.len(),
    decreases s.len(),
{
    if s.len() > 0 && is_ws(s.last()) {
        lemma_trim_end_not_longer(s.drop_last());
    }
}

/// A non-empty text that `trim` leaves unchanged begins and ends with a
/// character that is not white space.
proof fn lemma_trimmed_ends(a: Seq<char>)
    requires
        a.len() > 0,
        trim(a) == a,
    ensures
        !is_ws(a[0]),
        !is_ws(a.last()),
{
    lemma_trim_start_shorter(a);
    lemma_trim_end_not_longer(trim_start(a));
    if is_ws(a[0]) {
        lemma_trim_start_shorter(a.drop_first());
    }
    assert(trim_start(a) == a);
    if is_ws(a.last()) {
        lemma_trim_end_not_longer(a.drop_last());
    }
}

/// The first space of `x + " " + ...` is the one right after `x`, when `x`
/// holds none.
proof fn lemma_space_index_split(x: Seq<char>, s: Seq<char>)
    requires
        x.len() < s.len(),
        s.subrange(0, x.len() as int) == x,
        s[x.len() as int] == ' ',
        forall|i: int| 0 <= i < x.len() ==> x[i] != ' ',
    ensures
        space_index(s) == x.len(),
    decreases x.len(),
{
    if x.len() > 0 {
        assert(s[0] == x[0]);
        assert(s.drop_first().subrange(0, x.drop_first().len() as int) =~= x.drop_first());
        lemma_space_index_split(x.drop_first(), s.drop_first());
    }
}

/// A command line with an argument: `"TROOP "`, a verb in any case, a space
/// and the argument `a` (trimmed, not empty) adds a task titled `a` whose
/// description is the trimmed body, or marks done or shows the task with id
/// `a`; `list` and `status` ignore the argument.
pub proof fn lemma_command_argument(w: Seq<char>, v: Seq<char>, a: Seq<char>, body: Seq<char>)
    requires
        is_verb(v),
        spells_ignoring_case(w, v),
        a.len() > 0,
        trim(a) == a,
    ensures
        v == "LIST"@ ==> command_of("TROOP "@ + w + " "@ + a, body) == CommandView::List,
        v == "STATUS"@ ==> command_of("TROOP "@ + w + " "@ + a, body) == CommandView::Status,
        v == "ADD"@ ==> command_of("TROOP "@ + w + " "@ + a, body) == (CommandView::Add {
            title: a,
            description: trim(body),
        }),
        v == "DONE"@ ==> command_of("TROOP "@ + w + " "@ + a, body) == (CommandView::Done {
            id: a,
        }),
        v == "SHOW"@ ==> command_of("TROOP "@ + w + " "@ + a, body) == (CommandView::Show {
            id: a,
        }),
{
    reveal_strlit("LIST");
    reveal_strlit("STATUS");
    reveal_strlit("ADD");
    reveal_strlit("DONE");
    reveal_strlit("SHOW");
    lemma_verb_arg_line(w, v, a);
}

/// The verb is matched ignoring case: the subject `"TROOP "` followed by any
/// casing of a verb (`list`, `List`, `lIsT`, ...) carries the same command
/// as the subject with the verb in capitals, whatever the body; for `list`
/// that command is `List`.
pub proof fn lemma_verb_case_ignored(w: Seq<char>, v: Seq<char>, body: Seq<char>)
    requires
        is_verb(v),
        spells_ignoring_case(w, v),
    ensures
        command_of("TROOP "@ + w, body) == command_of("TROOP "@ + v, body),
        v == "LIST"@ ==> command_of("TROOP "@ + w, body) == CommandView::List,
        v == "STATUS"@ ==> command_of("TROOP "@ + w, body) == CommandView::Status,
        v == "ADD"@ ==> command_of("TROOP "@ + w, body) == (CommandView::Add {
            title: "Untitled"@,
            description: trim(body),
        }),
        v == "DONE"@ ==> command_of("TROOP "@ + w, body) == (CommandView::Done {
            id: Seq::empty(),
        }),
        v == "SHOW"@ ==> command_of("TROOP "@ + w, body) == (CommandView::Show {
            id: Seq::empty(),
        }),
{
    reveal_strlit("LIST");
    reveal_strlit("STATUS");
    reveal_strlit("ADD");
    reveal_strlit("DONE");
    reveal_strlit("SHOW");
    assert(spells_ignoring_case(v, v)) by {
        assert forall|i: int| 0 <= i < v.len() implies ascii_upper(#[trigger] v[i]) == v[i] by {
            assert('A' <= v[i] && v[i] <= 'Z');
        }
    }
    reveal_strlit("Untitled");
    lemma_verb_line(w, v);
    lemma_verb_line(v, v);
    assert(trim(Seq::<char>::empty()) == Seq::<char>::empty());
}

/// When the subject carries no command, the body's first line does: a body
/// whose first line is `"TROOP "` followed by a verb in any case carries
/// that verb's command (an `add` without a title is titled `Untitled`),
/// whatever follows the line.
pub proof fn lemma_body_command(subject: Seq<char>, w: Seq<char>, v: Seq<char>, more: Seq<char>)
    requires
        !has_keyword_prefix(trim(subject)),
        !is_bare_keyword(trim(subject)),
        is_verb(v),
        spells_ignoring_case(w, v),
    ensures
        v == "LIST"@ ==> command_of(subject, "TROOP "@ + w + "\n"@ + more) == CommandView::List,
        v == "STATUS"@ ==> command_of(subject, "TROOP "@ + w + "\n"@ + more)
            == CommandView::Status,
        v == "ADD"@ ==> (command_of(subject, "TROOP "@ + w + "\n"@ + more) matches CommandView::Add {
            title,
            ..
        } && title == "Untitled"@),
        v == "DONE"@ ==> command_of(subject, "TROOP "@ + w + "\n"@ + more) == (CommandView::Done {
            id: Seq::empty(),
        }),
        v == "SHOW"@ ==> command_of(subject, "TROOP "@ + w + "\n"@ + more) == (CommandView::Show {
            id: Seq::empty(),
        }),
{
    reveal_strlit("TROOP ");
    reveal_strlit("\n");
    reveal_strlit("LIST");
    reveal_strlit("STATUS");
    reveal_strlit("ADD");
    reveal_strlit("DONE");
    reveal_strlit("SHOW");
    reveal_strlit("Untitled");
    lemma_verb_line(w, v);
    let line = "TROOP "@ + w;
    let body = "TROOP "@ + w + "\n"@ + more;
    assert(body =~= line + seq!['\n'] + more);
    assert forall|i: int| 0 <= i < w.len() implies ('A' <= #[trigger] w[i] && w[i] <= 'Z') || (
    'a' <= w[i] && w[i] <= 'z') by {
        assert(ascii_upper(w[i]) == v[i]);
    }
    assert(!has_char(line, '\n')) by {
        if has_char(line, '\n') {
            let j = choose|j: int| 0 <= j < line.len() && line[j] == '\n';
            if j >= 6 {
                assert(line[j] == w[j - 6]);
            }
        }
    }
    lemma_lines_cons(line, more);
    assert(line.last() == w.last());
    assert(strip_cr(line) == line);
    let ls = lines(body);
    assert(ls[0] == line);
    assert(trim(ls[0]) == line);
    lemma_first_text_line(ls, 0);
    assert(parse_line(trim(subject), body) is None);
    assert(trim(Seq::<char>::empty()) == Seq::<char>::empty());
}

// ── Parsing ───────────────────────────────────────────────────────────────────

/// Extract a `Command` from a message's subject and body.
///
/// Parsing rules (in priority order):
/// 1. If the **subject** starts with `TROOP ` the command follows.
/// 2. If the **first non-empty line** of the body starts with `TROOP ` the
///    command follows; subsequent lines become the description for `add`.
/// 3. Otherwise the raw subject is returned as `Unknown`.
pub fn parse_command(msg: &Message) -> (r: Command)
    ensures
        r@ == command_of(msg.subject@, msg.body@),
{
    let subject = trim_str(msg.subject.as_str());
    if let Some(cmd) = try_parse_line(subject, msg.body.as_str()) {
        return cmd;
    }
    let ls = split_lines(msg.body.as_str());
    let ghost gl = lines(msg.body@);
    let n = ls.len();
    let mut k: usize = 0;
    while k < n
        invariant
            k <= n,
            n == ls@.len(),
            gl == lines(msg.body@),
            gl.len() == n,
            forall|i: int| 0 <= i < n ==> #[trigger] ls@[i]@ == gl[i],
            forall|j: int| 0 <= j < k ==> trim(#[trigger] gl[j]).len() == 0,
            parse_line(trim(msg.subject@), msg.body@) is None,
        decreases n - k,
    {
        let first = trim_str(ls[k].as_str());
        if first.unicode_len() > 0 {
            proof {
                assert(ls@[k as int]@ == gl[k as int]);
                lemma_first_text_line(gl, k as int);
            }
            let rest = join_from(&ls, k + 1);
            proof {
                assert(ls@.subrange(k + 1, n as int).map_values(|s: String| s@) =~= gl.subrange(
                    k + 1,
                    n as int,
                ));
            }
            if let Some(cmd) = try_parse_line(first, rest.as_str()) {
                return cmd;
            }
            return Command::Unknown(copy_string(&msg.subject));
        }
        assert(ls@[k as int]@ == gl[k as int]);
        k = k + 1;
    }
    proof {
        assert(first_text_line(gl) is None) by {
            if exists|j: int| 0 <= j < gl.len() && trim(gl[j]).len() > 0 {
                let j = choose|j: int| 0 <= j < gl.len() && trim(gl[j]).len() > 0;
                assert(trim(gl[j]).len() == 0);
            }
        }
    }
    Command::Unknown(copy_string(&msg.subject))
}

/// The lines from index `from` on, joined with `"\n"`.
fn join_from(ls: &Vec<String>, from: usize) -> (r: String)
    requires
        from <= ls@.len(),
    ensures
        r@ == join_lines(ls@.subrange(from as int, ls@.len() as int).map_values(|s: String| s@)),
{
    let n = ls.len();
    let mut r = String::new();
    let mut i: usize = from;
    while i < n
        invariant
            from <= i <= n,
            n == ls@.len(),
            r@ == join_lines(ls@.subrange(from as int, i as int).map_values(|s: String| s@)),
        decreases n - i,
    {
        let ghost prev = ls@.subrange(from as int, i as int).map_values(|s: String| s@);
        let ghost next = ls@.subrange(from as int, i + 1).map_values(|s: String| s@);
        assert(next.drop_last() =~= prev);
        assert(next.last() == ls@[i as int]@);
        if i > from {
            r.append("\n");
        } else {
            assert(prev.len() == 0);
        }
        r.append(ls[i].as_str());
        proof {
            if i > from {
                assert(r@ =~= join_lines(prev) + "\n"@ + ls@[i as int]@);
            } else {
                assert(next.len() == 1);
                assert(r@ =~= next[0]);
            }
        }
        i = i + 1;
    }
    assert(ls@.subrange(from as int, n as int).map_values(|s: String| s@) =~= ls@.subrange(
        from as int,
        ls@.len() as int,
    ).map_values(|s: String| s@));
    r
}

fn keyword_prefix(v: &Vec<char>, word: &str) -> (r: bool)
    ensures
        r == ascii_ci_prefix(v@, word@),
{
    let w = chars_of(word);
    if w.len() > v.len() {
        return false;
    }
    let mut k: usize = 0;
    while k < w.len()
        invariant
            k <= w@.len() <= v@.len(),
            w@ == word@,
            forall|j: int| 0 <= j < k ==> ascii_upper(#[trigger] v@[j]) == w@[j],
        decreases w@.len() - k,
    {
        if to_ascii_upper(v[k]) != w[k] {
            return false;
        }
        k = k + 1;
    }
    true
}

/// Index of the first space in `v`, or its length.
fn find_space(v: &Vec<char>) -> (r: usize)
    ensures
        r as int == space_index(v@),
        r <= v@.len(),
{
    let n = v.len();
    let mut i: usize = 0;
    assert(v@.subrange(0, n as int) =~= v@);
    while i < n
        invariant
            i <= n,
            n == v@.len(),
            space_index(v@) == i + space_index(v@.subrange(i as int, n as int)),
        decreases n - i,
    {
        if v[i] == ' ' {
            assert(v@.subrange(i as int, n as int)[0] == ' ');
            return i;
        }
        assert(v@.subrange(i as int, n as int).drop_first() =~= v@.subrange(i + 1, n as int));
        i = i + 1;
    }
    assert(v@.subrange(i as int, n as int).len() == 0);
    i
}

fn try_parse_line(line: &str, rest: &str) -> (r: Option<Command>)
    ensures
        match r {
            Some(c) => parse_line(line@, rest@) == Some(c@),
            None => parse_line(line@, rest@) is None,
        },
{
    let v = chars_of(line);
    proof {
        reveal_strlit("TROOP ");
        reveal_strlit("TROOP");
    }
    if !keyword_prefix(&v, "TROOP ") {
        if v.len() == 5 && keyword_prefix(&v, "TROOP") {
            return Some(Command::List);
        }
        return None;
    }
    let tail = line.substring_char(6, line.unicode_len());
    let stripped = trim_str(tail);
    let sv = chars_of(stripped);
    let sp = find_space(&sv);
    let verb_raw = stripped.substring_char(0, sp);
    let arg_raw = if sp < sv.len() {
        stripped.substring_char(sp + 1, sv.len())
    } else {
        ""
    };
    proof {
        reveal_strlit("");
    }
    let arg = trim_str(arg_raw);
    let verb = to_upper(verb_raw);
    let verb = verb.as_str();
    assert(has_keyword_prefix(line@));
    assert(stripped@ == trim(line@.subrange(6, line@.len() as int)));
    assert(verb_raw@ == verb_part(stripped@));
    assert(arg_raw@ == arg_part(stripped@));
    assert(verb@ == upper_form(verb_part(stripped@)));
    let cmd = if str_eq(verb, "LIST") {
        Command::List
    } else if str_eq(verb, "STATUS") {
        Command::Status
    } else if str_eq(verb, "ADD") {
        let title = if arg.unicode_len() == 0 {
            "Untitled".to_owned()
        } else {
            arg.to_owned()
        };
        let description = trim_str(rest).to_owned();
        Command::Add { title, description }
    } else if str_eq(verb, "DONE") {
        Command::Done { id: arg.to_owned() }
    } else if str_eq(verb, "SHOW") {
        Command::Show { id: arg.to_owned() }
    } else {
        Command::Unknown(stripped.to_owned())
    };
    Some(cmd)
}


// ── Execution ─────────────────────────────────────────────────────────────────

/// What a command asks of the task store.
pub enum CommandAction {
    /// Answer with this text; the store is not involved.
    Reply(String),
    /// Answer with the pending tasks (`list_reply`).
    ListPending,
    /// Answer with the task counts (`status_reply`).
    CountTasks,
    /// Store this new task, then answer with `added_reply`.
    CreateTask(Task),
    /// Move the task with this id to done, then answer with `done_reply`.
    MarkDone(String),
    /// Load the task with this id, then answer with `show_reply`.
    ShowTask(String),
}

/// The task a message asks for, with the given id, creation time, title
/// and description; sender, source and message id come from the message.
pub open spec fn requested_task(
    msg: Message,
    id: Seq<char>,
    now: (i64, u32),
    title: Seq<char>,
    description: Seq<char>,
) -> TaskView {
    TaskView {
        id,
        title,
        description,
        created: now,
        from: msg.from@,
        source: msg.source@,
        done: false,
        message_id: if msg.headers@.contains_key("message-id"@) {
            Some(msg.headers@["message-id"@])
        } else {
            None
        },
    }
}

/// The action for a command, given the id and creation time a new task
/// would get.
pub open spec fn command_plan(
    cmd: CommandView,
    msg: Message,
    id: Seq<char>,
    now: (i64, u32),
    act: CommandAction,
) -> bool {
    match cmd {
        CommandView::List => act is ListPending,
        CommandView::Status => act is CountTasks,
        CommandView::Add { title, description } => match act {
            CommandAction::CreateTask(t) => t@ == requested_task(msg, id, now, title, description),
            _ => false,
        },
        CommandView::Done { id: tid } => if tid.len() == 0 {
            act matches CommandAction::Reply(s) && s@ == "Usage: TROOP done <id>"@
        } else {
            act matches CommandAction::MarkDone(s) && s@ == tid
        },
        CommandView::Show { id: tid } => if tid.len() == 0 {
            act matches CommandAction::Reply(s) && s@ == "Usage: TROOP show <id>"@
        } else {
            act matches CommandAction::ShowTask(s) && s@ == tid
        },
        CommandView::Unknown(_) => match act {
            CommandAction::CreateTask(t) => t@ == requested_task(
                msg,
                id,
                now,
                msg.subject@,
                msg.body@,
            ),
            _ => false,
        },
    }
}

fn new_task(msg: &Message, id: String, now: Timestamp, title: &str, description: &str) -> (r: Task)
    ensures
        r@ == requested_task(*msg, id@, now@, title@, description@),
{
    proof {
        reveal_strlit("message-id");
    }
    let message_id = match msg.headers.get("message-id") {
        Some(v) => Some(copy_string(v)),
        None => None,
    };
    Task {
        id,
        title: title.to_owned(),
        description: description.to_owned(),
        created: now,
        from: copy_string(&msg.from),
        source: copy_string(&msg.source),
        done: false,
        message_id,
    }
}

/// Decide what `cmd` (from `msg`) asks of the store: a message that names
/// no command becomes a task titled with its subject, its body the
/// description.  A new task gets the
/// id `id` and the creation time `now`.
pub fn plan_command(cmd: &Command, msg: &Message, id: String, now: Timestamp) -> (r: CommandAction)
    ensures
        command_plan(cmd@, *msg, id@, now@, r),
{
    match cmd {
        Command::List => CommandAction::ListPending,
        Command::Status => CommandAction::CountTasks,
        Command::Add { title, description } => CommandAction::CreateTask(
            new_task(msg, id, now, title.as_str(), description.as_str()),
        ),
        Command::Done { id: tid } => {
            if tid.as_str().unicode_len() == 0 {
                CommandAction::Reply("Usage: TROOP done <id>".to_owned())
            } else {
                CommandAction::MarkDone(copy_string(tid))
            }
        },
        Command::Show { id: tid } => {
            if tid.as_str().unicode_len() == 0 {
                CommandAction::Reply("Usage: TROOP show <id>".to_owned())
            } else {
                CommandAction::ShowTask(copy_string(tid))
            }
        },
        Command::Unknown(_) => CommandAction::CreateTask(
            new_task(msg, id, now, msg.subject.as_str(), msg.body.as_str()),
        ),
    }
}

/// Decide what `cmd` asks of the store; a new task gets a fresh random id
/// and the current time.
pub fn command_action(cmd: &Command, msg: &Message) -> (r: CommandAction)
    ensures
        exists|id: Seq<char>, now: (i64, u32)| command_plan(cmd@, *msg, id, now, r),
        r matches CommandAction::CreateTask(t) ==> {
            &&& t.id@.len() == 8
            &&& forall|i: int| 0 <= i < 8 ==> is_lower_hex(#[trigger] t.id@[i])
            &&& id_check(t.id@) is Ok
        },
{
    let id = Storage::new_id();
    let ghost gid = id@;
    let now = Timestamp::now();
    let ghost gnow = now@;
    let r = plan_command(cmd, msg, id, now);
    assert(command_plan(cmd@, *msg, gid, gnow, r));
    r
}

/// The line of one task in a listing: `[id] title`.
pub open spec fn task_line(t: TaskView) -> Seq<char> {
    "["@ + t.id + "] "@ + t.title
}

pub open spec fn task_lines(ts: Seq<Task>) -> Seq<Seq<char>> {
    ts.map_values(|t: Task| task_line(t@))
}

/// The answer to `list`.
pub open spec fn list_reply_text(ts: Seq<Task>) -> Seq<char> {
    if ts.len() == 0 {
        "No pending tasks."@
    } else {
        "Pending tasks:\n"@ + join_lines(task_lines(ts))
    }
}

pub fn list_reply(tasks: &[Task]) -> (r: String)
    ensures
        r@ == list_reply_text(tasks@),
{
    if tasks.len() == 0 {
        return "No pending tasks.".to_owned();
    }
    let mut r = "Pending tasks:\n".to_owned();
    let ghost head = r@;
    let n = tasks.len();
    let mut i: usize = 0;
    while i < n
        invariant
            i <= n,
            n == tasks@.len(),
            r@ == head + join_lines(task_lines(tasks@.subrange(0, i as int))),
        decreases n - i,
    {
        let ghost prev = task_lines(tasks@.subrange(0, i as int));
        let ghost next = task_lines(tasks@.subrange(0, i + 1));
        assert(next.drop_last() =~= prev);
        assert(next.last() == task_line(tasks@[i as int]@));
        if i > 0 {
            r.append("\n");
        }
        r.append("[");
        r.append(tasks[i].id.as_str());
        r.append("] ");
        r.append(tasks[i].title.as_str());
        proof {
            if i > 0 {
                assert(r@ =~= head + (join_lines(prev) + "\n"@ + next.last()));
            } else {
                assert(prev.len() == 0);
                assert(next.len() == 1);
                assert(r@ =~= head + next[0]);
            }
        }
        i = i + 1;
    }
    assert(tasks@.subrange(0, n as int) =~= tasks@);
    r
}

/// The answer to `status`.
pub fn status_reply(todo: usize, done: usize) -> (r: String)
    ensures
        r@ == "Tasks: "@ + decimal(todo as nat) + " pending, "@ + decimal(done as nat) + " done."@,
{
    let mut r = "Tasks: ".to_owned();
    r.append(usize_to_decimal(todo).as_str());
    r.append(" pending, ");
    r.append(usize_to_decimal(done).as_str());
    r.append(" done.");
    r
}

/// The answer to an `add` that was stored.
pub fn added_reply(id: &str, title: &str) -> (r: String)
    ensures
        r@ == "Task added: ["@ + id@ + "] "@ + title@,
{
    let mut r = "Task added: [".to_owned();
    r.append(id);
    r.append("] ");
    r.append(title);
    r
}

pub open spec fn not_found_text(id: Seq<char>) -> Seq<char> {
    "Task ["@ + id + "] not found."@
}

/// The answer to `done`, by whether the task was found.
pub fn done_reply(id: &str, found: bool) -> (r: String)
    ensures
        r@ == if found {
            "Task ["@ + id@ + "] marked as done."@
        } else {
            not_found_text(id@)
        },
{
    let mut r = "Task [".to_owned();
    r.append(id);
    if found {
        r.append("] marked as done.");
    } else {
        r.append("] not found.");
    }
    r
}

/// The answer to `show` for a task that was found.
pub open spec fn show_text(t: TaskView) -> Seq<char> {
    "["@ + t.id + "] "@ + t.title + " ("@ + (if t.done {
        "done"@
    } else {
        "pending"@
    }) + ")\nFrom: "@ + t.from + "\nCreated: "@ + chrono_format(
        t.created.0,
        t.created.1,
        "%Y-%m-%d %H:%M UTC"@,
    ) + "\n\n"@ + if t.description.len() == 0 {
        "(no description)"@
    } else {
        t.description
    }
}

/// The answer to `show`.
pub fn show_reply(id: &str, task: Option<&Task>) -> (r: String)
    ensures
        r@ == match task {
            Some(t) => show_text(t@),
            None => not_found_text(id@),
        },
{
    match task {
        None => {
            let mut r = "Task [".to_owned();
            r.append(id);
            r.append("] not found.");
            r
        },
        Some(t) => {
            proof {
                reveal_strlit("%Y-%m-%d %H:%M UTC");
            }
            let mut r = "[".to_owned();
            r.append(t.id.as_str());
            r.append("] ");
            r.append(t.title.as_str());
            r.append(" (");
            r.append(if t.done { "done" } else { "pending" });
            r.append(")\nFrom: ");
            r.append(t.from.as_str());
            r.append("\nCreated: ");
            let created = t.created.format("%Y-%m-%d %H:%M UTC");
            r.append(created.as_str());
            r.append("\n\n");
            if t.description.as_str().unicode_len() == 0 {
                r.append("(no description)");
            } else {
                r.append(t.description.as_str());
            }
            r
        },
    }
}
} // verus!
