//! Tasks and their files.
//!
//! Every task is a Markdown file: pending tasks live in the todo directory,
//! completed ones in the done directory, and a completed task whose reply has
//! been sent is renamed to start with a dot.  This module holds the file
//! format, the naming rules and the decisions; reading and writing the files
//! is done by the caller.
use vstd::prelude::*;

use crate::commands::join_lines;
use crate::config::StorageConfig;
use crate::text::{
    chars_of, copy_string, has_char, is_ascii_alnum, trim_end, trim_start, lemma_lines_cons, lemma_lines_single,
    lemma_newline_index_bounds, lines, newline_index, split_lines, starts_with, str_eq,
    str_starts_with, strip_cr, trim, trim_str,
};
use crate::time::{four_digit_year, later, rfc3339_parse, rfc3339_text, Timestamp};
use vstd::string::StringSliceAdditionalSpecFns;
use vstd::utf8::{encode_utf8, is_ascii_chars, is_ascii_chars_encode_utf8};

verus! {

// ── Task model ────────────────────────────────────────────────────────────────

#[derive(Debug)]
pub struct Task {
    pub id: String,
    pub title: String,
    pub description: String,
    pub created: Timestamp,
    pub from: String,
    pub source: String,
    pub done: bool,
    /// The message id of the e-mail that created the task, if any; replies
    /// about the task refer to it in `In-Reply-To`.
    pub message_id: Option<String>,
}

pub struct TaskView {
    pub id: Seq<char>,
    pub title: Seq<char>,
    pub description: Seq<char>,
    pub created: (i64, u32),
    pub from: Seq<char>,
    pub source: Seq<char>,
    pub done: bool,
    pub message_id: Option<Seq<char>>,
}

pub open spec fn opt_view(o: Option<String>) -> Option<Seq<char>> {
    match o {
        Some(s) => Some(s@),
        None => None,
    }
}

impl View for Task {
    type V = TaskView;

    open spec fn view(&self) -> TaskView {
        TaskView {
            id: self.id@,
            title: self.title@,
            description: self.description@,
            created: self.created@,
            from: self.from@,
            source: self.source@,
            done: self.done,
            message_id: opt_view(self.message_id),
        }
    }
}

fn copy_opt(o: &Option<String>) -> (r: Option<String>)
    ensures
        opt_view(r) == opt_view(*o),
{
    match o {
        Some(s) => Some(copy_string(s)),
        None => None,
    }
}

impl Task {
    pub fn copy(&self) -> (r: Task)
        ensures
            r@ == self@,
    {
        Task {
            id: copy_string(&self.id),
            title: copy_string(&self.title),
            description: copy_string(&self.description),
            created: self.created.copy(),
            from: copy_string(&self.from),
            source: copy_string(&self.source),
            done: self.done,
            message_id: copy_opt(&self.message_id),
        }
    }
}

// ── File format ───────────────────────────────────────────────────────────────
//
// Lines 1-N are metadata in "key: value" form until the first "---" separator.
// Everything after "---\n" is the markdown body (title as heading + description).
//
//   id: a1b2c3d4
//   created: 2024-01-01T12:00:00Z
//   from: user@example.com
//   source: imap:main
//   ---
//   # Task Title
//
//   Task description here.

/// The text of a task file.
pub open spec fn task_file_text(t: TaskView) -> Seq<char> {
    "id: "@ + t.id + "\n"@ + "created: "@ + rfc3339_text(t.created.0, t.created.1) + "\n"@
        + "from: "@ + t.from + "\n"@ + "source: "@ + t.source + "\n"@ + match t.message_id {
        Some(m) => "message_id: "@ + m + "\n"@,
        None => Seq::empty(),
    } + "---\n"@ + "# "@ + t.title + "\n"@ + if t.description.len() > 0 {
        "\n"@ + t.description + "\n"@
    } else {
        Seq::empty()
    }
}

fn append_field(s: &mut String, key: &str, value: &str)
    ensures
        final(s)@ == old(s)@ + key@ + value@ + "\n"@,
{
    s.append(key);
    s.append(value);
    s.append("\n");
}

/// The text of the file that stores `task`.
pub fn format_task_file(task: &Task) -> (r: String)
    ensures
        r@ == task_file_text(task@),
        line_safe(rfc3339_text(task@.created.0, task@.created.1)),
        four_digit_year(task@.created) ==> rfc3339_parse(
            rfc3339_text(task@.created.0, task@.created.1),
        ) == Some(task@.created),
{
    let mut s = String::new();
    append_field(&mut s, "id: ", task.id.as_str());
    let created = task.created.to_rfc3339();
    append_field(&mut s, "created: ", created.as_str());
    append_field(&mut s, "from: ", task.from.as_str());
    append_field(&mut s, "source: ", task.source.as_str());
    let ghost head = s@;
    if let Some(mid) = &task.message_id {
        append_field(&mut s, "message_id: ", mid.as_str());
    }
    let ghost with_mid = s@;
    s.append("---\n");
    append_field(&mut s, "# ", task.title.as_str());
    let ghost with_title = s@;
    if task.description.as_str().unicode_len() > 0 {
        s.append("\n");
        s.append(task.description.as_str());
        s.append("\n");
    }
    proof {
        let mid_part: Seq<char> = match task@.message_id {
            Some(m) => "message_id: "@ + m + "\n"@,
            None => Seq::empty(),
        };
        assert(with_mid =~= head + mid_part);
        let desc_part: Seq<char> = if task@.description.len() > 0 {
            "\n"@ + task@.description + "\n"@
        } else {
            Seq::empty()
        };
        assert(s@ =~= with_title + desc_part);
        assert(s@ =~= task_file_text(task@));
    }
    s
}

/// Scanning state while reading a task file line by line.
pub struct ScanState {
    pub id: Seq<char>,
    pub created: Option<(i64, u32)>,
    pub from: Seq<char>,
    pub source: Seq<char>,
    pub message_id: Option<Seq<char>>,
    pub title: Seq<char>,
    pub found_title: bool,
    pub in_body: bool,
    pub body: Seq<Seq<char>>,
}

pub open spec fn scan_start() -> ScanState {
    ScanState {
        id: Seq::empty(),
        created: None,
        from: Seq::empty(),
        source: Seq::empty(),
        message_id: None,
        title: Seq::empty(),
        found_title: false,
        in_body: false,
        body: Seq::empty(),
    }
}

/// `line` with the prefix `p` removed (it starts with `p`).
pub open spec fn after(line: Seq<char>, p: Seq<char>) -> Seq<char> {
    line.subrange(p.len() as int, line.len() as int)
}

/// One line of a task file: metadata `key: value` lines until the `---`
/// separator, then the first `# ` line as the title and the rest as body.
pub open spec fn scan_step(st: ScanState, line: Seq<char>) -> ScanState {
    if !st.in_body {
        if line == "---"@ {
            ScanState { in_body: true, ..st }
        } else if starts_with(line, "id: "@) {
            ScanState { id: after(line, "id: "@), ..st }
        } else if starts_with(line, "created: "@) {
            match rfc3339_parse(after(line, "created: "@)) {
                Some(t) => ScanState { created: Some(t), ..st },
                None => st,
            }
        } else if starts_with(line, "from: "@) {
            ScanState { from: after(line, "from: "@), ..st }
        } else if starts_with(line, "source: "@) {
            ScanState { source: after(line, "source: "@), ..st }
        } else if starts_with(line, "message_id: "@) {
            ScanState { message_id: Some(after(line, "message_id: "@)), ..st }
        } else {
            st
        }
    } else if st.title.len() == 0 && !st.found_title && starts_with(line, "# "@) {
        ScanState { title: after(line, "# "@), found_title: true, ..st }
    } else {
        ScanState { body: st.body.push(line), ..st }
    }
}

/// The state after reading the lines `ls` from state `st`.
pub open spec fn scan_from(st: ScanState, ls: Seq<Seq<char>>) -> ScanState
    decreases ls.len(),
{
    if ls.len() == 0 {
        st
    } else {
        scan_step(scan_from(st, ls.drop_last()), ls.last())
    }
}

pub open spec fn scan(ls: Seq<Seq<char>>) -> ScanState {
    scan_from(scan_start(), ls)
}

/// Lines with the leading blank (all white space) lines removed.
pub open spec fn drop_blank_front(ls: Seq<Seq<char>>) -> Seq<Seq<char>>
    decreases ls.len(),
{
    if ls.len() > 0 && trim(ls[0]).len() == 0 {
        drop_blank_front(ls.drop_first())
    } else {
        ls
    }
}

/// Lines with the trailing blank lines removed.
pub open spec fn drop_blank_back(ls: Seq<Seq<char>>) -> Seq<Seq<char>>
    decreases ls.len(),
{
    if ls.len() > 0 && trim(ls.last()).len() == 0 {
        drop_blank_back(ls.drop_last())
    } else {
        ls
    }
}

/// `Path::file_stem` of a file name: the part before the last `.`, unless
/// that `.` is the first character (then the whole name).
pub open spec fn file_stem(name: Seq<char>) -> Seq<char> {
    if name == ".."@ {
        name
    } else if exists|i: int| 0 < i < name.len() && name[i] == '.' {
        let i = choose|i: int|
            0 < i < name.len() && name[i] == '.' && forall|j: int|
                i < j < name.len() ==> name[j] != '.';
        name.subrange(0, i)
    } else {
        name
    }
}

/// `Path::extension` of a file name: the part after the last `.`, unless
/// that `.` is the first character.
pub open spec fn file_ext(name: Seq<char>) -> Option<Seq<char>> {
    if name == ".."@ {
        None
    } else if exists|i: int| 0 < i < name.len() && name[i] == '.' {
        let i = choose|i: int|
            0 < i < name.len() && name[i] == '.' && forall|j: int|
                i < j < name.len() ==> name[j] != '.';
        Some(name.subrange(i + 1, name.len() as int))
    } else {
        None
    }
}

/// At most one leading `.` removed.
pub open spec fn strip_dot(s: Seq<char>) -> Seq<char> {
    if s.len() > 0 && s[0] == '.' {
        s.drop_first()
    } else {
        s
    }
}

/// The task read from a file named `file_name` holding `content`.
/// `now` stands in for a missing or unreadable creation time.
pub open spec fn parsed_task(
    file_name: Seq<char>,
    content: Seq<char>,
    done: bool,
    now: (i64, u32),
) -> TaskView {
    let st = scan(lines(content));
    let id = if st.id.len() == 0 {
        strip_dot(file_stem(file_name))
    } else {
        st.id
    };
    TaskView {
        id,
        title: if st.title.len() == 0 {
            id
        } else {
            st.title
        },
        description: join_lines(drop_blank_back(drop_blank_front(st.body))),
        created: match st.created {
            Some(t) => t,
            None => now,
        },
        from: st.from,
        source: st.source,
        done,
        message_id: st.message_id,
    }
}

fn rest_after(line: &str, n: usize) -> (r: String)
    requires
        n <= line@.len(),
    ensures
        r@ == line@.subrange(n as int, line@.len() as int),
{
    line.substring_char(n, line.unicode_len()).to_owned()
}

/// Reads a task from the text of its file.  `file_name` is the file's name
/// (the id falls back to its stem); `now` is used when the file gives no
/// readable creation time.
pub fn parse_task_file(file_name: &str, content: &str, done: bool, now: Timestamp) -> (r: Task)
    ensures
        r@ == parsed_task(file_name@, content@, done, now@),
{
    let ls = split_lines(content);
    let ghost gl = lines(content@);
    let mut id = String::new();
    let mut created: Option<Timestamp> = None;
    let mut from = String::new();
    let mut source = String::new();
    let mut message_id: Option<String> = None;
    let mut title = String::new();
    let mut found_title = false;
    let mut in_body = false;
    let mut body: Vec<String> = Vec::new();
    let n = ls.len();
    let mut i: usize = 0;
    proof {
        reveal_strlit("---");
        reveal_strlit("id: ");
        reveal_strlit("created: ");
        reveal_strlit("from: ");
        reveal_strlit("source: ");
        reveal_strlit("message_id: ");
        reveal_strlit("# ");
        assert(gl.take(0) =~= Seq::<Seq<char>>::empty());
    }
    while i < n
        invariant
            i <= n,
            n == ls@.len(),
            gl == lines(content@),
            gl.len() == n,
            forall|t: int| 0 <= t < n ==> #[trigger] ls@[t]@ == gl[t],
            ({
                let st = scan(gl.take(i as int));
                &&& st.id == id@
                &&& st.created == (match created {
                    Some(t) => Some(t@),
                    None => None::<(i64, u32)>,
                })
                &&& st.from == from@
                &&& st.source == source@
                &&& st.message_id == opt_view(message_id)
                &&& st.title == title@
                &&& st.found_title == found_title
                &&& st.in_body == in_body
                &&& st.body == body@.map_values(|b: String| b@)
            }),
        decreases n - i,
    {
        let line = ls[i].as_str();
        proof {
            reveal_strlit("---");
            reveal_strlit("id: ");
            reveal_strlit("created: ");
            reveal_strlit("from: ");
            reveal_strlit("source: ");
            reveal_strlit("message_id: ");
            reveal_strlit("# ");
            assert(gl.take(i + 1).drop_last() =~= gl.take(i as int));
            assert(gl.take(i + 1).last() == line@);
        }
        if !in_body {
            if str_eq(line, "---") {
                in_body = true;
            } else if str_starts_with(line, "id: ") {
                id = rest_after(line, 4);
            } else if str_starts_with(line, "created: ") {
                let val = rest_after(line, 9);
                if let Some(t) = Timestamp::parse_rfc3339(val.as_str()) {
                    created = Some(t);
                }
            } else if str_starts_with(line, "from: ") {
                from = rest_after(line, 6);
            } else if str_starts_with(line, "source: ") {
                source = rest_after(line, 8);
            } else if str_starts_with(line, "message_id: ") {
                message_id = Some(rest_after(line, 12));
            }
        } else {
            let is_title = title.as_str().unicode_len() == 0 && !found_title && str_starts_with(
                line,
                "# ",
            );
            if is_title {
                title = rest_after(line, 2);
                found_title = true;
            } else {
                let ghost before = body@;
                body.push(line.to_owned());
                assert(body@.map_values(|b: String| b@) =~= before.map_values(|b: String| b@).push(
                    line@,
                ));
            }
        }
        i = i + 1;
    }
    assert(gl.take(n as int) =~= gl);
    let ghost st = scan(gl);
    // Strip leading/trailing blank lines from the description.
    let ghost bv = body@.map_values(|b: String| b@);
    let mut lo: usize = 0;
    assert(bv.subrange(0, bv.len() as int) =~= bv);
    while lo < body.len() && trim_str(body[lo].as_str()).unicode_len() == 0
        invariant
            lo <= body@.len(),
            bv == body@.map_values(|b: String| b@),
            drop_blank_front(bv) == drop_blank_front(bv.subrange(lo as int, bv.len() as int)),
        decreases body@.len() - lo,
    {
        assert(bv.subrange(lo as int, bv.len() as int).drop_first() =~= bv.subrange(
            lo + 1,
            bv.len() as int,
        ));
        assert(bv.subrange(lo as int, bv.len() as int)[0] == body@[lo as int]@);
        lo = lo + 1;
    }
    let ghost front = bv.subrange(lo as int, bv.len() as int);
    proof {
        if lo < body@.len() {
            assert(front[0] == body@[lo as int]@);
        }
        assert(drop_blank_front(front) == front);
    }
    let mut hi: usize = body.len();
    while hi > lo && trim_str(body[hi - 1].as_str()).unicode_len() == 0
        invariant
            lo <= hi <= body@.len(),
            bv == body@.map_values(|b: String| b@),
            front == bv.subrange(lo as int, bv.len() as int),
            drop_blank_back(front) == drop_blank_back(bv.subrange(lo as int, hi as int)),
        decreases hi,
    {
        assert(bv.subrange(lo as int, hi as int).drop_last() =~= bv.subrange(
            lo as int,
            hi - 1,
        ));
        assert(bv.subrange(lo as int, hi as int).last() == body@[hi - 1]@);
        hi = hi - 1;
    }
    let ghost kept = bv.subrange(lo as int, hi as int);
    proof {
        if hi > lo {
            assert(kept.last() == body@[hi - 1]@);
        }
        assert(drop_blank_back(kept) == kept);
        assert(front.subrange(0, (hi - lo) as int) =~= kept);
    }
    let description = join_range(&body, lo, hi);
    proof {
        assert(body@.subrange(lo as int, hi as int).map_values(|b: String| b@) =~= kept);
    }
    let id = if id.as_str().unicode_len() == 0 {
        let stem = file_stem_of(file_name);
        strip_one_dot(stem.as_str())
    } else {
        id
    };
    let title = if title.as_str().unicode_len() == 0 {
        copy_string(&id)
    } else {
        title
    };
    let created = match created {
        Some(t) => t,
        None => now,
    };
    Task { id, title, description, created, from, source, done, message_id }
}

/// Lines `lo..hi` joined with `"\n"`.
fn join_range(ls: &Vec<String>, lo: usize, hi: usize) -> (r: String)
    requires
        lo <= hi <= ls@.len(),
    ensures
        r@ == join_lines(ls@.subrange(lo as int, hi as int).map_values(|s: String| s@)),
{
    let mut r = String::new();
    let mut i: usize = lo;
    while i < hi
        invariant
            lo <= i <= hi <= ls@.len(),
            r@ == join_lines(ls@.subrange(lo as int, i as int).map_values(|s: String| s@)),
        decreases hi - i,
    {
        let ghost prev = ls@.subrange(lo as int, i as int).map_values(|s: String| s@);
        let ghost next = ls@.subrange(lo as int, i + 1).map_values(|s: String| s@);
        assert(next.drop_last() =~= prev);
        assert(next.last() == ls@[i as int]@);
        if i > lo {
            r.append("\n");
        }
        r.append(ls[i].as_str());
        proof {
            if i > lo {
                assert(r@ =~= join_lines(prev) + "\n"@ + ls@[i as int]@);
            } else {
                assert(next.len() == 1);
                assert(r@ =~= next[0]);
            }
        }
        i = i + 1;
    }
    r
}

fn strip_one_dot(s: &str) -> (r: String)
    ensures
        r@ == strip_dot(s@),
{
    let n = s.unicode_len();
    if n > 0 && s.get_char(0) == '.' {
        let r = s.substring_char(1, n).to_owned();
        assert(s@.drop_first() =~= s@.subrange(1, n as int));
        r
    } else {
        s.to_owned()
    }
}

/// Index of the last `.` of a file name that is not its first character.
fn last_dot(v: &Vec<char>) -> (r: Option<usize>)
    ensures
        match r {
            Some(i) => 0 < i < v@.len() && v@[i as int] == '.' && forall|j: int|
                i < j < v@.len() ==> v@[j] != '.',
            None => !exists|i: int| 0 < i < v@.len() && v@[i] == '.',
        },
{
    let mut k: usize = v.len();
    while k > 1
        invariant
            k <= v@.len(),
            forall|j: int| k <= j < v@.len() ==> v@[j] != '.',
        decreases k,
    {
        if v[k - 1] == '.' {
            return Some(k - 1);
        }
        k = k - 1;
    }
    None
}

proof fn lemma_last_dot_unique(name: Seq<char>, i: int)
    requires
        0 < i < name.len(),
        name[i] == '.',
        forall|j: int| i < j < name.len() ==> name[j] != '.',
    ensures
        (choose|w: int|
            0 < w < name.len() && name[w] == '.' && forall|j: int|
                w < j < name.len() ==> name[j] != '.') == i,
{
    let w = choose|w: int|
        0 < w < name.len() && name[w] == '.' && forall|j: int| w < j < name.len() ==> name[j] != '.';
    assert(0 < i < name.len() && name[i] == '.' && forall|j: int|
        i < j < name.len() ==> name[j] != '.');
    if w < i {
        assert(name[i] != '.');
    }
    if w > i {
        assert(name[w] != '.');
    }
}

fn is_dotdot(name: &str) -> (r: bool)
    ensures
        r == (name@ == ".."@),
{
    str_eq(name, "..")
}

pub fn file_stem_of(name: &str) -> (r: String)
    ensures
        r@ == file_stem(name@),
{
    if is_dotdot(name) {
        return name.to_owned();
    }
    let v = chars_of(name);
    match last_dot(&v) {
        Some(i) => {
            proof {
                lemma_last_dot_unique(name@, i as int);
            }
            name.substring_char(0, i).to_owned()
        },
        None => name.to_owned(),
    }
}

/// The file name has the extension `md`.
pub fn has_md_extension(name: &str) -> (r: bool)
    ensures
        r == (file_ext(name@) == Some("md"@)),
{
    if is_dotdot(name) {
        return false;
    }
    let v = chars_of(name);
    match last_dot(&v) {
        Some(i) => {
            proof {
                lemma_last_dot_unique(name@, i as int);
            }
            assert(i < v.len());
            let ext = name.substring_char(i + 1, v.len());
            str_eq(ext, "md")
        },
        None => false,
    }
}

// ── Storage ───────────────────────────────────────────────────────────────────

/// Why an id was refused.
#[derive(Debug, Clone, Copy, PartialEq, Eq, Structural)]
pub enum StorageError {
    /// Empty, or longer than 64 bytes.
    InvalidIdLength,
    /// A character other than an ASCII letter, digit or `-`.
    InvalidIdChars,
}

impl StorageError {
    /// The error text.
    pub fn message(&self) -> (r: &'static str)
        ensures
            r@ == match *self {
                StorageError::InvalidIdLength => "invalid task id length"@,
                StorageError::InvalidIdChars => "task id contains invalid characters"@,
            },
    {
        match self {
            StorageError::InvalidIdLength => "invalid task id length",
            StorageError::InvalidIdChars => "task id contains invalid characters",
        }
    }
}

/// An id character: an ASCII letter, digit or hyphen.
pub open spec fn id_char(c: char) -> bool {
    is_ascii_alnum(c) || c == '-'
}

/// What `validate_id` answers for an id with these characters.
pub open spec fn id_check(id: Seq<char>) -> Result<(), StorageError> {
    if id.len() == 0 || encode_utf8(id).len() > 64 {
        Err(StorageError::InvalidIdLength)
    } else if exists|i: int| 0 <= i < id.len() && !id_char(id[i]) {
        Err(StorageError::InvalidIdChars)
    } else {
        Ok(())
    }
}

/// `Path::join` of a directory and a relative file name on Unix.
pub open spec fn join_path(dir: Seq<char>, name: Seq<char>) -> Seq<char> {
    if dir.len() == 0 {
        name
    } else if dir.last() == '/' {
        dir + name
    } else {
        dir + "/"@ + name
    }
}

pub open spec fn md_name(id: Seq<char>) -> Seq<char> {
    id + ".md"@
}

pub open spec fn replied_name(id: Seq<char>) -> Seq<char> {
    "."@ + id + ".md"@
}

pub struct Storage {
    todo_dir: String,
    done_dir: String,
}

pub struct StorageView {
    pub todo_dir: Seq<char>,
    pub done_dir: Seq<char>,
}

impl View for Storage {
    type V = StorageView;

    closed spec fn view(&self) -> StorageView {
        StorageView { todo_dir: self.todo_dir@, done_dir: self.done_dir@ }
    }
}

/// Where a task file can be.
#[derive(Debug, Clone, Copy, PartialEq, Eq, Structural)]
pub enum TaskLocation {
    /// `<todo>/<id>.md`: pending.
    Todo,
    /// `<done>/<id>.md`: completed, not yet replied to.
    Done,
    /// `<done>/.<id>.md`: completed and replied to.
    Replied,
}

impl TaskLocation {
    /// Tasks found in the done directory, replied to or not, are completed.
    pub fn is_done(&self) -> (r: bool)
        ensures
            r == (*self != TaskLocation::Todo),
    {
        !matches!(self, TaskLocation::Todo)
    }
}

impl Storage {
    /// The store over the configured directories (which the caller creates).
    pub fn new(cfg: &StorageConfig) -> (r: Storage)
        ensures
            r@.todo_dir == cfg.todo_dir@,
            r@.done_dir == cfg.done_dir@,
    {
        Storage { todo_dir: copy_string(&cfg.todo_dir), done_dir: copy_string(&cfg.done_dir) }
    }

    pub fn todo_dir(&self) -> (r: &str)
        ensures
            r@ == self@.todo_dir,
    {
        self.todo_dir.as_str()
    }

    pub fn done_dir(&self) -> (r: &str)
        ensures
            r@ == self@.done_dir,
    {
        self.done_dir.as_str()
    }

    /// Generate a new short unique id: the first 8 characters of a random
    /// (version 4) UUID, always a valid id.
    pub fn new_id() -> (r: String)
        ensures
            r@.len() == 8,
            forall|i: int| 0 <= i < 8 ==> is_lower_hex(#[trigger] r@[i]),
            id_check(r@) is Ok,
    {
        let u = uuid_v4_text();
        let r = u.as_str().substring_char(0, 8).to_owned();
        proof {
            assert forall|i: int| 0 <= i < 8 implies is_lower_hex(#[trigger] r@[i]) by {
                assert(r@[i] == u@[i]);
            }
            lemma_lower_hex_id(r@);
        }
        r
    }

    /// Validate that a task id is safe to use in a filename.
    ///
    /// IDs must be 1–64 characters, containing only ASCII alphanumerics and
    /// hyphens.  This prevents path-traversal attacks when IDs come from user
    /// input (URL path segments, email bodies, etc.).
    pub fn validate_id(id: &str) -> (r: Result<(), StorageError>)
        ensures
            r == id_check(id@),
            r is Ok ==> !has_sep_or_dot(id@),
    {
        if id.unicode_len() == 0 || id.as_bytes().len() > 64 {
            return Err(StorageError::InvalidIdLength);
        }
        assert(id.spec_bytes() == encode_utf8(id@));
        assert(!(id@.len() == 0 || encode_utf8(id@).len() > 64));
        let v = chars_of(id);
        let n = v.len();
        let mut i: usize = 0;
        while i < n
            invariant
                i <= n,
                n == v@.len(),
                v@ == id@,
                !(id@.len() == 0 || encode_utf8(id@).len() > 64),
                forall|j: int| 0 <= j < i ==> id_char(id@[j]),
            decreases n - i,
        {
            let c = v[i];
            let ok = ('0' <= c && c <= '9') || ('a' <= c && c <= 'z') || ('A' <= c && c <= 'Z')
                || c == '-';
            if !ok {
                assert(!id_char(id@[i as int]));
                return Err(StorageError::InvalidIdChars);
            }
            i = i + 1;
        }
        Ok(())
    }

    fn path_in(dir: &str, name: &str) -> (r: String)
        ensures
            r@ == join_path(dir@, name@),
    {
        let d = chars_of(dir);
        if d.len() == 0 {
            name.to_owned()
        } else if d[d.len() - 1] == '/' {
            let mut r = dir.to_owned();
            r.append(name);
            r
        } else {
            let mut r = dir.to_owned();
            r.append("/");
            r.append(name);
            r
        }
    }

    fn md_file_name(id: &str) -> (r: String)
        ensures
            r@ == md_name(id@),
    {
        let mut r = id.to_owned();
        r.append(".md");
        r
    }

    fn replied_file_name(id: &str) -> (r: String)
        ensures
            r@ == replied_name(id@),
    {
        let mut r = ".".to_owned();
        r.append(id);
        r.append(".md");
        r
    }

    /// Path of the file of task `id`: `<done>/<id>.md` or `<todo>/<id>.md`.
    pub fn task_path(&self, id: &str, done: bool) -> (r: String)
        ensures
            r@ == join_path(
                if done {
                    self@.done_dir
                } else {
                    self@.todo_dir
                },
                md_name(id@),
            ),
    {
        let name = Self::md_file_name(id);
        if done {
            Self::path_in(self.done_dir.as_str(), name.as_str())
        } else {
            Self::path_in(self.todo_dir.as_str(), name.as_str())
        }
    }

    /// Path of a completed task that has been replied to: `<done>/.<id>.md`.
    pub fn replied_path(&self, id: &str) -> (r: String)
        ensures
            r@ == join_path(self@.done_dir, replied_name(id@)),
    {
        let name = Self::replied_file_name(id);
        Self::path_in(self.done_dir.as_str(), name.as_str())
    }

    /// Path of the file of task `id` at `loc`.
    pub fn location_path(&self, id: &str, loc: TaskLocation) -> (r: String)
        ensures
            r@ == location_path_spec(self@, id@, loc),
    {
        match loc {
            TaskLocation::Todo => self.task_path(id, false),
            TaskLocation::Done => self.task_path(id, true),
            TaskLocation::Replied => self.replied_path(id),
        }
    }

    /// Writing a new task: the path in the todo directory and the file text.
    pub fn create_task(&self, task: &Task) -> (r: Result<(String, String), StorageError>)
        ensures
            match r {
                Ok((path, text)) => id_check(task.id@) is Ok && path@ == join_path(
                    self@.todo_dir,
                    md_name(task.id@),
                ) && text@ == task_file_text(task@),
                Err(e) => id_check(task.id@) == Err::<(), StorageError>(e),
            },
    {
        Self::validate_id(task.id.as_str())?;
        let path = self.task_path(task.id.as_str(), false);
        Ok((path, format_task_file(task)))
    }

    /// Moving a task from todo to done: (from, to) paths; the move happens
    /// only when the first exists.
    pub fn mark_done(&self, id: &str) -> (r: Result<(String, String), StorageError>)
        ensures
            match r {
                Ok((from, to)) => id_check(id@) is Ok && from@ == location_path_spec(
                    self@,
                    id@,
                    TaskLocation::Todo,
                ) && to@ == location_path_spec(self@, id@, TaskLocation::Done),
                Err(e) => id_check(id@) == Err::<(), StorageError>(e),
            },
    {
        Self::validate_id(id)?;
        Ok((self.task_path(id, false), self.task_path(id, true)))
    }

    /// Marking a done task as replied: renaming `<id>.md` to `.<id>.md`.
    pub fn mark_replied(&self, id: &str) -> (r: Result<(String, String), StorageError>)
        ensures
            match r {
                Ok((from, to)) => id_check(id@) is Ok && from@ == location_path_spec(
                    self@,
                    id@,
                    TaskLocation::Done,
                ) && to@ == location_path_spec(self@, id@, TaskLocation::Replied),
                Err(e) => id_check(id@) == Err::<(), StorageError>(e),
            },
    {
        Self::validate_id(id)?;
        Ok((self.task_path(id, true), self.replied_path(id)))
    }

    /// The places a task is looked for, in order (for reading and deleting):
    /// todo, done, then replied-done.
    pub fn lookup_order(&self, id: &str) -> (r: Result<Vec<(String, TaskLocation)>, StorageError>)
        ensures
            match r {
                Ok(v) => id_check(id@) is Ok && v@.len() == 3 && v@[0].1 == TaskLocation::Todo
                    && v@[1].1 == TaskLocation::Done && v@[2].1 == TaskLocation::Replied
                    && forall|i: int|
                    0 <= i < 3 ==> #[trigger] v@[i].0@ == location_path_spec(self@, id@, v@[i].1),
                Err(e) => id_check(id@) == Err::<(), StorageError>(e),
            },
    {
        Self::validate_id(id)?;
        let mut v: Vec<(String, TaskLocation)> = Vec::new();
        v.push((self.location_path(id, TaskLocation::Todo), TaskLocation::Todo));
        v.push((self.location_path(id, TaskLocation::Done), TaskLocation::Done));
        v.push((self.location_path(id, TaskLocation::Replied), TaskLocation::Replied));
        Ok(v)
    }

    /// Summary counts: the number of pending and of completed tasks; a
    /// listing that failed counts as zero.
    pub fn counts<E>(todo: &Result<Vec<Task>, E>, done: &Result<Vec<Task>, E>) -> (r: (
        usize,
        usize,
    ))
        ensures
            r.0 == (match todo {
                Ok(v) => v@.len(),
                Err(_) => 0,
            }),
            r.1 == (match done {
                Ok(v) => v@.len(),
                Err(_) => 0,
            }),
    {
        let t = match todo {
            Ok(v) => v.len(),
            Err(_) => 0,
        };
        let d = match done {
            Ok(v) => v.len(),
            Err(_) => 0,
        };
        (t, d)
    }
}

pub open spec fn location_path_spec(s: StorageView, id: Seq<char>, loc: TaskLocation) -> Seq<char> {
    match loc {
        TaskLocation::Todo => join_path(s.todo_dir, md_name(id)),
        TaskLocation::Done => join_path(s.done_dir, md_name(id)),
        TaskLocation::Replied => join_path(s.done_dir, replied_name(id)),
    }
}

/// The id has a path separator or a dot.
pub open spec fn has_sep_or_dot(id: Seq<char>) -> bool {
    exists|i: int| 0 <= i < id.len() && (id[i] == '/' || id[i] == '\\' || id[i] == '.')
}

pub open spec fn is_lower_hex(c: char) -> bool {
    ('0' <= c && c <= '9') || ('a' <= c && c <= 'f')
}

/// The text of `Uuid::new_v4().to_string()`: 36 characters, lower-case hex
/// digits in groups of 8-4-4-4-12 separated by hyphens.
pub open spec fn uuid_text_shape(s: Seq<char>) -> bool {
    &&& s.len() == 36
    &&& forall|i: int|
        0 <= i < 36 ==> if i == 8 || i == 13 || i == 18 || i == 23 {
            s[i] == '-'
        } else {
            is_lower_hex(#[trigger] s[i])
        }
}

/// `uuid::Uuid::new_v4().to_string()`: a random UUID in its hyphenated
/// lower-case form (the `Display` of `Uuid` writes `LowerHex` of the
/// hyphenated form).  Which UUID comes back is left open.
#[verifier::external_body]
pub(crate) fn uuid_v4_text() -> (r: String)
    ensures
        uuid_text_shape(r@),
{
    uuid::Uuid::new_v4().to_string()
}

proof fn lemma_lower_hex_id(id: Seq<char>)
    requires
        id.len() == 8,
        forall|i: int| 0 <= i < 8 ==> is_lower_hex(#[trigger] id[i]),
    ensures
        id_check(id) is Ok,
{
    assert(is_ascii_chars(id)) by {
        assert forall|i: int| 0 <= i < id.len() implies '\0' <= #[trigger] id[i] <= '\u{7f}' by {
            assert(is_lower_hex(id[i]));
        }
    }
    is_ascii_chars_encode_utf8(id);
    assert forall|i: int| 0 <= i < id.len() implies id_char(id[i]) by {
        assert(is_lower_hex(id[i]));
    }
}

// ── Listing ───────────────────────────────────────────────────────────────────

/// A directory entry: the file name and the file's text, or `None` when the
/// file could not be read.
pub struct DirEntry {
    pub name: String,
    pub content: Option<String>,
}

/// Newest first: no task is later than the one before it.
pub open spec fn newest_first(ts: Seq<Task>) -> bool {
    forall|i: int, j: int| 0 <= i < j < ts.len() ==> !later(ts[j].created@, ts[i].created@)
}

/// The entry is listed: a `.md` file (and, for the unreplied listing, one
/// whose stem does not start with a dot) that could be read.
pub open spec fn entry_listed(e: DirEntry, skip_replied: bool) -> bool {
    &&& file_ext(e.name@) == Some("md"@)
    &&& !(skip_replied && file_stem(e.name@).len() > 0 && file_stem(e.name@)[0] == '.')
    &&& e.content is Some
}


pub open spec fn task_views(ts: Seq<Task>) -> Seq<TaskView> {
    ts.map_values(|t: Task| t@)
}

/// The tasks a listing yields, in directory order.
pub open spec fn listed_tasks(
    es: Seq<DirEntry>,
    done: bool,
    skip_replied: bool,
    now: (i64, u32),
) -> Seq<TaskView>
    decreases es.len(),
{
    if es.len() == 0 {
        Seq::empty()
    } else {
        let prev = listed_tasks(es.drop_last(), done, skip_replied, now);
        let e = es.last();
        if entry_listed(e, skip_replied) {
            prev.push(parsed_task(e.name@, e.content->0@, done, now))
        } else {
            prev
        }
    }
}

proof fn lemma_insert_multiset<A>(s: Seq<A>, i: int, x: A)
    requires
        0 <= i <= s.len(),
    ensures
        s.insert(i, x).to_multiset() =~= s.to_multiset().insert(x),
{
    broadcast use vstd::seq_lib::group_to_multiset_ensures;

    let t = s.insert(i, x);
    assert(t.remove(i) =~= s);
    assert(t[i] == x);
    assert(t.to_multiset().remove(x) =~= s.to_multiset());
    assert(t.contains(x));
    assert(t.to_multiset().count(x) > 0);
}

/// Position at which `t` goes into a newest-first list so that it stays
/// newest first, after every task that is not older.
fn insert_position(ts: &Vec<Task>, t: &Task) -> (r: usize)
    requires
        newest_first(ts@),
    ensures
        r <= ts@.len(),
        forall|j: int| 0 <= j < r ==> !later(t.created@, #[trigger] ts@[j].created@),
        forall|j: int| r <= j < ts@.len() ==> later(t.created@, #[trigger] ts@[j].created@),
{
    let n = ts.len();
    let mut p: usize = 0;
    while p < n && !t.created.is_later_than(&ts[p].created)
        invariant
            p <= n,
            n == ts@.len(),
            forall|j: int| 0 <= j < p ==> !later(t.created@, #[trigger] ts@[j].created@),
        decreases n - p,
    {
        p = p + 1;
    }
    proof {
        assert forall|j: int| p <= j < ts@.len() implies later(
            t.created@,
            #[trigger] ts@[j].created@,
        ) by {
            assert(later(t.created@, ts@[p as int].created@));
            if j > p {
                assert(!later(ts@[j].created@, ts@[p as int].created@));
            }
        }
    }
    p
}

/// `t` placed into the newest-first list `ts` after every task that is not
/// older than it, that is before the first task it is later than.
pub open spec fn insert_newest(ts: Seq<TaskView>, t: TaskView) -> Seq<TaskView>
    decreases ts.len(),
{
    if ts.len() == 0 {
        seq![t]
    } else if later(t.created, ts[0].created) {
        seq![t] + ts
    } else {
        seq![ts[0]] + insert_newest(ts.drop_first(), t)
    }
}

/// The stable sort of `s`, newest first (`sort_by` on the creation time,
/// latest first): tasks created at the same instant keep their order in `s`.
pub open spec fn sorted_newest_first(s: Seq<TaskView>) -> Seq<TaskView>
    decreases s.len(),
{
    if s.len() == 0 {
        Seq::empty()
    } else {
        insert_newest(sorted_newest_first(s.drop_last()), s.last())
    }
}

/// Each task of the list is created no later than the one before it.
pub open spec fn views_newest_first(ts: Seq<TaskView>) -> bool {
    forall|i: int, j: int|
        0 <= i < j < ts.len() ==> !later(#[trigger] ts[j].created, #[trigger] ts[i].created)
}

proof fn lemma_insert_newest_bound(ts: Seq<TaskView>, t: TaskView, top: (i64, u32))
    requires
        forall|i: int| 0 <= i < ts.len() ==> !later(#[trigger] ts[i].created, top),
        !later(t.created, top),
    ensures
        forall|i: int|
            0 <= i < insert_newest(ts, t).len() ==> !later(
                #[trigger] insert_newest(ts, t)[i].created,
                top,
            ),
    decreases ts.len(),
{
    if ts.len() > 0 && !later(t.created, ts[0].created) {
        let rest = ts.drop_first();
        assert forall|i: int| 0 <= i < rest.len() implies !later(#[trigger] rest[i].created, top) by {
            assert(rest[i] == ts[i + 1]);
        }
        lemma_insert_newest_bound(rest, t, top);
        let r = insert_newest(ts, t);
        let ir = insert_newest(rest, t);
        assert forall|i: int| 0 <= i < r.len() implies !later(#[trigger] r[i].created, top) by {
            if i > 0 {
                assert(r[i] == ir[i - 1]);
            }
        }
    }
}

proof fn lemma_insert_newest_keeps(ts: Seq<TaskView>, t: TaskView)
    ensures
        insert_newest(ts, t).to_multiset() == ts.to_multiset().insert(t),
        insert_newest(ts, t).len() == ts.len() + 1,
        views_newest_first(ts) ==> views_newest_first(insert_newest(ts, t)),
    decreases ts.len(),
{
    broadcast use vstd::seq_lib::group_to_multiset_ensures;

    let r = insert_newest(ts, t);
    if ts.len() == 0 {
        assert(r =~= seq![t]);
        assert(seq![t] =~= Seq::<TaskView>::empty().push(t));
        assert(Seq::<TaskView>::empty().to_multiset() =~= vstd::multiset::Multiset::<TaskView>::empty());
    } else if later(t.created, ts[0].created) {
        assert(r =~= ts.insert(0, t));
        vstd::seq_lib::to_multiset_insert(ts, 0, t);
        if views_newest_first(ts) {
            assert forall|i: int, j: int| 0 <= i < j < r.len() implies !later(
                #[trigger] r[j].created,
                #[trigger] r[i].created,
            ) by {
                assert(r[j] == ts[j - 1]);
                if i > 0 {
                    assert(r[i] == ts[i - 1]);
                } else if j - 1 > 0 {
                    assert(!later(ts[j - 1].created, ts[0].created));
                }
            }
        }
    } else {
        let rest = ts.drop_first();
        let ir = insert_newest(rest, t);
        lemma_insert_newest_keeps(rest, t);
        assert(r =~= ir.insert(0, ts[0]));
        vstd::seq_lib::to_multiset_insert(ir, 0, ts[0]);
        assert(ts =~= rest.insert(0, ts[0]));
        vstd::seq_lib::to_multiset_insert(rest, 0, ts[0]);
        assert(r.to_multiset() =~= ts.to_multiset().insert(t));
        if views_newest_first(ts) {
            assert forall|i: int, j: int| 0 <= i < j < rest.len() implies !later(
                #[trigger] rest[j].created,
                #[trigger] rest[i].created,
            ) by {
                assert(rest[i] == ts[i + 1]);
                assert(rest[j] == ts[j + 1]);
            }
            assert forall|i: int| 0 <= i < rest.len() implies !later(
                #[trigger] rest[i].created,
                ts[0].created,
            ) by {
                assert(rest[i] == ts[i + 1]);
            }
            lemma_insert_newest_bound(rest, t, ts[0].created);
            assert forall|i: int, j: int| 0 <= i < j < r.len() implies !later(
                #[trigger] r[j].created,
                #[trigger] r[i].created,
            ) by {
                assert(r[j] == ir[j - 1]);
                if i > 0 {
                    assert(r[i] == ir[i - 1]);
                }
            }
        }
    }
}

/// Task listings come newest first: the sorted list holds exactly the tasks
/// it was made from, and each task in it was created no later than the one
/// before it.
pub proof fn lemma_sorted_newest_first(s: Seq<TaskView>)
    ensures
        sorted_newest_first(s).to_multiset() == s.to_multiset(),
        sorted_newest_first(s).len() == s.len(),
        views_newest_first(sorted_newest_first(s)),
    decreases s.len(),
{
    broadcast use vstd::seq_lib::group_to_multiset_ensures;

    if s.len() == 0 {
        assert(s.to_multiset() =~= vstd::multiset::Multiset::<TaskView>::empty());
        assert(sorted_newest_first(s).to_multiset() =~= vstd::multiset::Multiset::<TaskView>::empty());
    } else {
        let init = s.drop_last();
        lemma_sorted_newest_first(init);
        lemma_insert_newest_keeps(sorted_newest_first(init), s.last());
        assert(s =~= init.push(s.last()));
    }
}

proof fn lemma_insert_at_position(ts: Seq<TaskView>, t: TaskView, p: int)
    requires
        0 <= p <= ts.len(),
        forall|j: int| 0 <= j < p ==> !later(t.created, #[trigger] ts[j].created),
        forall|j: int| p <= j < ts.len() ==> later(t.created, #[trigger] ts[j].created),
    ensures
        ts.insert(p, t) == insert_newest(ts, t),
    decreases ts.len(),
{
    if ts.len() == 0 {
        assert(ts.insert(p, t) =~= seq![t]);
    } else if later(t.created, ts[0].created) {
        if p > 0 {
            assert(!later(t.created, ts[0].created));
        }
        assert(ts.insert(p, t) =~= seq![t] + ts);
    } else {
        if p == 0 {
            assert(later(t.created, ts[0].created));
        }
        let rest = ts.drop_first();
        assert forall|j: int| 0 <= j < p - 1 implies !later(t.created, #[trigger] rest[j].created) by {
            assert(rest[j] == ts[j + 1]);
        }
        assert forall|j: int| p - 1 <= j < rest.len() implies later(
            t.created,
            #[trigger] rest[j].created,
        ) by {
            assert(rest[j] == ts[j + 1]);
        }
        lemma_insert_at_position(rest, t, p - 1);
        assert(ts.insert(p, t) =~= seq![ts[0]] + rest.insert(p - 1, t));
    }
}

/// The tasks of a directory listing, newest first.  Entries that are not
/// `.md` files, could not be read or (when `skip_replied`) are replied-done
/// files are left out; `now` stands in for a missing creation time.  Tasks
/// created at the same instant keep the order of the listing.
pub fn tasks_from_entries(
    entries: Vec<DirEntry>,
    done: bool,
    skip_replied: bool,
    now: &Timestamp,
) -> (r: Vec<Task>)
    ensures
        task_views(r@) == sorted_newest_first(listed_tasks(entries@, done, skip_replied, now@)),
        newest_first(r@),
        task_views(r@).to_multiset() == listed_tasks(entries@, done, skip_replied, now@).to_multiset(),
{
    let mut out: Vec<Task> = Vec::new();
    let n = entries.len();
    let mut i: usize = 0;
    proof {
        reveal_strlit("md");
        broadcast use vstd::seq_lib::group_to_multiset_ensures;
        assert(entries@.take(0) =~= Seq::<DirEntry>::empty());
        assert(task_views(out@) =~= Seq::<TaskView>::empty());
    }
    while i < n
        invariant
            i <= n,
            n == entries@.len(),
            newest_first(out@),
            task_views(out@) == sorted_newest_first(
                listed_tasks(entries@.take(i as int), done, skip_replied, now@),
            ),
            task_views(out@).to_multiset() == listed_tasks(
                entries@.take(i as int),
                done,
                skip_replied,
                now@,
            ).to_multiset(),
        decreases n - i,
    {
        let e = &entries[i];
        let ghost before = entries@.take(i as int);
        let ghost after = entries@.take(i + 1);
        proof {
            assert(after.drop_last() =~= before);
            assert(after.last() == *e);
        }
        let ghost prev_views = task_views(out@);
        let keep = match &e.content {
            Some(_) => {
                let md = has_md_extension(e.name.as_str());
                if md && skip_replied {
                    let stem = file_stem_of(e.name.as_str());
                    let dotted = stem.as_str().unicode_len() > 0 && stem.as_str().get_char(0)
                        == '.';
                    !dotted
                } else {
                    md
                }
            },
            None => false,
        };
        assert(keep == entry_listed(*e, skip_replied));
        if keep {
            let content = match &e.content {
                Some(c) => c.as_str(),
                None => "",
            };
            let task = parse_task_file(e.name.as_str(), content, done, now.copy());
            let p = insert_position(&out, &task);
            let ghost tv = task@;
            let ghost prev = out@;
            out.insert(p, task);
            proof {
                broadcast use vstd::seq_lib::group_to_multiset_ensures;

                let l = listed_tasks(before, done, skip_replied, now@);
                assert(tv == parsed_task(e.name@, e.content->0@, done, now@));
                assert(listed_tasks(after, done, skip_replied, now@) == l.push(tv));
                assert(l.push(tv).drop_last() =~= l);
                assert(task_views(out@) =~= prev_views.insert(p as int, tv));
                assert forall|j: int| 0 <= j < p implies !later(
                    tv.created,
                    #[trigger] prev_views[j].created,
                ) by {
                    assert(prev_views[j] == prev[j]@);
                }
                assert forall|j: int| p <= j < prev_views.len() implies later(
                    tv.created,
                    #[trigger] prev_views[j].created,
                ) by {
                    assert(prev_views[j] == prev[j]@);
                }
                lemma_insert_at_position(prev_views, tv, p as int);
                lemma_insert_multiset(prev_views, p as int, tv);
                vstd::seq_lib::to_multiset_build(l, tv);
                assert(newest_first(out@)) by {
                    assert forall|a: int, b: int| 0 <= a < b < out@.len() implies !later(
                        out@[b].created@,
                        out@[a].created@,
                    ) by {
                        if b < p {
                            assert(out@[a] == prev[a] && out@[b] == prev[b]);
                        } else if b == p {
                            assert(out@[a] == prev[a]);
                        } else if a < p {
                            assert(out@[a] == prev[a] && out@[b] == prev[b - 1]);
                        } else if a == p {
                            assert(out@[b] == prev[b - 1]);
                            assert(later(tv.created, prev[b - 1].created@));
                        } else {
                            assert(out@[a] == prev[a - 1] && out@[b] == prev[b - 1]);
                        }
                    }
                }
            }
        } else {
            proof {
                assert(listed_tasks(after, done, skip_replied, now@) == listed_tasks(
                    before,
                    done,
                    skip_replied,
                    now@,
                ));
            }
        }
        i = i + 1;
    }
    proof {
        assert(entries@.take(n as int) =~= entries@);
    }
    out
}

// ── Reading back what was written ─────────────────────────────────────────────

/// The text holds no line terminator.
pub open spec fn line_safe(s: Seq<char>) -> bool {
    !has_char(s, '\n') && !has_char(s, '\r')
}

/// A description that reads back unchanged: no carriage return, no final
/// line terminator, and neither its first nor its last line is blank.
pub open spec fn description_safe(d: Seq<char>) -> bool {
    &&& !has_char(d, '\r')
    &&& d.len() > 0 ==> {
        &&& d.last() != '\n'
        &&& trim(lines(d)[0]).len() > 0
        &&& trim(lines(d).last()).len() > 0
    }
}

/// The fields of a task that the file format stores without loss.  The two
/// clauses on the creation time hold for every task `format_task_file`
/// writes whose creation time lies in the years 0000 to 9999.
pub open spec fn roundtrip_safe(t: TaskView) -> bool {
    &&& t.id.len() > 0 && line_safe(t.id)
    &&& t.title.len() > 0 && line_safe(t.title)
    &&& line_safe(t.from)
    &&& line_safe(t.source)
    &&& (t.message_id matches Some(m) ==> line_safe(m))
    &&& line_safe(rfc3339_text(t.created.0, t.created.1))
    &&& rfc3339_parse(rfc3339_text(t.created.0, t.created.1)) == Some(t.created)
    &&& description_safe(t.description)
}

proof fn lemma_scan_from_append(st: ScanState, a: Seq<Seq<char>>, b: Seq<Seq<char>>)
    ensures
        scan_from(st, a + b) == scan_from(scan_from(st, a), b),
    decreases b.len(),
{
    if b.len() == 0 {
        assert(a + b =~= a);
    } else {
        assert((a + b).drop_last() =~= a + b.drop_last());
        assert((a + b).last() == b.last());
        lemma_scan_from_append(st, a, b.drop_last());
    }
}

proof fn lemma_scan_push(st: ScanState, ls: Seq<Seq<char>>, x: Seq<char>)
    ensures
        scan_from(st, ls.push(x)) == scan_step(scan_from(st, ls), x),
{
    assert(ls.push(x).drop_last() =~= ls);
}

proof fn lemma_scan_two(st: ScanState, a: Seq<char>, b: Seq<char>)
    ensures
        scan_from(st, seq![a, b]) == scan_step(scan_step(st, a), b),
{
    lemma_scan_push(st, Seq::empty(), a);
    assert(Seq::<Seq<char>>::empty().push(a) =~= seq![a]);
    lemma_scan_push(st, seq![a], b);
    assert(seq![a].push(b) =~= seq![a, b]);
}

proof fn lemma_scan_body(st: ScanState, b: Seq<Seq<char>>)
    requires
        st.in_body,
        st.found_title,
    ensures
        scan_from(st, b) == (ScanState { body: st.body + b, ..st }),
    decreases b.len(),
{
    if b.len() == 0 {
        assert(st.body + b =~= st.body);
    } else {
        lemma_scan_body(st, b.drop_last());
        assert(st.body + b.drop_last() + seq![b.last()] =~= st.body + b);
        assert((st.body + b.drop_last()).push(b.last()) =~= st.body + b);
    }
}

proof fn lemma_lines_nl_end(d: Seq<char>)
    requires
        d.len() > 0,
        d.last() != '\n',
    ensures
        lines(d + "\n"@) == lines(d),
    decreases d.len(),
{
    reveal_strlit("\n");
    let k = newline_index(d);
    lemma_newline_index_bounds(d);
    if k < d.len() {
        let a = d.subrange(0, k);
        let rest = d.subrange(k + 1, d.len() as int);
        assert(!has_char(a, '\n')) by {
            if has_char(a, '\n') {
                let j = choose|j: int| 0 <= j < a.len() && a[j] == '\n';
                assert(d[j] != '\n');
            }
        }
        assert(rest.len() > 0) by {
            if rest.len() == 0 {
                assert(k == d.len() - 1);
            }
        }
        assert(rest.last() == d.last());
        assert(d =~= a + seq!['\n'] + rest);
        assert(d + "\n"@ =~= a + seq!['\n'] + (rest + "\n"@));
        lemma_lines_cons(a, rest);
        lemma_lines_cons(a, rest + "\n"@);
        lemma_lines_nl_end(rest);
    } else {
        assert(!has_char(d, '\n')) by {
            if has_char(d, '\n') {
                let j = choose|j: int| 0 <= j < d.len() && d[j] == '\n';
                assert(d[j] != '\n');
            }
        }
        assert(d + "\n"@ =~= d + seq!['\n'] + Seq::<char>::empty());
        lemma_lines_cons(d, Seq::empty());
        lemma_lines_single(d);
    }
}

proof fn lemma_join_lines_cons(a: Seq<char>, l: Seq<Seq<char>>)
    requires
        l.len() > 0,
    ensures
        join_lines(seq![a] + l) == a + "\n"@ + join_lines(l),
    decreases l.len(),
{
    reveal_strlit("\n");
    let s = seq![a] + l;
    if l.len() == 1 {
        assert(s.drop_last() =~= seq![a]);
        assert(s.last() == l[0]);
        assert(join_lines(s.drop_last()) == a);
        assert(join_lines(l) == l[0]);
    } else {
        assert(s.drop_last() =~= seq![a] + l.drop_last());
        lemma_join_lines_cons(a, l.drop_last());
        assert(join_lines(l) == join_lines(l.drop_last()) + "\n"@ + l.last());
        assert(join_lines(s) == join_lines(s.drop_last()) + "\n"@ + s.last());
        assert(join_lines(s) =~= a + "\n"@ + join_lines(l));
    }
}

proof fn lemma_join_lines_of_lines(d: Seq<char>)
    requires
        !has_char(d, '\r'),
        d.len() == 0 || d.last() != '\n',
    ensures
        join_lines(lines(d)) == d,
    decreases d.len(),
{
    reveal_strlit("\n");
    if d.len() > 0 {
        let k = newline_index(d);
        lemma_newline_index_bounds(d);
        if k < d.len() {
            let a = d.subrange(0, k);
            let rest = d.subrange(k + 1, d.len() as int);
            assert(rest.len() > 0) by {
                if rest.len() == 0 {
                    assert(k == d.len() - 1);
                }
            }
            assert(rest.last() == d.last());
            assert(!has_char(rest, '\r')) by {
                if has_char(rest, '\r') {
                    let j = choose|j: int| 0 <= j < rest.len() && rest[j] == '\r';
                    assert(d[k + 1 + j] == '\r');
                }
            }
            if a.len() > 0 {
                assert(a.last() == d[k - 1]);
            }
            assert(strip_cr(a) == a);
            lemma_join_lines_of_lines(rest);
            assert(lines(rest).len() > 0);
            lemma_join_lines_cons(a, lines(rest));
            assert(d =~= a + "\n"@ + rest);
        } else {
            assert(strip_cr(d) == d);
        }
    }
}

proof fn lemma_blank_front_one(l: Seq<Seq<char>>)
    requires
        l.len() > 0,
        trim(l[0]).len() > 0,
    ensures
        drop_blank_front(seq![Seq::<char>::empty()] + l) == l,
{
    let s = seq![Seq::<char>::empty()] + l;
    let e = Seq::<char>::empty();
    assert(trim_start(e) == e);
    assert(trim_end(e) == e);
    assert(s[0] == e);
    assert(trim(s[0]).len() == 0);
    assert(s.drop_first() =~= l);
    assert(drop_blank_front(l) == l);
}

proof fn lemma_key_line(key: Seq<char>, v: Seq<char>, other: Seq<char>)
    requires
        key.len() > 0,
        other.len() > 0,
        key[0] != other[0],
    ensures
        starts_with(key + v, key),
        !starts_with(key + v, other),
        after(key + v, key) == v,
{
    assert((key + v).subrange(0, key.len() as int) =~= key);
    assert((key + v).subrange(key.len() as int, (key + v).len() as int) =~= v);
    if starts_with(key + v, other) {
        assert((key + v).subrange(0, other.len() as int)[0] == other[0]);
    }
}

/// The lines of a task file.
pub open spec fn file_lines(t: TaskView) -> Seq<Seq<char>> {
    seq![
        "id: "@ + t.id,
        "created: "@ + rfc3339_text(t.created.0, t.created.1),
        "from: "@ + t.from,
        "source: "@ + t.source,
    ] + match t.message_id {
        Some(m) => seq!["message_id: "@ + m],
        None => Seq::empty(),
    } + seq!["---"@, "# "@ + t.title] + if t.description.len() > 0 {
        seq![Seq::<char>::empty()] + lines(t.description)
    } else {
        Seq::empty()
    }
}

proof fn lemma_kv_line(key: Seq<char>, v: Seq<char>)
    requires
        key.len() > 0,
        !has_char(key, '\n'),
        !has_char(key, '\r'),
        line_safe(v),
    ensures
        !has_char(key + v, '\n'),
        strip_cr(key + v) == key + v,
{
    let kv = key + v;
    if has_char(kv, '\n') {
        let j = choose|j: int| 0 <= j < kv.len() && kv[j] == '\n';
        if j < key.len() {
            assert(key[j] == '\n');
        } else {
            assert(v[j - key.len()] == '\n');
        }
    }
    if kv.last() == '\r' {
        if v.len() > 0 {
            assert(v[v.len() - 1] == '\r');
        } else {
            assert(key[key.len() - 1] == '\r');
        }
    }
}

proof fn lemma_lines_four(
    l1: Seq<char>,
    l2: Seq<char>,
    l3: Seq<char>,
    l4: Seq<char>,
    rest: Seq<char>,
)
    requires
        !has_char(l1, '\n') && strip_cr(l1) == l1,
        !has_char(l2, '\n') && strip_cr(l2) == l2,
        !has_char(l3, '\n') && strip_cr(l3) == l3,
        !has_char(l4, '\n') && strip_cr(l4) == l4,
    ensures
        lines(l1 + seq!['\n'] + (l2 + seq!['\n'] + (l3 + seq!['\n'] + (l4 + seq!['\n'] + rest))))
            == seq![l1, l2, l3, l4] + lines(rest),
{
    let nl = seq!['\n'];
    lemma_lines_cons(l4, rest);
    lemma_lines_cons(l3, l4 + nl + rest);
    lemma_lines_cons(l2, l3 + nl + (l4 + nl + rest));
    lemma_lines_cons(l1, l2 + nl + (l3 + nl + (l4 + nl + rest)));
    assert(seq![l1] + (seq![l2] + (seq![l3] + (seq![l4] + lines(rest)))) =~= seq![l1, l2, l3, l4]
        + lines(rest));
}

proof fn lemma_tail_lines(title_line: Seq<char>, d: Seq<char>)
    requires
        !has_char(title_line, '\n') && strip_cr(title_line) == title_line,
        description_safe(d),
    ensures
        lines(
            "---"@ + seq!['\n'] + (title_line + seq!['\n'] + if d.len() > 0 {
                "\n"@ + d + "\n"@
            } else {
                Seq::empty()
            }),
        ) == seq!["---"@, title_line] + if d.len() > 0 {
            seq![Seq::<char>::empty()] + lines(d)
        } else {
            Seq::empty()
        },
{
    reveal_strlit("---");
    reveal_strlit("\n");
    let nl = seq!['\n'];
    let tail: Seq<char> = if d.len() > 0 {
        "\n"@ + d + "\n"@
    } else {
        Seq::empty()
    };
    let tail_lines: Seq<Seq<char>> = if d.len() > 0 {
        seq![Seq::<char>::empty()] + lines(d)
    } else {
        Seq::empty()
    };
    assert(lines(tail) == tail_lines) by {
        if d.len() > 0 {
            assert(tail =~= Seq::<char>::empty() + nl + (d + "\n"@));
            lemma_lines_cons(Seq::empty(), d + "\n"@);
            lemma_lines_nl_end(d);
            assert(strip_cr(Seq::<char>::empty()) =~= Seq::<char>::empty());
        }
    }
    let l5 = "---"@;
    assert(!has_char(l5, '\n') && strip_cr(l5) == l5);
    lemma_lines_cons(title_line, tail);
    lemma_lines_cons(l5, title_line + nl + tail);
    assert(seq![l5] + (seq![title_line] + tail_lines) =~= seq![l5, title_line] + tail_lines);
}

proof fn lemma_file_lines(t: TaskView)
    requires
        roundtrip_safe(t),
    ensures
        lines(task_file_text(t)) == file_lines(t),
{
    reveal_strlit("id: ");
    reveal_strlit("created: ");
    reveal_strlit("from: ");
    reveal_strlit("source: ");
    reveal_strlit("message_id: ");
    reveal_strlit("---\n");
    reveal_strlit("---");
    reveal_strlit("# ");
    reveal_strlit("\n");
    let r = rfc3339_text(t.created.0, t.created.1);
    let nl = seq!['\n'];
    let d = t.description;
    let l6 = "# "@ + t.title;
    assert(!has_char("id: "@, '\n') && !has_char("id: "@, '\r'));
    assert(!has_char("created: "@, '\n') && !has_char("created: "@, '\r'));
    assert(!has_char("from: "@, '\n') && !has_char("from: "@, '\r'));
    assert(!has_char("source: "@, '\n') && !has_char("source: "@, '\r'));
    assert(!has_char("# "@, '\n') && !has_char("# "@, '\r'));
    lemma_kv_line("id: "@, t.id);
    lemma_kv_line("created: "@, r);
    lemma_kv_line("from: "@, t.from);
    lemma_kv_line("source: "@, t.source);
    lemma_kv_line("# "@, t.title);
    let tail: Seq<char> = if d.len() > 0 {
        "\n"@ + d + "\n"@
    } else {
        Seq::empty()
    };
    let after_sep = "---"@ + nl + (l6 + nl + tail);
    lemma_tail_lines(l6, d);
    let mid_text: Seq<char> = match t.message_id {
        Some(m) => ("message_id: "@ + m) + nl + after_sep,
        None => after_sep,
    };
    let mid_lines: Seq<Seq<char>> = match t.message_id {
        Some(m) => seq!["message_id: "@ + m],
        None => Seq::empty(),
    };
    assert(lines(mid_text) =~= mid_lines + lines(after_sep)) by {
        if let Some(m) = t.message_id {
            assert(!has_char("message_id: "@, '\n') && !has_char("message_id: "@, '\r'));
            lemma_kv_line("message_id: "@, m);
            lemma_lines_cons("message_id: "@ + m, after_sep);
        }
    }
    lemma_lines_four("id: "@ + t.id, "created: "@ + r, "from: "@ + t.from, "source: "@ + t.source, mid_text);
    assert(task_file_text(t) =~= ("id: "@ + t.id) + nl + (("created: "@ + r) + nl + (("from: "@
        + t.from) + nl + (("source: "@ + t.source) + nl + mid_text))));
    assert(lines(task_file_text(t)) =~= file_lines(t));
}

/// The state after the metadata lines and the title line.
pub open spec fn head_state(t: TaskView) -> ScanState {
    ScanState {
        id: t.id,
        created: rfc3339_parse(rfc3339_text(t.created.0, t.created.1)),
        from: t.from,
        source: t.source,
        message_id: t.message_id,
        title: t.title,
        found_title: true,
        in_body: true,
        body: Seq::empty(),
    }
}

proof fn lemma_file_scan(t: TaskView)
    requires
        roundtrip_safe(t),
    ensures
        scan(file_lines(t)) == (ScanState {
            body: if t.description.len() > 0 {
                seq![Seq::<char>::empty()] + lines(t.description)
            } else {
                Seq::empty()
            },
            ..head_state(t)
        }),
{
    reveal_strlit("id: ");
    reveal_strlit("created: ");
    reveal_strlit("from: ");
    reveal_strlit("source: ");
    reveal_strlit("message_id: ");
    reveal_strlit("---");
    reveal_strlit("# ");
    let r = rfc3339_text(t.created.0, t.created.1);
    let l1 = "id: "@ + t.id;
    let l2 = "created: "@ + r;
    let l3 = "from: "@ + t.from;
    let l4 = "source: "@ + t.source;
    let l5 = "---"@;
    let l6 = "# "@ + t.title;
    let d = t.description;
    let tail_lines: Seq<Seq<char>> = if d.len() > 0 {
        seq![Seq::<char>::empty()] + lines(d)
    } else {
        Seq::empty()
    };
    let mid_lines: Seq<Seq<char>> = match t.message_id {
        Some(m) => seq!["message_id: "@ + m],
        None => Seq::empty(),
    };
    let head = seq![l1, l2, l3, l4];
    lemma_key_line("id: "@, t.id, "---"@);
    lemma_key_line("created: "@, r, "---"@);
    lemma_key_line("created: "@, r, "id: "@);
    lemma_key_line("from: "@, t.from, "---"@);
    lemma_key_line("from: "@, t.from, "id: "@);
    lemma_key_line("from: "@, t.from, "created: "@);
    lemma_key_line("source: "@, t.source, "---"@);
    lemma_key_line("source: "@, t.source, "id: "@);
    lemma_key_line("source: "@, t.source, "created: "@);
    lemma_key_line("source: "@, t.source, "from: "@);
    lemma_key_line("# "@, t.title, "---"@);
    assert(l1 != l5) by {
        assert(l1[0] != l5[0]);
    }
    assert(l2 != l5) by {
        assert(l2[0] != l5[0]);
    }
    assert(l3 != l5) by {
        assert(l3[0] != l5[0]);
    }
    assert(l4 != l5) by {
        assert(l4[0] != l5[0]);
    }
    let s0 = scan_start();
    let s4 = scan_step(scan_step(scan_step(scan_step(s0, l1), l2), l3), l4);
    assert(scan_from(s0, head) == s4) by {
        lemma_scan_two(s0, l1, l2);
        lemma_scan_push(s0, seq![l1, l2], l3);
        assert(seq![l1, l2].push(l3) =~= seq![l1, l2, l3]);
        lemma_scan_push(s0, seq![l1, l2, l3], l4);
        assert(seq![l1, l2, l3].push(l4) =~= head);
    }
    let s_mid = scan_from(s4, mid_lines);
    assert(s_mid == ScanState { message_id: t.message_id, ..s4 }) by {
        if let Some(m) = t.message_id {
            let lm = "message_id: "@ + m;
            lemma_key_line("message_id: "@, m, "---"@);
            lemma_key_line("message_id: "@, m, "id: "@);
            lemma_key_line("message_id: "@, m, "created: "@);
            lemma_key_line("message_id: "@, m, "from: "@);
            lemma_key_line("message_id: "@, m, "source: "@);
            assert(lm != l5) by {
                assert(lm[0] != l5[0]);
            }
            lemma_scan_push(s4, Seq::empty(), lm);
            assert(Seq::<Seq<char>>::empty().push(lm) =~= mid_lines);
        }
    }
    let s6 = scan_step(scan_step(s_mid, l5), l6);
    assert(scan_from(s_mid, seq![l5, l6]) == s6) by {
        lemma_scan_two(s_mid, l5, l6);
    }
    assert(s6 == head_state(t));
    lemma_scan_body(s6, tail_lines);
    lemma_scan_from_append(s0, head, mid_lines + seq![l5, l6] + tail_lines);
    assert(mid_lines + seq![l5, l6] + tail_lines =~= mid_lines + (seq![l5, l6] + tail_lines));
    lemma_scan_from_append(s4, mid_lines, seq![l5, l6] + tail_lines);
    lemma_scan_from_append(s_mid, seq![l5, l6], tail_lines);
    assert(file_lines(t) =~= head + (mid_lines + seq![l5, l6] + tail_lines));
    assert(Seq::<Seq<char>>::empty() + tail_lines =~= tail_lines);
}

/// Reading back a stored task gives the task that was written: the text
/// that `format_task_file` writes, read by `parse_task_file`, yields every
/// field unchanged, for a task whose fields the format can hold.
pub proof fn lemma_task_file_roundtrip(t: TaskView, file_name: Seq<char>, now: (i64, u32))
    requires
        roundtrip_safe(t),
    ensures
        parsed_task(file_name, task_file_text(t), t.done, now) == t,
{
    lemma_file_lines(t);
    lemma_file_scan(t);
    let d = t.description;
    if d.len() > 0 {
        lemma_blank_front_one(lines(d));
        lemma_join_lines_of_lines(d);
        assert(drop_blank_back(lines(d)) == lines(d));
    } else {
        let e = Seq::<Seq<char>>::empty();
        assert(drop_blank_back(drop_blank_front(e)) == e);
        assert(join_lines(e) =~= d);
    }
}

/// A task written by `create_task` is listed back: the directory entry that
/// holds the text `format_task_file` wrote, under the name `create_task`
/// chose, yields exactly that task, whether or not replied files are
/// skipped.
pub proof fn lemma_created_task_is_listed(
    e: DirEntry,
    t: TaskView,
    done: bool,
    skip_replied: bool,
    now: (i64, u32),
)
    requires
        roundtrip_safe(t),
        id_check(t.id) is Ok,
        e.name@ == md_name(t.id),
        e.content matches Some(c) && c@ == task_file_text(t),
    ensures
        listed_tasks(seq![e], done, skip_replied, now) == seq![TaskView { done, ..t }],
{
    reveal_strlit(".md");
    reveal_strlit("md");
    reveal_strlit("..");
    let id = t.id;
    let name = e.name@;
    assert(forall|i: int| 0 <= i < id.len() ==> id_char(id[i]));
    assert(name.len() == id.len() + 3);
    assert(name[id.len() as int] == '.');
    assert forall|j: int| id.len() < j < name.len() implies name[j] != '.' by {
        assert(name[j] == ".md"@[j - id.len()]);
    }
    lemma_last_dot_unique(name, id.len() as int);
    assert(name != ".."@) by {
        if name == ".."@ {
            assert(name.len() == 2);
        }
    }
    assert(name.subrange(id.len() as int + 1, name.len() as int) =~= "md"@);
    assert(name.subrange(0, id.len() as int) =~= id);
    assert(file_stem(name) == id);
    assert(id[0] != '.') by {
        assert(id_char(id[0]));
    }
    assert(entry_listed(e, skip_replied));
    let t2 = TaskView { done, ..t };
    assert(task_file_text(t2) == task_file_text(t));
    lemma_task_file_roundtrip(t2, name, now);
    assert(e.content->0@ == task_file_text(t2));
    let es = seq![e];
    assert(es.drop_last() =~= Seq::<DirEntry>::empty());
    assert(es.last() == e);
    assert(listed_tasks(es.drop_last(), done, skip_replied, now) =~= Seq::<TaskView>::empty());
    assert(listed_tasks(es, done, skip_replied, now) =~= seq![
        parsed_task(name, task_file_text(t2), done, now),
    ]);
}

/// A completed task whose reply was sent (its file renamed by
/// `mark_replied`) drops out of the unreplied listing but stays in the
/// listing of all completed tasks, unchanged.
pub proof fn lemma_replied_task_listing(e: DirEntry, t: TaskView, now: (i64, u32))
    requires
        roundtrip_safe(t),
        id_check(t.id) is Ok,
        e.name@ == replied_name(t.id),
        e.content matches Some(c) && c@ == task_file_text(t),
    ensures
        listed_tasks(seq![e], true, true, now).len() == 0,
        listed_tasks(seq![e], true, false, now) == seq![TaskView { done: true, ..t }],
{
    reveal_strlit(".");
    reveal_strlit(".md");
    reveal_strlit("md");
    reveal_strlit("..");
    let id = t.id;
    let name = e.name@;
    let k: int = id.len() as int + 1;
    assert(forall|i: int| 0 <= i < id.len() ==> id_char(id[i]));
    assert(name.len() == id.len() + 4);
    assert(name[k] == '.');
    assert forall|j: int| k < j < name.len() implies name[j] != '.' by {
        assert(name[j] == ".md"@[j - k]);
    }
    lemma_last_dot_unique(name, k);
    assert(name != ".."@) by {
        if name == ".."@ {
            assert(name.len() == 2);
        }
    }
    assert(name.subrange(k + 1, name.len() as int) =~= "md"@);
    assert(file_stem(name) == name.subrange(0, k));
    assert(file_stem(name)[0] == '.');
    assert(!entry_listed(e, true));
    assert(entry_listed(e, false));
    let es = seq![e];
    assert(es.drop_last() =~= Seq::<DirEntry>::empty());
    assert(es.last() == e);
    assert(listed_tasks(es.drop_last(), true, true, now) =~= Seq::<TaskView>::empty());
    assert(listed_tasks(es.drop_last(), true, false, now) =~= Seq::<TaskView>::empty());
    let t2 = TaskView { done: true, ..t };
    assert(task_file_text(t2) == task_file_text(t));
    lemma_task_file_roundtrip(t2, name, now);
    assert(e.content->0@ == task_file_text(t2));
    assert(listed_tasks(es, true, false, now) =~= seq![
        parsed_task(name, task_file_text(t2), true, now),
    ]);
}

} // verus!
