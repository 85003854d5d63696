//! Bookkeeping of the background polling jobs: the status of each poller, the
//! transitions a poll drives it through, and the small decisions the poll
//! loop takes (whom to answer, under which subject, which trigger to wake).
//! The loop itself, its timers and its threads run outside the library.
use vstd::prelude::*;

use crate::commands::{command_of, parse_command, Command};
use crate::config::{AccountConfig, FilterConfig};
use crate::filter::{filter_accepts, is_allowed};
use crate::message::Message;
use crate::text::{
    concat2, copy_string, decimal, ends_with, starts_with, str_ends_with, str_eq, str_starts_with,
    to_upper, uppercase, ascii_upper, ascii_upper_text,
};
use crate::time::{chrono_format, Timestamp};

verus! {

// ── Job phase ─────────────────────────────────────────────────────────────────

#[derive(Debug, Clone, Copy, PartialEq, Eq, Structural)]
pub enum JobPhase {
    /// Poller task just (re)spawned, first poll not yet complete.
    Starting,
    /// Currently executing a poll against the remote source.
    Running,
    /// Waiting for the next scheduled poll interval.
    Idle,
    /// Last poll attempt produced an error.
    Error,
    /// Poller has been explicitly stopped (e.g. account removed or disabled).
    Stopped,
}

pub open spec fn phase_text(p: JobPhase) -> Seq<char> {
    match p {
        JobPhase::Starting => "starting"@,
        JobPhase::Running => "running"@,
        JobPhase::Idle => "idle"@,
        JobPhase::Error => "error"@,
        JobPhase::Stopped => "stopped"@,
    }
}

impl JobPhase {
    /// The lower-case name shown in the UI.
    pub fn as_str(&self) -> (r: &'static str)
        ensures
            r@ == phase_text(*self),
    {
        match self {
            JobPhase::Starting => "starting",
            JobPhase::Running => "running",
            JobPhase::Idle => "idle",
            JobPhase::Error => "error",
            JobPhase::Stopped => "stopped",
        }
    }
}

// ── Job info ──────────────────────────────────────────────────────────────────

/// Runtime status for a single background polling job.
#[derive(Debug)]
pub struct JobInfo {
    /// Source name as reported by the message source, e.g. `"imap:work"`.
    pub name: String,
    /// Current lifecycle phase.
    pub phase: JobPhase,
    /// Whether the last completed poll succeeded.
    pub connected: bool,
    /// Wall-clock time of the most recent poll attempt.
    pub last_run: Option<Timestamp>,
    /// Error message from the most recent failed poll, if any.
    pub last_error: Option<String>,
    /// Total number of completed poll attempts (success or failure).
    pub run_count: u64,
    /// Configured polling interval in seconds.
    pub poll_interval_secs: u64,
}

pub struct JobInfoView {
    pub name: Seq<char>,
    pub phase: JobPhase,
    pub connected: bool,
    pub last_run: Option<(i64, u32)>,
    pub last_error: Option<Seq<char>>,
    pub run_count: u64,
    pub poll_interval_secs: u64,
}

impl View for JobInfo {
    type V = JobInfoView;

    open spec fn view(&self) -> JobInfoView {
        JobInfoView {
            name: self.name@,
            phase: self.phase,
            connected: self.connected,
            last_run: match self.last_run {
                Some(t) => Some(t@),
                None => None,
            },
            last_error: match self.last_error {
                Some(e) => Some(e@),
                None => None,
            },
            run_count: self.run_count,
            poll_interval_secs: self.poll_interval_secs,
        }
    }
}

pub open spec fn bool_text(b: bool) -> Seq<char> {
    if b {
        "true"@
    } else {
        "false"@
    }
}

/// How `dump` shows the time of the last poll.
pub open spec fn last_run_text(t: Option<(i64, u32)>) -> Seq<char> {
    match t {
        Some(t) => chrono_format(t.0, t.1, "%Y-%m-%d %H:%M:%S UTC"@),
        None => "never"@,
    }
}

/// The multi-line dump of a job's fields shown on the jobs page.
pub open spec fn dump_text(j: JobInfoView) -> Seq<char> {
    "name:               "@ + j.name
        + "\nphase:              "@ + phase_text(j.phase)
        + "\nconnected:          "@ + bool_text(j.connected)
        + "\npoll_interval_secs: "@ + decimal(j.poll_interval_secs as nat)
        + "\nrun_count:          "@ + decimal(j.run_count as nat)
        + "\nlast_run:           "@ + last_run_text(j.last_run)
        + "\nlast_error:         "@ + match j.last_error {
            Some(e) => e,
            None => "none"@,
        }
}

fn bool_str(b: bool) -> (r: &'static str)
    ensures
        r@ == bool_text(b),
{
    if b {
        "true"
    } else {
        "false"
    }
}

impl JobInfo {
    /// A fresh record for a poller that was just spawned.
    pub fn starting(name: String, poll_interval_secs: u64) -> (r: JobInfo)
        ensures
            r@ == (JobInfoView {
                name: name@,
                phase: JobPhase::Starting,
                connected: false,
                last_run: None,
                last_error: None,
                run_count: 0,
                poll_interval_secs,
            }),
    {
        JobInfo {
            name,
            phase: JobPhase::Starting,
            connected: false,
            last_run: None,
            last_error: None,
            run_count: 0,
            poll_interval_secs,
        }
    }

    pub fn copy(&self) -> (r: JobInfo)
        ensures
            r@ == self@,
    {
        JobInfo {
            name: copy_string(&self.name),
            phase: self.phase,
            connected: self.connected,
            last_run: match &self.last_run {
                Some(t) => Some(t.copy()),
                None => None,
            },
            last_error: match &self.last_error {
                Some(e) => Some(copy_string(e)),
                None => None,
            },
            run_count: self.run_count,
            poll_interval_secs: self.poll_interval_secs,
        }
    }

    /// Format all fields as a multi-line "dump" string (for the Jobs UI).
    pub fn dump(&self) -> (r: String)
        ensures
            r@ == dump_text(self@),
    {
        let last_run = match &self.last_run {
            Some(t) => {
                let fmt = "%Y-%m-%d %H:%M:%S UTC";
                proof {
                    reveal_strlit("%Y-%m-%d %H:%M:%S UTC");
                }
                t.format(fmt)
            },
            None => "never".to_owned(),
        };
        let mut r = "name:               ".to_owned();
        r.append(self.name.as_str());
        r.append("\nphase:              ");
        r.append(self.phase.as_str());
        r.append("\nconnected:          ");
        r.append(bool_str(self.connected));
        r.append("\npoll_interval_secs: ");
        r.append(crate::text::u64_to_decimal(self.poll_interval_secs).as_str());
        r.append("\nrun_count:          ");
        r.append(crate::text::u64_to_decimal(self.run_count).as_str());
        r.append("\nlast_run:           ");
        r.append(last_run.as_str());
        r.append("\nlast_error:         ");
        match &self.last_error {
            Some(e) => r.append(e.as_str()),
            None => r.append("none"),
        }
        r
    }
}

// ── The status board ──────────────────────────────────────────────────────────

/// The status of every poller, in the order they were first spawned.
pub struct JobBoard {
    jobs: Vec<JobInfo>,
}

pub open spec fn job_views(s: Seq<JobInfo>) -> Seq<JobInfoView> {
    s.map_values(|j: JobInfo| j@)
}

impl View for JobBoard {
    type V = Seq<JobInfoView>;

    closed spec fn view(&self) -> Seq<JobInfoView> {
        job_views(self.jobs@)
    }
}

/// `i` is the first entry of `jobs` named `name` (the one `find` picks).
pub open spec fn first_named(jobs: Seq<JobInfoView>, name: Seq<char>, i: int) -> bool {
    &&& 0 <= i < jobs.len()
    &&& jobs[i].name == name
    &&& forall|j: int| 0 <= j < i ==> jobs[j].name != name
}

pub open spec fn has_named(jobs: Seq<JobInfoView>, name: Seq<char>) -> bool {
    exists|i: int| 0 <= i < jobs.len() && jobs[i].name == name
}

/// No two entries share a name.
pub open spec fn names_distinct(jobs: Seq<JobInfoView>) -> bool {
    forall|i: int, j: int| 0 <= i < j < jobs.len() ==> jobs[i].name != jobs[j].name
}

/// The board after `f` was applied to the first entry named `name`; the
/// board unchanged when there is none.
pub open spec fn update_named(
    jobs: Seq<JobInfoView>,
    name: Seq<char>,
    f: spec_fn(JobInfoView) -> JobInfoView,
) -> Seq<JobInfoView> {
    if has_named(jobs, name) {
        let i = choose|i: int| first_named(jobs, name, i);
        jobs.update(i, f(jobs[i]))
    } else {
        jobs
    }
}

pub proof fn lemma_first_named_unique(jobs: Seq<JobInfoView>, name: Seq<char>, i: int, k: int)
    requires
        first_named(jobs, name, i),
        first_named(jobs, name, k),
    ensures
        i == k,
{
}

proof fn lemma_has_named_first(jobs: Seq<JobInfoView>, name: Seq<char>, i: int)
    requires
        first_named(jobs, name, i),
    ensures
        has_named(jobs, name),
        update_named_index(jobs, name) == i,
{
    assert(jobs[i].name == name);
    let k = choose|k: int| first_named(jobs, name, k);
    assert(first_named(jobs, name, k));
    lemma_first_named_unique(jobs, name, i, k);
}

spec fn update_named_index(jobs: Seq<JobInfoView>, name: Seq<char>) -> int {
    choose|i: int| first_named(jobs, name, i)
}

pub open spec fn set_starting(interval: u64) -> spec_fn(JobInfoView) -> JobInfoView {
    |j: JobInfoView| JobInfoView { phase: JobPhase::Starting, poll_interval_secs: interval, ..j }
}

pub open spec fn set_stopped() -> spec_fn(JobInfoView) -> JobInfoView {
    |j: JobInfoView| JobInfoView { phase: JobPhase::Stopped, ..j }
}

pub open spec fn set_running(now: (i64, u32)) -> spec_fn(JobInfoView) -> JobInfoView {
    |j: JobInfoView| JobInfoView { phase: JobPhase::Running, last_run: Some(now), ..j }
}

pub open spec fn set_succeeded() -> spec_fn(JobInfoView) -> JobInfoView {
    |j: JobInfoView|
        JobInfoView {
            phase: JobPhase::Idle,
            connected: true,
            last_error: None,
            run_count: (j.run_count + 1) as u64,
            ..j
        }
}

pub open spec fn set_failed(err: Seq<char>) -> spec_fn(JobInfoView) -> JobInfoView {
    |j: JobInfoView|
        JobInfoView {
            phase: JobPhase::Error,
            connected: false,
            last_error: Some(err),
            run_count: (j.run_count + 1) as u64,
            ..j
        }
}

pub open spec fn set_settled() -> spec_fn(JobInfoView) -> JobInfoView {
    |j: JobInfoView|
        if j.phase == JobPhase::Running {
            JobInfoView { phase: JobPhase::Idle, ..j }
        } else {
            j
        }
}

/// The counter of the entry named `name` can still be incremented.
pub open spec fn count_has_room(jobs: Seq<JobInfoView>, name: Seq<char>) -> bool {
    forall|i: int| 0 <= i < jobs.len() && jobs[i].name == name ==> jobs[i].run_count < u64::MAX
}

impl JobBoard {
    pub fn new() -> (r: JobBoard)
        ensures
            r@ == Seq::<JobInfoView>::empty(),
    {
        JobBoard { jobs: Vec::new() }
    }

    pub fn len(&self) -> (r: usize)
        ensures
            r == self@.len(),
    {
        self.jobs.len()
    }

    /// The entry at `i`.
    pub fn get(&self, i: usize) -> (r: &JobInfo)
        requires
            i < self@.len(),
        ensures
            r@ == self@[i as int],
    {
        &self.jobs[i]
    }

    /// The first entry named `name`.
    pub fn find(&self, name: &str) -> (r: Option<usize>)
        ensures
            match r {
                Some(i) => first_named(self@, name@, i as int),
                None => !has_named(self@, name@),
            },
    {
        let mut i: usize = 0;
        while i < self.jobs.len()
            invariant
                i <= self.jobs@.len(),
                forall|j: int| 0 <= j < i ==> self@[j].name != name@,
            decreases self.jobs@.len() - i,
        {
            if str_eq_string(&self.jobs[i].name, name) {
                return Some(i);
            }
            i = i + 1;
        }
        None
    }

    /// A point-in-time copy of every job's status.
    pub fn snapshot(&self) -> (r: Vec<JobInfo>)
        ensures
            job_views(r@) == self@,
    {
        let mut r: Vec<JobInfo> = Vec::new();
        let mut i: usize = 0;
        while i < self.jobs.len()
            invariant
                i <= self.jobs@.len(),
                job_views(r@) == self@.take(i as int),
            decreases self.jobs@.len() - i,
        {
            let c = self.jobs[i].copy();
            let ghost before = r@;
            r.push(c);
            assert(job_views(r@) =~= job_views(before).push(c@));
            assert(self@.take(i + 1) =~= self@.take(i as int).push(self@[i as int]));
            i = i + 1;
        }
        assert(self@.take(i as int) =~= self@);
        r
    }
}

impl JobBoard {
    /// Initialise or reset the entry of a poller that is being (re)spawned:
    /// an existing entry goes back to `Starting` with the new interval and
    /// keeps its history; otherwise a fresh entry is appended.
    pub fn register(&mut self, name: String, poll_interval_secs: u64)
        ensures
            has_named(old(self)@, name@) ==> final(self)@ == update_named(
                old(self)@,
                name@,
                set_starting(poll_interval_secs),
            ),
            !has_named(old(self)@, name@) ==> final(self)@ == old(self)@.push(
                JobInfoView {
                    name: name@,
                    phase: JobPhase::Starting,
                    connected: false,
                    last_run: None,
                    last_error: None,
                    run_count: 0,
                    poll_interval_secs,
                },
            ),
            names_distinct(old(self)@) ==> names_distinct(final(self)@),
            exists|i: int|
                first_named(final(self)@, name@, i) && final(self)@[i].phase == JobPhase::Starting
                    && final(self)@[i].poll_interval_secs == poll_interval_secs,
    {
        match self.find(name.as_str()) {
            Some(i) => {
                proof {
                    lemma_has_named_first(self@, name@, i as int);
                }
                let ghost before = self.jobs@;
                self.jobs[i].phase = JobPhase::Starting;
                self.jobs[i].poll_interval_secs = poll_interval_secs;
                assert(job_views(self.jobs@) =~= job_views(before).update(
                    i as int,
                    (set_starting(poll_interval_secs))(job_views(before)[i as int]),
                ));
                assert(first_named(self@, name@, i as int));
            },
            None => {
                let ghost before = self.jobs@;
                self.jobs.push(JobInfo::starting(name, poll_interval_secs));
                assert(job_views(self.jobs@) =~= job_views(before).push(self.jobs@.last()@));
                assert(first_named(self@, name@, before.len() as int));
            },
        }
    }

    /// Mark the poller `name` as stopped.
    pub fn stop(&mut self, name: &str)
        ensures
            final(self)@ == update_named(old(self)@, name@, set_stopped()),
    {
        if let Some(i) = self.find(name) {
            proof {
                lemma_has_named_first(self@, name@, i as int);
            }
            let ghost before = self.jobs@;
            self.jobs[i].phase = JobPhase::Stopped;
            assert(job_views(self.jobs@) =~= job_views(before).update(
                i as int,
                (set_stopped())(job_views(before)[i as int]),
            ));
        }
    }

    /// A poll of `name` begins at `now`.
    pub fn poll_started(&mut self, name: &str, now: Timestamp)
        ensures
            final(self)@ == update_named(old(self)@, name@, set_running(now@)),
    {
        if let Some(i) = self.find(name) {
            proof {
                lemma_has_named_first(self@, name@, i as int);
            }
            let ghost before = self.jobs@;
            self.jobs[i].phase = JobPhase::Running;
            self.jobs[i].last_run = Some(now);
            assert(job_views(self.jobs@) =~= job_views(before).update(
                i as int,
                (set_running(now@))(job_views(before)[i as int]),
            ));
        }
    }

    /// The poll of `name` returned messages.
    pub fn poll_succeeded(&mut self, name: &str)
        requires
            count_has_room(old(self)@, name@),
        ensures
            final(self)@ == update_named(old(self)@, name@, set_succeeded()),
    {
        if let Some(i) = self.find(name) {
            proof {
                lemma_has_named_first(self@, name@, i as int);
            }
            let ghost before = self.jobs@;
            assert(job_views(before)[i as int].run_count < u64::MAX);
            let n = self.jobs[i].run_count + 1;
            self.jobs[i].phase = JobPhase::Idle;
            self.jobs[i].connected = true;
            self.jobs[i].last_error = None;
            self.jobs[i].run_count = n;
            assert(job_views(self.jobs@) =~= job_views(before).update(
                i as int,
                (set_succeeded())(job_views(before)[i as int]),
            ));
        }
    }

    /// The poll of `name` failed with `err`.
    pub fn poll_failed(&mut self, name: &str, err: String)
        requires
            count_has_room(old(self)@, name@),
        ensures
            final(self)@ == update_named(old(self)@, name@, set_failed(err@)),
    {
        if let Some(i) = self.find(name) {
            proof {
                lemma_has_named_first(self@, name@, i as int);
            }
            let ghost before = self.jobs@;
            assert(job_views(before)[i as int].run_count < u64::MAX);
            let n = self.jobs[i].run_count + 1;
            let ghost e = err@;
            self.jobs[i].phase = JobPhase::Error;
            self.jobs[i].connected = false;
            self.jobs[i].last_error = Some(err);
            self.jobs[i].run_count = n;
            assert(job_views(self.jobs@) =~= job_views(before).update(
                i as int,
                (set_failed(e))(job_views(before)[i as int]),
            ));
        }
    }

    /// Between polls a job that is still `Running` goes back to `Idle`; an
    /// `Error` stays visible.
    pub fn poll_settled(&mut self, name: &str)
        ensures
            final(self)@ == update_named(old(self)@, name@, set_settled()),
    {
        if let Some(i) = self.find(name) {
            proof {
                lemma_has_named_first(self@, name@, i as int);
            }
            let ghost before = self.jobs@;
            if self.jobs[i].phase == JobPhase::Running {
                self.jobs[i].phase = JobPhase::Idle;
            }
            assert(job_views(self.jobs@) =~= job_views(before).update(
                i as int,
                (set_settled())(job_views(before)[i as int]),
            ));
        }
    }
}

/// Two boards list the same names in the same order.
pub open spec fn same_names(a: Seq<JobInfoView>, b: Seq<JobInfoView>) -> bool {
    &&& a.len() == b.len()
    &&& forall|k: int| 0 <= k < a.len() ==> #[trigger] a[k].name == b[k].name
}

proof fn lemma_first_exists(jobs: Seq<JobInfoView>, name: Seq<char>, i: int)
    requires
        0 <= i < jobs.len(),
        jobs[i].name == name,
    ensures
        exists|k: int| first_named(jobs, name, k),
    decreases i,
{
    if exists|j: int| 0 <= j < i && jobs[j].name == name {
        let j = choose|j: int| 0 <= j < i && jobs[j].name == name;
        lemma_first_exists(jobs, name, j);
    } else {
        assert(first_named(jobs, name, i));
    }
}

proof fn lemma_update_keeps_names(
    jobs: Seq<JobInfoView>,
    name: Seq<char>,
    f: spec_fn(JobInfoView) -> JobInfoView,
)
    requires
        forall|j: JobInfoView| #[trigger] f(j).name == j.name,
    ensures
        same_names(update_named(jobs, name, f), jobs),
{
    if has_named(jobs, name) {
        let w = choose|w: int| 0 <= w < jobs.len() && jobs[w].name == name;
        lemma_first_exists(jobs, name, w);
        let i = choose|i: int| first_named(jobs, name, i);
        assert(f(jobs[i]).name == jobs[i].name);
    }
}

/// Every transition a poll drives a job through leaves the board's length
/// and the name of every entry as they were: only `register` adds entries.
pub proof fn lemma_transitions_keep_names(
    jobs: Seq<JobInfoView>,
    name: Seq<char>,
    now: (i64, u32),
    err: Seq<char>,
    interval: u64,
)
    ensures
        same_names(update_named(jobs, name, set_starting(interval)), jobs),
        same_names(update_named(jobs, name, set_stopped()), jobs),
        same_names(update_named(jobs, name, set_running(now)), jobs),
        same_names(update_named(jobs, name, set_succeeded()), jobs),
        same_names(update_named(jobs, name, set_failed(err)), jobs),
        same_names(update_named(jobs, name, set_settled()), jobs),
{
    lemma_update_keeps_names(jobs, name, set_starting(interval));
    lemma_update_keeps_names(jobs, name, set_stopped());
    lemma_update_keeps_names(jobs, name, set_running(now));
    lemma_update_keeps_names(jobs, name, set_succeeded());
    lemma_update_keeps_names(jobs, name, set_failed(err));
    lemma_update_keeps_names(jobs, name, set_settled());
}

fn str_eq_string(a: &String, b: &str) -> (r: bool)
    ensures
        r == (a@ == b@),
{
    crate::text::str_eq(a.as_str(), b)
}

// ── Decisions of the poll loop ────────────────────────────────────────────────

/// The first three characters of `s`, or all of it when it is shorter.
pub open spec fn first_three(s: Seq<char>) -> Seq<char> {
    if s.len() < 3 {
        s
    } else {
        s.take(3)
    }
}

/// The upper-case form of `subject` starts with `"RE:"`.  The first three
/// characters decide; where they are ASCII this is their ASCII upper-casing
/// spelling `"RE:"`.
pub open spec fn starts_with_re(subject: Seq<char>) -> bool {
    if vstd::utf8::is_ascii_chars(first_three(subject)) {
        ascii_upper_text(first_three(subject)) == "RE:"@
    } else {
        starts_with(uppercase(subject), "RE:"@)
    }
}

/// The subject of the e-mail that answers a command sent with `subject`.
pub open spec fn reply_subject_text(subject: Seq<char>) -> Seq<char> {
    if subject.len() == 0 {
        "Re: troop"@
    } else if starts_with_re(subject) {
        subject
    } else {
        "Re: "@ + subject
    }
}

/// Subject line for a reply: "Re: troop" for an empty subject, the subject
/// itself when it already starts with "Re:" in any case, else "Re: " before it.
pub fn reply_subject(subject: &str) -> (r: String)
    ensures
        r@ == reply_subject_text(subject@),
{
    if subject.is_empty() {
        return "Re: troop".to_owned();
    }
    let upper = to_upper(subject);
    let re = str_starts_with(upper.as_str(), "RE:");
    proof {
        reveal_strlit("RE:");
        let s = subject@;
        if vstd::utf8::is_ascii_chars(first_three(s)) {
            let k: int = if s.len() < 3 {
                s.len() as int
            } else {
                3
            };
            assert(s.take(k) =~= first_three(s));
            assert(starts_with(upper@, ascii_upper_text(s.take(k))));
            if s.len() >= 3 {
                assert(upper@.subrange(0, 3) =~= ascii_upper_text(first_three(s)));
            }
        }
    }
    if re {
        subject.to_owned()
    } else {
        concat2("Re: ", subject)
    }
}

/// A subject whose first three characters are `r` or `R`, `e` or `E`, and
/// `:` already reads as a reply and is kept unchanged as the answer's
/// subject.
pub proof fn lemma_reply_keeps_re_subject(subject: Seq<char>)
    requires
        subject.len() >= 3,
        ascii_upper(subject[0]) == 'R',
        ascii_upper(subject[1]) == 'E',
        subject[2] == ':',
    ensures
        reply_subject_text(subject) == subject,
{
    reveal_strlit("RE:");
    let h = first_three(subject);
    assert(h.len() == 3);
    assert(vstd::utf8::is_ascii_chars(h));
    assert(ascii_upper_text(h) =~= "RE:"@);
}

/// `"Re: "` goes before every other non-empty subject whose first three
/// characters are ASCII.
pub proof fn lemma_reply_prefixes_other_subject(subject: Seq<char>)
    requires
        subject.len() > 0,
        vstd::utf8::is_ascii_chars(first_three(subject)),
        !(subject.len() >= 3 && ascii_upper(subject[0]) == 'R' && ascii_upper(subject[1]) == 'E'
            && subject[2] == ':'),
    ensures
        reply_subject_text(subject) == "Re: "@ + subject,
{
    reveal_strlit("RE:");
    let h = first_three(subject);
    if ascii_upper_text(h) == "RE:"@ {
        assert(ascii_upper_text(h).len() == 3);
        assert(subject.len() >= 3);
        assert(h[0] == subject[0] && h[1] == subject[1] && h[2] == subject[2]);
        assert(ascii_upper_text(h)[0] == ascii_upper(h[0]));
        assert(ascii_upper_text(h)[1] == ascii_upper(h[1]));
        assert(ascii_upper_text(h)[2] == ascii_upper(h[2]));
        assert(subject[2] == ':');
        assert(false);
    }
}

/// Answering an answer adds nothing: the subject of the reply to a reply is
/// the reply's own subject, whatever the first subject was.
pub proof fn lemma_reply_subject_idempotent(subject: Seq<char>)
    ensures
        reply_subject_text(reply_subject_text(subject)) == reply_subject_text(subject),
{
    reveal_strlit("Re: troop");
    reveal_strlit("Re: ");
    let r = reply_subject_text(subject);
    if r != subject {
        assert(r.len() >= 3);
        assert(r[0] == 'R');
        assert(r[1] == 'e');
        assert(r[2] == ':');
        lemma_reply_keeps_re_subject(r);
    } else {
        assert(subject.len() > 0);
        assert(starts_with_re(subject));
    }
}

/// Only e-mail sources (IMAP and POP3) can be answered by mail.
pub open spec fn is_email_source(source_name: Seq<char>) -> bool {
    starts_with(source_name, "imap:"@) || starts_with(source_name, "pop3:"@)
}

/// Whether a command handled by the poller `source_name` is answered by mail:
/// the source speaks an e-mail protocol and the account has an SMTP host.
pub fn wants_reply(source_name: &str, account: &AccountConfig) -> (r: bool)
    ensures
        r == (is_email_source(source_name@) && account.smtp_host is Some),
{
    (str_starts_with(source_name, "imap:") || str_starts_with(source_name, "pop3:"))
        && account.smtp_host.is_some()
}

/// A trigger key names the account `account`: it is the account name itself,
/// or a source name `<protocol>:<account>`.
pub open spec fn key_matches_exact(key: Seq<char>, account: Seq<char>) -> bool {
    key == account
}

pub open spec fn key_matches_suffix(key: Seq<char>, account: Seq<char>) -> bool {
    ends_with(key, seq![':'] + account)
}

/// The trigger of a source named `<type>:<name>` is found both by its own
/// name and by the bare account name.
pub proof fn lemma_source_key_matches(kind: Seq<char>, name: Seq<char>)
    ensures
        key_matches_exact(kind + seq![':'] + name, kind + seq![':'] + name),
        key_matches_suffix(kind + seq![':'] + name, name),
{
    let key = kind + seq![':'] + name;
    assert(key.subrange(key.len() - (name.len() + 1), key.len() as int) =~= seq![':'] + name);
}

/// Which of the registered trigger `keys` a manual poll of `account_name`
/// wakes: an exact match first, else the first key ending in
/// `":" + account_name`; `None` when no key fits.
pub fn find_trigger(keys: &[String], account_name: &str) -> (r: Option<usize>)
    ensures
        match r {
            Some(i) => {
                &&& i < keys@.len()
                &&& if exists|k: int| 0 <= k < keys@.len() && key_matches_exact(keys@[k]@, account_name@) {
                    key_matches_exact(keys@[i as int]@, account_name@)
                } else {
                    &&& key_matches_suffix(keys@[i as int]@, account_name@)
                    &&& forall|k: int| 0 <= k < i ==> !key_matches_suffix(keys@[k]@, account_name@)
                }
            },
            None => forall|k: int|
                0 <= k < keys@.len() ==> !key_matches_exact(keys@[k]@, account_name@)
                    && !key_matches_suffix(keys@[k]@, account_name@),
        },
{
    let mut i: usize = 0;
    while i < keys.len()
        invariant
            i <= keys@.len(),
            forall|k: int| 0 <= k < i ==> !key_matches_exact(keys@[k]@, account_name@),
        decreases keys@.len() - i,
    {
        if str_eq(keys[i].as_str(), account_name) {
            return Some(i);
        }
        i = i + 1;
    }
    let suffix = concat2(":", account_name);
    proof {
        reveal_strlit(":");
        assert(suffix@ =~= seq![':'] + account_name@);
    }
    let mut j: usize = 0;
    while j < keys.len()
        invariant
            j <= keys@.len(),
            suffix@ == seq![':'] + account_name@,
            forall|k: int| 0 <= k < keys@.len() ==> !key_matches_exact(keys@[k]@, account_name@),
            forall|k: int| 0 <= k < j ==> !key_matches_suffix(keys@[k]@, account_name@),
        decreases keys@.len() - j,
    {
        if str_ends_with(keys[j].as_str(), suffix.as_str()) {
            return Some(j);
        }
        j = j + 1;
    }
    None
}

/// Positions, in order, of the accounts whose poller should run.
pub open spec fn enabled_positions(accounts: Seq<AccountConfig>) -> Seq<int>
    decreases accounts.len(),
{
    if accounts.len() == 0 {
        Seq::empty()
    } else {
        let p = enabled_positions(accounts.drop_last());
        if accounts.last().enabled {
            p.push(accounts.len() - 1)
        } else {
            p
        }
    }
}

/// The accounts `start_all` spawns a poller for: the enabled ones, in order.
pub fn enabled_accounts(accounts: &[AccountConfig]) -> (r: Vec<usize>)
    ensures
        r@.map_values(|i: usize| i as int) == enabled_positions(accounts@),
{
    let mut r: Vec<usize> = Vec::new();
    let mut i: usize = 0;
    while i < accounts.len()
        invariant
            i <= accounts@.len(),
            r@.map_values(|k: usize| k as int) == enabled_positions(accounts@.take(i as int)),
        decreases accounts@.len() - i,
    {
        assert(accounts@.take(i + 1).drop_last() =~= accounts@.take(i as int));
        if accounts[i].enabled {
            r.push(i);
        }
        assert(r@.map_values(|k: usize| k as int) =~= enabled_positions(accounts@.take(i + 1)));
        i = i + 1;
    }
    assert(accounts@.take(i as int) =~= accounts@);
    r
}

/// What the poll loop does with one incoming message.
pub enum MessagePlan {
    /// The filters turn the message away.
    Rejected,
    /// Carry out `command`; when `reply_subject` is set, mail the answer to
    /// the sender under that subject.
    Run { command: Command, reply_subject: Option<String> },
}

/// The filters let `msg` through (see `is_allowed`).
pub open spec fn admitted(msg: Message, filters: Seq<FilterConfig>, gpg_verified: bool) -> bool {
    filters.len() == 0 || exists|i: int|
        0 <= i < filters.len() && filter_accepts(msg, #[trigger] filters[i], gpg_verified)
}

/// Decide what the poller `source_name` of `account` does with `msg`:
/// messages the filters reject are dropped; any other is parsed into a
/// command, and answered by mail when the source is an e-mail one with an
/// SMTP host.
pub fn plan_message(
    msg: &Message,
    filters: &[FilterConfig],
    gpg_verified: bool,
    source_name: &str,
    account: &AccountConfig,
) -> (r: MessagePlan)
    ensures
        !admitted(*msg, filters@, gpg_verified) ==> r is Rejected,
        admitted(*msg, filters@, gpg_verified) ==> match r {
            MessagePlan::Run { command, reply_subject } => {
                &&& command@ == command_of(msg.subject@, msg.body@)
                &&& reply_subject is Some == (is_email_source(source_name@)
                    && account.smtp_host is Some)
                &&& reply_subject matches Some(s) ==> s@ == reply_subject_text(msg.subject@)
            },
            MessagePlan::Rejected => false,
        },
{
    if !is_allowed(msg, filters, gpg_verified) {
        return MessagePlan::Rejected;
    }
    let command = parse_command(msg);
    let reply_subject = if wants_reply(source_name, account) {
        Some(reply_subject(msg.subject.as_str()))
    } else {
        None
    };
    MessagePlan::Run { command, reply_subject }
}

} // verus!
