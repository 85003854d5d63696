//! The HTML pages of the web interface, rendered as plain strings.
use vstd::prelude::*;

use crate::config::{account_type_text, AccountConfig, FilterConfig, HeaderCheck};
use crate::storage::{Task, TaskView};
use crate::text::{
    concat2, decimal, join_strings, joined, push_char, starts_with, str_eq,
    str_starts_with, string_views, u64_to_decimal, usize_to_decimal,
};
use crate::time::chrono_format;

verus! {

// ── CSS ───────────────────────────────────────────────────────────────────────

/// The style sheet embedded in every page.
pub const CSS: &'static str = r#"
:root {
  --bg: #f5f5f5;
  --card: #fff;
  --accent: #2563eb;
  --accent-dark: #1d4ed8;
  --danger: #dc2626;
  --muted: #6b7280;
  --border: #e5e7eb;
  --radius: 8px;
  --font: -apple-system, BlinkMacSystemFont, "Segoe UI", Roboto, sans-serif;
}
* { box-sizing: border-box; margin: 0; padding: 0; }
body {
  font-family: var(--font);
  background: var(--bg);
  color: #111;
  min-height: 100vh;
  max-width: 480px;
  margin: 0 auto;
  padding: 0 0 env(safe-area-inset-bottom, 0);
}
a { color: var(--accent); text-decoration: none; }
a:hover { text-decoration: underline; }
header {
  background: var(--accent);
  color: #fff;
  padding: 12px 16px;
  display: flex;
  align-items: center;
  justify-content: space-between;
  position: sticky;
  top: 0;
  z-index: 100;
}
header a { color: #fff; font-weight: 600; }
nav { display: flex; gap: 12px; font-size: 0.875rem; }
nav a { color: rgba(255,255,255,0.85); }
nav a.active { color: #fff; font-weight: 700; }
main { padding: 16px; }
h1 { font-size: 1.25rem; font-weight: 700; margin-bottom: 16px; }
h2 { font-size: 1rem; font-weight: 600; margin-bottom: 12px; color: var(--muted); text-transform: uppercase; letter-spacing: 0.05em; }
.card {
  background: var(--card);
  border-radius: var(--radius);
  border: 1px solid var(--border);
  padding: 14px 16px;
  margin-bottom: 10px;
}
.card-title { font-weight: 600; font-size: 1rem; margin-bottom: 4px; }
.card-meta { font-size: 0.78rem; color: var(--muted); }
.badge {
  display: inline-block;
  padding: 2px 8px;
  border-radius: 12px;
  font-size: 0.72rem;
  font-weight: 600;
  text-transform: uppercase;
  letter-spacing: 0.04em;
}
.badge-todo { background: #fef3c7; color: #92400e; }
.badge-done { background: #d1fae5; color: #065f46; }
.actions { display: flex; gap: 8px; margin-top: 10px; flex-wrap: wrap; }
form.inline { display: inline; }
button, .btn {
  display: inline-block;
  padding: 8px 14px;
  border-radius: 6px;
  font-size: 0.875rem;
  font-weight: 500;
  cursor: pointer;
  border: none;
  background: var(--accent);
  color: #fff;
  transition: background 0.15s;
}
button:hover, .btn:hover { background: var(--accent-dark); }
button.danger { background: var(--danger); }
button.danger:hover { background: #b91c1c; }
button.secondary { background: #fff; color: var(--accent); border: 1px solid var(--border); }
button.secondary:hover { background: var(--bg); }
.form-group { margin-bottom: 14px; }
label { display: block; font-size: 0.875rem; font-weight: 500; margin-bottom: 5px; }
input[type=text], input[type=password], input[type=number], select, textarea {
  width: 100%;
  padding: 9px 12px;
  border: 1px solid var(--border);
  border-radius: 6px;
  font-size: 0.9rem;
  font-family: var(--font);
  background: #fff;
}
input:focus, textarea:focus, select:focus { outline: 2px solid var(--accent); border-color: transparent; }
textarea { min-height: 80px; resize: vertical; }
.empty { color: var(--muted); font-size: 0.9rem; text-align: center; padding: 32px 0; }
.flash { padding: 10px 14px; border-radius: var(--radius); margin-bottom: 14px; font-size: 0.875rem; }
.flash-ok  { background: #d1fae5; color: #065f46; }
.flash-err { background: #fee2e2; color: #991b1b; }
.status-dot {
  display: inline-block; width: 8px; height: 8px; border-radius: 50%; margin-right: 6px;
}
.dot-ok  { background: #22c55e; }
.dot-off { background: #94a3b8; }
.section-header { display: flex; justify-content: space-between; align-items: center; margin-bottom: 12px; }
.id-chip { font-family: monospace; font-size: 0.78rem; background: #f3f4f6; padding: 2px 6px; border-radius: 4px; color: var(--muted); }
pre { background: #f3f4f6; padding: 12px; border-radius: 6px; font-size: 0.82rem; overflow-x: auto; white-space: pre-wrap; }
"#;

// ── Escaping ──────────────────────────────────────────────────────────────────

/// The text that stands for `c` in escaped HTML.
pub open spec fn escape_char(c: char) -> Seq<char> {
    if c == '&' {
        "&amp;"@
    } else if c == '<' {
        "&lt;"@
    } else if c == '>' {
        "&gt;"@
    } else if c == '"' {
        "&quot;"@
    } else if c == '\'' {
        "&#x27;"@
    } else {
        seq![c]
    }
}

/// `s` with every character of special meaning in HTML replaced by its entity.
pub open spec fn escape_html(s: Seq<char>) -> Seq<char>
    decreases s.len(),
{
    if s.len() == 0 {
        Seq::empty()
    } else {
        escape_html(s.drop_last()) + escape_char(s.last())
    }
}

/// A character that HTML markup gives a meaning to.
pub open spec fn is_markup_char(c: char) -> bool {
    c == '<' || c == '>' || c == '"' || c == '\''
}

/// Escaped text holds no raw `<`, `>`, `"` or `'`: nothing of it can open or
/// close a tag or an attribute.
pub proof fn lemma_escape_has_no_markup(s: Seq<char>)
    ensures
        forall|i: int| 0 <= i < escape_html(s).len() ==> !is_markup_char(#[trigger] escape_html(s)[i]),
    decreases s.len(),
{
    reveal_strlit("&amp;");
    reveal_strlit("&lt;");
    reveal_strlit("&gt;");
    reveal_strlit("&quot;");
    reveal_strlit("&#x27;");
    if s.len() > 0 {
        lemma_escape_has_no_markup(s.drop_last());
        let a = escape_html(s.drop_last());
        let b = escape_char(s.last());
        assert forall|i: int| 0 <= i < escape_html(s).len() implies !is_markup_char(
            #[trigger] escape_html(s)[i],
        ) by {
            if i >= a.len() {
                assert(escape_html(s)[i] == b[i - a.len()]);
            } else {
                assert(escape_html(s)[i] == a[i]);
            }
        }
    }
}

/// Text without `&`, `<`, `>`, `"` or `'` comes out of escaping unchanged.
pub proof fn lemma_escape_plain_text(s: Seq<char>)
    requires
        forall|i: int| 0 <= i < s.len() ==> s[i] != '&' && !is_markup_char(#[trigger] s[i]),
    ensures
        escape_html(s) == s,
    decreases s.len(),
{
    if s.len() > 0 {
        lemma_escape_plain_text(s.drop_last());
        assert(s.drop_last().push(s.last()) =~= s);
    } else {
        assert(escape_html(s) =~= s);
    }
}

/// Escape characters with special meaning in HTML.
pub fn html_escape(s: &str) -> (r: String)
    ensures
        r@ == escape_html(s@),
{
    let v = crate::text::chars_of(s);
    let mut r = String::new();
    let n = v.len();
    let mut i: usize = 0;
    while i < n
        invariant
            i <= n,
            n == v@.len(),
            v@ == s@,
            r@ == escape_html(s@.take(i as int)),
        decreases n - i,
    {
        let c = v[i];
        assert(s@.take(i + 1).drop_last() =~= s@.take(i as int));
        assert(s@.take(i + 1).last() == c);
        if c == '&' {
            r.append("&amp;");
        } else if c == '<' {
            r.append("&lt;");
        } else if c == '>' {
            r.append("&gt;");
        } else if c == '"' {
            r.append("&quot;");
        } else if c == '\'' {
            r.append("&#x27;");
        } else {
            push_char(&mut r, c);
        }
        i = i + 1;
    }
    assert(s@.take(n as int) =~= s@);
    r
}

// ── Layout ────────────────────────────────────────────────────────────────────

pub const PAGE_HEAD: &'static str = "<!DOCTYPE html>\n<html lang=\"en\">\n<head>\n<meta charset=\"utf-8\">\n<meta name=\"viewport\" content=\"width=device-width, initial-scale=1, viewport-fit=cover\">\n<title>";

pub const PAGE_STYLE: &'static str = " – troop</title>\n<style>";

pub const PAGE_HEADER: &'static str = "</style>\n</head>\n<body>\n<header>\n  <a href=\"/tasks\">📋 troop</a>\n  <nav>\n    ";

pub const PAGE_NAV_SEP: &'static str = "\n    ";

pub const PAGE_MAIN: &'static str = "\n  </nav>\n</header>\n<main>\n";

pub const PAGE_TAIL: &'static str = "\n</main>\n</body>\n</html>";

/// The banner shown above a page's body: messages starting with `ERR:` are
/// errors (shown without that prefix), any other message is a confirmation.
pub open spec fn flash_html(flash: Option<Seq<char>>) -> Seq<char> {
    match flash {
        Some(m) => if starts_with(m, "ERR:"@) {
            "<div class=\"flash flash-err\">"@ + escape_html(m.subrange(4, m.len() as int))
                + "</div>"@
        } else {
            "<div class=\"flash flash-ok\">"@ + escape_html(m) + "</div>"@
        },
        None => Seq::empty(),
    }
}

/// A navigation link, marked active when it points at the current section.
pub open spec fn nav_link_text(href: Seq<char>, label: Seq<char>, active: Seq<char>) -> Seq<char> {
    "<a href=\""@ + href + "\""@ + (if href == active {
        " class=\"active\""@
    } else {
        Seq::empty()
    }) + ">"@ + label + "</a>"@
}

/// The complete HTML document around `body`.
pub open spec fn page_text(
    title: Seq<char>,
    active: Seq<char>,
    flash: Option<Seq<char>>,
    body: Seq<char>,
) -> Seq<char> {
    PAGE_HEAD@ + escape_html(title) + PAGE_STYLE@ + CSS@ + PAGE_HEADER@ + nav_link_text(
        "/tasks"@,
        "Tasks"@,
        active,
    ) + PAGE_NAV_SEP@ + nav_link_text("/admin"@, "Admin"@, active) + PAGE_MAIN@ + flash_html(flash)
        + body + PAGE_TAIL@
}

pub open spec fn opt_str_view(o: Option<&str>) -> Option<Seq<char>> {
    match o {
        Some(s) => Some(s@),
        None => None,
    }
}

fn append_flash(r: &mut String, flash: Option<&str>)
    ensures
        final(r)@ == old(r)@ + flash_html(opt_str_view(flash)),
{
    match flash {
        Some(msg) => {
            if str_starts_with(msg, "ERR:") {
                proof {
                    reveal_strlit("ERR:");
                }
                r.append("<div class=\"flash flash-err\">");
                let rest = msg.substring_char(4, msg.unicode_len());
                r.append(html_escape(rest).as_str());
                r.append("</div>");
            } else {
                r.append("<div class=\"flash flash-ok\">");
                r.append(html_escape(msg).as_str());
                r.append("</div>");
            }
        },
        None => {
            assert(old(r)@ + Seq::<char>::empty() =~= old(r)@);
        },
    }
}

fn append_nav_link(r: &mut String, href: &str, label: &str, active: &str)
    ensures
        final(r)@ == old(r)@ + nav_link_text(href@, label@, active@),
{
    r.append("<a href=\"");
    r.append(href);
    r.append("\"");
    if str_eq(href, active) {
        r.append(" class=\"active\"");
    } else {
        assert(r@ + Seq::<char>::empty() =~= r@);
    }
    r.append(">");
    r.append(label);
    r.append("</a>");
}

/// Wrap `body` in the common page layout.
pub fn page(title: &str, active: &str, flash: Option<&str>, body: &str) -> (r: String)
    ensures
        r@ == page_text(title@, active@, opt_str_view(flash), body@),
{
    let mut r = String::new();
    r.append(PAGE_HEAD);
    r.append(html_escape(title).as_str());
    r.append(PAGE_STYLE);
    r.append(CSS);
    r.append(PAGE_HEADER);
    append_nav_link(&mut r, "/tasks", "Tasks", active);
    r.append(PAGE_NAV_SEP);
    append_nav_link(&mut r, "/admin", "Admin", active);
    r.append(PAGE_MAIN);
    append_flash(&mut r, flash);
    r.append(body);
    r.append(PAGE_TAIL);
    assert(r@ =~= page_text(title@, active@, opt_str_view(flash), body@));
    r
}

pub const NOT_FOUND_BODY: &'static str = "<div class=\"empty\"><p>Page not found.</p><p><a href=\"/tasks\">← Back to tasks</a></p></div>";

/// The page served for unknown paths.
pub fn not_found() -> (r: String)
    ensures
        r@ == page_text("Not Found"@, ""@, None, NOT_FOUND_BODY@),
{
    page("Not Found", "", None, NOT_FOUND_BODY)
}

// ── Task list ─────────────────────────────────────────────────────────────────

pub open spec fn card_badge(done: bool) -> Seq<char> {
    if done {
        "<span class=\"badge badge-done\">done</span>"@
    } else {
        "<span class=\"badge badge-todo\">todo</span>"@
    }
}

fn card_badge_str(done: bool) -> (r: &'static str)
    ensures
        r@ == card_badge(done),
{
    if done {
        "<span class=\"badge badge-done\">done</span>"
    } else {
        "<span class=\"badge badge-todo\">todo</span>"
    }
}

/// The buttons of a task card: delete for a completed task, done and delete
/// for a pending one.
pub open spec fn card_actions(id: Seq<char>, done: bool) -> Seq<char> {
    if done {
        "<form class=\"inline\" method=\"post\" action=\"/tasks/"@
            + id
            + "/delete\">\n  <button type=\"submit\" class=\"danger\">Delete</button>\n</form>"@
    } else {
        "<form class=\"inline\" method=\"post\" action=\"/tasks/"@
            + id
            + "/done\">\n  <button type=\"submit\">✓ Done</button>\n</form>\n<form class=\"inline\" method=\"post\" action=\"/tasks/"@
            + id
            + "/delete\">\n  <button type=\"submit\" class=\"danger\">Delete</button>\n</form>"@
    }
}

fn append_card_actions(r: &mut String, id: &str, done: bool)
    ensures
        final(r)@ == old(r)@ + card_actions(id@, done),
{
    if done {
        r.append("<form class=\"inline\" method=\"post\" action=\"/tasks/");
        r.append(id);
        r.append("/delete\">\n  <button type=\"submit\" class=\"danger\">Delete</button>\n</form>");
    } else {
        r.append("<form class=\"inline\" method=\"post\" action=\"/tasks/");
        r.append(id);
        r.append("/done\">\n  <button type=\"submit\">✓ Done</button>\n</form>\n<form class=\"inline\" method=\"post\" action=\"/tasks/");
        r.append(id);
        r.append("/delete\">\n  <button type=\"submit\" class=\"danger\">Delete</button>\n</form>");
    }
    assert(r@ =~= old(r)@ + card_actions(id@, done));
}

/// The card that shows one task in a list.
pub open spec fn card_text(t: TaskView) -> Seq<char> {
    "<div class=\"card\">\n  <div style=\"display:flex;justify-content:space-between;align-items:flex-start;gap:8px\">\n    <div>\n      <div class=\"card-title\"><a href=\"/tasks/"@
        + t.id
        + "\">"@
        + escape_html(t.title)
        + "</a></div>\n      <div class=\"card-meta\">"@
        + card_badge(t.done)
        + " &nbsp;<span class=\"id-chip\">"@
        + t.id
        + "</span> &nbsp;"@
        + chrono_format(t.created.0, t.created.1, "%Y-%m-%d %H:%M"@)
        + "</div>\n    </div>\n  </div>\n  <div class=\"actions\">"@
        + card_actions(t.id, t.done)
        + "</div>\n</div>"@
}

fn append_card(r: &mut String, t: &Task)
    ensures
        final(r)@ == old(r)@ + card_text(t@),
{
    let created = {
        proof {
            reveal_strlit("%Y-%m-%d %H:%M");
        }
        t.created.format("%Y-%m-%d %H:%M")
    };
    r.append("<div class=\"card\">\n  <div style=\"display:flex;justify-content:space-between;align-items:flex-start;gap:8px\">\n    <div>\n      <div class=\"card-title\"><a href=\"/tasks/");
    r.append(t.id.as_str());
    r.append("\">");
    r.append(html_escape(t.title.as_str()).as_str());
    r.append("</a></div>\n      <div class=\"card-meta\">");
    r.append(card_badge_str(t.done));
    r.append(" &nbsp;<span class=\"id-chip\">");
    r.append(t.id.as_str());
    r.append("</span> &nbsp;");
    r.append(created.as_str());
    r.append("</div>\n    </div>\n  </div>\n  <div class=\"actions\">");
    append_card_actions(r, t.id.as_str(), t.done);
    r.append("</div>\n</div>");
    assert(r@ =~= old(r)@ + card_text(t@));
}

pub open spec fn card_texts(ts: Seq<Task>) -> Seq<Seq<char>> {
    ts.map_values(|t: Task| card_text(t@))
}

/// The cards of `ts`, one per line.
pub open spec fn cards_text(ts: Seq<Task>) -> Seq<char> {
    joined(card_texts(ts), "\n"@)
}

fn cards(ts: &[Task]) -> (r: String)
    ensures
        r@ == cards_text(ts@),
{
    let mut v: Vec<String> = Vec::new();
    let mut i: usize = 0;
    while i < ts.len()
        invariant
            i <= ts@.len(),
            string_views(v@) == card_texts(ts@.take(i as int)),
        decreases ts@.len() - i,
    {
        let mut c = String::new();
        append_card(&mut c, &ts[i]);
        let ghost before = v@;
        v.push(c);
        assert(string_views(v@) =~= string_views(before).push(c@));
        assert(card_texts(ts@.take(i + 1)) =~= card_texts(ts@.take(i as int)).push(
            card_text(ts@[i as int]@),
        ));
        i = i + 1;
    }
    assert(ts@.take(i as int) =~= ts@);
    join_strings(v.as_slice(), "\n")
}

/// The form at the top of the task list.
pub const ADD_TASK_FORM: &'static str = "<div class=\"card\" style=\"margin-bottom:18px\">\n  <h2 style=\"margin-bottom:10px\">New Task</h2>\n  <form method=\"post\" action=\"/tasks\">\n    <div class=\"form-group\">\n      <label for=\"title\">Title</label>\n      <input type=\"text\" id=\"title\" name=\"title\" required placeholder=\"Task title…\">\n    </div>\n    <div class=\"form-group\">\n      <label for=\"desc\">Description (optional)</label>\n      <textarea id=\"desc\" name=\"description\" placeholder=\"Details…\"></textarea>\n    </div>\n    <button type=\"submit\">Add Task</button>\n  </form>\n</div>";

pub const NO_PENDING: &'static str = "<p class=\"empty\">No pending tasks 🎉</p>";

pub const NOTHING_DONE: &'static str = "<p class=\"empty\">Nothing completed yet.</p>";

/// The cards of a section, or its placeholder when it is empty.
pub open spec fn section_text(ts: Seq<Task>, empty: Seq<char>) -> Seq<char> {
    if ts.len() == 0 {
        empty
    } else {
        cards_text(ts)
    }
}

fn section(ts: &[Task], empty: &'static str) -> (r: String)
    ensures
        r@ == section_text(ts@, empty@),
{
    if ts.len() == 0 {
        empty.to_owned()
    } else {
        cards(ts)
    }
}

/// The body of the task list page.
pub open spec fn task_list_body(todo: Seq<Task>, done: Seq<Task>) -> Seq<char> {
    (ADD_TASK_FORM@)
        + "\n<div class=\"section-header\"><h2>Pending ("@
        + decimal(todo.len())
        + ")</h2></div>\n"@
        + section_text(todo, NO_PENDING@)
        + "\n<div class=\"section-header\" style=\"margin-top:20px\"><h2>Done ("@
        + decimal(done.len())
        + ")</h2></div>\n"@
        + section_text(done, NOTHING_DONE@)
}

/// The task list page: the form to add a task, then the pending and the
/// completed tasks.
pub fn task_list(todo: &[Task], done: &[Task], flash: Option<&str>) -> (r: String)
    ensures
        r@ == page_text("Tasks"@, "/tasks"@, opt_str_view(flash), task_list_body(todo@, done@)),
{
    let mut r = String::new();
    r.append(ADD_TASK_FORM);
    r.append("\n<div class=\"section-header\"><h2>Pending (");
    r.append(usize_to_decimal(todo.len()).as_str());
    r.append(")</h2></div>\n");
    r.append(section(todo, NO_PENDING).as_str());
    r.append("\n<div class=\"section-header\" style=\"margin-top:20px\"><h2>Done (");
    r.append(usize_to_decimal(done.len()).as_str());
    r.append(")</h2></div>\n");
    r.append(section(done, NOTHING_DONE).as_str());
    assert(r@ =~= task_list_body(todo@, done@));
    page("Tasks", "/tasks", flash, r.as_str())
}

// ── Task detail ───────────────────────────────────────────────────────────────

pub open spec fn detail_badge(done: bool) -> Seq<char> {
    if done {
        "<span class=\"badge badge-done\">done</span>"@
    } else {
        "<span class=\"badge badge-todo\">pending</span>"@
    }
}

fn detail_badge_str(done: bool) -> (r: &'static str)
    ensures
        r@ == detail_badge(done),
{
    if done {
        "<span class=\"badge badge-done\">done</span>"
    } else {
        "<span class=\"badge badge-todo\">pending</span>"
    }
}

pub const NO_DESCRIPTION: &'static str = "<p style=\"color:var(--muted);font-style:italic\">No description.</p>";

/// The description block: the escaped text, or a note that there is none.
pub open spec fn description_html(d: Seq<char>) -> Seq<char> {
    if d.len() == 0 {
        NO_DESCRIPTION@
    } else {
        "<pre>"@ + escape_html(d) + "</pre>"@
    }
}

/// The "mark done" button, shown for pending tasks only.
pub open spec fn done_button(id: Seq<char>, done: bool) -> Seq<char> {
    if done {
        Seq::empty()
    } else {
        "<form class=\"inline\" method=\"post\" action=\"/tasks/"@
            + id
            + "/done\">\n  <button type=\"submit\">✓ Mark Done</button>\n</form>"@
    }
}

/// The body of a task's own page.
pub open spec fn task_detail_body(t: TaskView) -> Seq<char> {
    "<div style=\"margin-bottom:8px\"><a href=\"/tasks\">← Back</a></div>\n<div class=\"card\">\n  <h1>"@
        + escape_html(t.title)
        + "</h1>\n  <div class=\"card-meta\" style=\"margin:8px 0\">"@
        + detail_badge(t.done)
        + "\n    &nbsp;<span class=\"id-chip\">"@
        + t.id
        + "</span>\n    &nbsp;created "@
        + chrono_format(t.created.0, t.created.1, "%Y-%m-%d %H:%M UTC"@)
        + "\n  </div>\n  <div class=\"card-meta\" style=\"margin-bottom:12px\">from: "@
        + escape_html(t.from)
        + " &nbsp;·&nbsp; source: "@
        + escape_html(t.source)
        + "</div>\n  "@
        + description_html(t.description)
        + "\n  <div class=\"actions\" style=\"margin-top:14px\">\n    "@
        + done_button(t.id, t.done)
        + "\n    <form class=\"inline\" method=\"post\" action=\"/tasks/"@
        + t.id
        + "/delete\">\n      <button type=\"submit\" class=\"danger\">Delete</button>\n    </form>\n  </div>\n</div>"@
}

/// A task's own page, titled with the task's title.
pub fn task_detail(t: &Task, flash: Option<&str>) -> (r: String)
    ensures
        r@ == page_text(t.title@, "/tasks"@, opt_str_view(flash), task_detail_body(t@)),
{
    let created = {
        proof {
            reveal_strlit("%Y-%m-%d %H:%M UTC");
        }
        t.created.format("%Y-%m-%d %H:%M UTC")
    };
    let mut desc = String::new();
    if t.description.as_str().is_empty() {
        desc.append(NO_DESCRIPTION);
    } else {
        desc.append("<pre>");
        desc.append(html_escape(t.description.as_str()).as_str());
        desc.append("</pre>");
    }
    let mut done_btn = String::new();
    if !t.done {
        let id = t.id.as_str();
        done_btn.append("<form class=\"inline\" method=\"post\" action=\"/tasks/");
        done_btn.append(id);
        done_btn.append("/done\">\n  <button type=\"submit\">✓ Mark Done</button>\n</form>");
    }
    assert(desc@ =~= description_html(t.description@));
    assert(done_btn@ =~= done_button(t.id@, t.done));
    let mut r = String::new();
    r.append("<div style=\"margin-bottom:8px\"><a href=\"/tasks\">← Back</a></div>\n<div class=\"card\">\n  <h1>");
    r.append(html_escape(t.title.as_str()).as_str());
    r.append("</h1>\n  <div class=\"card-meta\" style=\"margin:8px 0\">");
    r.append(detail_badge_str(t.done));
    r.append("\n    &nbsp;<span class=\"id-chip\">");
    r.append(t.id.as_str());
    r.append("</span>\n    &nbsp;created ");
    r.append(created.as_str());
    r.append("\n  </div>\n  <div class=\"card-meta\" style=\"margin-bottom:12px\">from: ");
    r.append(html_escape(t.from.as_str()).as_str());
    r.append(" &nbsp;·&nbsp; source: ");
    r.append(html_escape(t.source.as_str()).as_str());
    r.append("</div>\n  ");
    r.append(desc.as_str());
    r.append("\n  <div class=\"actions\" style=\"margin-top:14px\">\n    ");
    r.append(done_btn.as_str());
    r.append("\n    <form class=\"inline\" method=\"post\" action=\"/tasks/");
    r.append(t.id.as_str());
    r.append("/delete\">\n      <button type=\"submit\" class=\"danger\">Delete</button>\n    </form>\n  </div>\n</div>");
    assert(r@ =~= task_detail_body(t@));
    page(t.title.as_str(), "/tasks", flash, r.as_str())
}

// ── Admin dashboard ───────────────────────────────────────────────────────────

/// The counters at the top of the dashboard.
pub open spec fn stats_text(todo: nat, done: nat) -> Seq<char> {
    "<div class=\"card\" style=\"margin-bottom:18px\">\n  <div style=\"display:flex;gap:24px;text-align:center\">\n    <div style=\"flex:1\"><div style=\"font-size:2rem;font-weight:700\">"@
        + decimal(todo)
        + "</div><div class=\"card-meta\">Pending</div></div>\n    <div style=\"flex:1\"><div style=\"font-size:2rem;font-weight:700\">"@
        + decimal(done)
        + "</div><div class=\"card-meta\">Done</div></div>\n    <div style=\"flex:1\"><div style=\"font-size:2rem;font-weight:700\">"@
        + decimal(todo + done)
        + "</div><div class=\"card-meta\">Total</div></div>\n  </div>\n</div>"@
}

/// The name of an account's message source: `"<type>:<name>"`.
pub open spec fn source_name_of(a: AccountConfig) -> Seq<char> {
    account_type_text(a.account_type) + ":"@ + a.name@
}

/// Whether the source named `name` is connected: the flag of the first
/// status entry with exactly that source name; `false` when there is none.
pub open spec fn account_connected(status: Seq<(String, bool)>, name: Seq<char>) -> bool
    decreases status.len(),
{
    if status.len() == 0 {
        false
    } else if status[0].0@ == name {
        status[0].1
    } else {
        account_connected(status.drop_first(), name)
    }
}

fn connected_of(status: &[(String, bool)], name: &str) -> (r: bool)
    ensures
        r == account_connected(status@, name@),
{
    let mut i: usize = 0;
    assert(status@.subrange(0, status@.len() as int) =~= status@);
    while i < status.len()
        invariant
            i <= status@.len(),
            account_connected(status@.subrange(i as int, status@.len() as int), name@)
                == account_connected(status@, name@),
        decreases status@.len() - i,
    {
        let ghost rest = status@.subrange(i as int, status@.len() as int);
        assert(rest.drop_first() =~= status@.subrange(i + 1, status@.len() as int));
        if str_eq(status[i].0.as_str(), name) {
            return status[i].1;
        }
        i = i + 1;
    }
    false
}

pub open spec fn enabled_badge(enabled: bool) -> Seq<char> {
    if enabled {
        "<span class=\"badge badge-done\">enabled</span>"@
    } else {
        "<span class=\"badge\" style=\"background:#f3f4f6;color:var(--muted)\">disabled</span>"@
    }
}

fn enabled_badge_str(enabled: bool) -> (r: &'static str)
    ensures
        r@ == enabled_badge(enabled),
{
    if enabled {
        "<span class=\"badge badge-done\">enabled</span>"
    } else {
        "<span class=\"badge\" style=\"background:#f3f4f6;color:var(--muted)\">disabled</span>"
    }
}

/// One account on the dashboard, with its connection state.
pub open spec fn account_row_text(a: AccountConfig, connected: bool) -> Seq<char> {
    "<div class=\"card\">\n  <div class=\"card-title\"><span class=\"status-dot "@
        + (if connected { "dot-ok"@ } else { "dot-off"@ })
        + "\"></span>"@
        + escape_html(a.name@)
        + "</div>\n  <div class=\"card-meta\">"@
        + account_type_text(a.account_type)
        + " &nbsp;·&nbsp; "@
        + (if connected { "connected"@ } else { "offline"@ })
        + " &nbsp;·&nbsp; "@
        + enabled_badge(a.enabled)
        + "\n    &nbsp;·&nbsp; poll every "@
        + decimal(a.poll_interval_secs as nat)
        + "s</div>\n  <div class=\"actions\">\n    <form class=\"inline\" method=\"post\" action=\"/admin/accounts/"@
        + escape_html(a.name@)
        + "/delete\">\n      <button type=\"submit\" class=\"danger\">Remove</button>\n    </form>\n  </div>\n</div>"@
}

fn append_account_row(r: &mut String, a: &AccountConfig, connected: bool)
    ensures
        final(r)@ == old(r)@ + account_row_text(*a, connected),
{
    let name = html_escape(a.name.as_str());
    r.append("<div class=\"card\">\n  <div class=\"card-title\"><span class=\"status-dot ");
    if connected {
        r.append("dot-ok");
    } else {
        r.append("dot-off");
    }
    r.append("\"></span>");
    r.append(name.as_str());
    r.append("</div>\n  <div class=\"card-meta\">");
    r.append(a.account_type.as_str());
    r.append(" &nbsp;·&nbsp; ");
    if connected {
        r.append("connected");
    } else {
        r.append("offline");
    }
    r.append(" &nbsp;·&nbsp; ");
    r.append(enabled_badge_str(a.enabled));
    r.append("\n    &nbsp;·&nbsp; poll every ");
    r.append(u64_to_decimal(a.poll_interval_secs).as_str());
    r.append("s</div>\n  <div class=\"actions\">\n    <form class=\"inline\" method=\"post\" action=\"/admin/accounts/");
    r.append(name.as_str());
    r.append("/delete\">\n      <button type=\"submit\" class=\"danger\">Remove</button>\n    </form>\n  </div>\n</div>");
    assert(r@ =~= old(r)@ + account_row_text(*a, connected));
}

pub open spec fn account_rows(accounts: Seq<AccountConfig>, status: Seq<(String, bool)>) -> Seq<Seq<char>> {
    accounts.map_values(
        |a: AccountConfig| account_row_text(a, account_connected(status, source_name_of(a))),
    )
}

pub const NO_ACCOUNTS: &'static str = "<p class=\"empty\">No accounts configured.</p>";

/// The account list, or its placeholder when there is no account.
pub open spec fn accounts_text(accounts: Seq<AccountConfig>, status: Seq<(String, bool)>) -> Seq<char> {
    if accounts.len() == 0 {
        NO_ACCOUNTS@
    } else {
        joined(account_rows(accounts, status), "\n"@)
    }
}

fn accounts_html(accounts: &[AccountConfig], status: &[(String, bool)]) -> (r: String)
    ensures
        r@ == accounts_text(accounts@, status@),
{
    if accounts.len() == 0 {
        return NO_ACCOUNTS.to_owned();
    }
    let mut v: Vec<String> = Vec::new();
    let mut i: usize = 0;
    while i < accounts.len()
        invariant
            i <= accounts@.len(),
            string_views(v@) == account_rows(accounts@.take(i as int), status@),
        decreases accounts@.len() - i,
    {
        let mut source = concat2(accounts[i].account_type.as_str(), ":");
        source.append(accounts[i].name.as_str());
        let connected = connected_of(status, source.as_str());
        let mut row = String::new();
        append_account_row(&mut row, &accounts[i], connected);
        let ghost before = v@;
        v.push(row);
        assert(string_views(v@) =~= string_views(before).push(row@));
        assert(account_rows(accounts@.take(i + 1), status@) =~= account_rows(
            accounts@.take(i as int),
            status@,
        ).push(account_row_text(
            accounts@[i as int],
            account_connected(status@, source_name_of(accounts@[i as int])),
        )));
        i = i + 1;
    }
    assert(accounts@.take(i as int) =~= accounts@);
    join_strings(v.as_slice(), "\n")
}

/// The form that adds an account.
pub const ADD_ACCOUNT_FORM: &'static str = "<div class=\"card\" style=\"margin-top:16px\">\n  <h2 style=\"margin-bottom:10px\">Add Account</h2>\n  <form method=\"post\" action=\"/admin/accounts\">\n    <div class=\"form-group\">\n      <label>Name</label>\n      <input type=\"text\" name=\"name\" required placeholder=\"e.g. main-email\">\n    </div>\n    <div class=\"form-group\">\n      <label>Type</label>\n      <select name=\"account_type\">\n        <option value=\"imap\">IMAP</option>\n        <option value=\"pop3\">POP3</option>\n        <option value=\"telegram\">Telegram</option>\n      </select>\n    </div>\n    <div class=\"form-group\">\n      <label>Host (IMAP/POP3)</label>\n      <input type=\"text\" name=\"host\" placeholder=\"imap.example.com\">\n    </div>\n    <div class=\"form-group\">\n      <label>Port</label>\n      <input type=\"number\" name=\"port\" placeholder=\"993\">\n    </div>\n    <div class=\"form-group\">\n      <label>Username</label>\n      <input type=\"text\" name=\"username\" placeholder=\"user@example.com\">\n    </div>\n    <div class=\"form-group\">\n      <label>Password</label>\n      <input type=\"password\" name=\"password\">\n    </div>\n    <div class=\"form-group\">\n      <label>Bot Token (Telegram only)</label>\n      <input type=\"text\" name=\"token\" placeholder=\"123456:ABC...\">\n    </div>\n    <div class=\"form-group\">\n      <label>Poll interval (seconds)</label>\n      <input type=\"number\" name=\"poll_interval_secs\" value=\"60\">\n    </div>\n    <button type=\"submit\">Add Account</button>\n  </form>\n</div>";

/// The body of the admin dashboard.
pub open spec fn dashboard_body(
    accounts: Seq<AccountConfig>,
    status: Seq<(String, bool)>,
    todo: nat,
    done: nat,
) -> Seq<char> {
    stats_text(todo, done)
        + "\n<div class=\"section-header\"><h2>Accounts ("@
        + decimal(accounts.len())
        + ")</h2><a href=\"/admin/filters\" class=\"btn\" style=\"font-size:0.8rem;padding:6px 10px\">Filters</a></div>\n"@
        + accounts_text(accounts, status)
        + "\n"@
        + (ADD_ACCOUNT_FORM@)
}

/// The admin dashboard: task counters, the configured accounts with their
/// connection state, and the form to add an account.
pub fn admin_dashboard(
    accounts: &[AccountConfig],
    source_status: &[(String, bool)],
    todo_count: usize,
    done_count: usize,
    flash: Option<&str>,
) -> (r: String)
    requires
        todo_count + done_count <= usize::MAX,
    ensures
        r@ == page_text(
            "Admin"@,
            "/admin"@,
            opt_str_view(flash),
            dashboard_body(accounts@, source_status@, todo_count as nat, done_count as nat),
        ),
{
    let total = todo_count + done_count;
    let mut r = String::new();
    r.append("<div class=\"card\" style=\"margin-bottom:18px\">\n  <div style=\"display:flex;gap:24px;text-align:center\">\n    <div style=\"flex:1\"><div style=\"font-size:2rem;font-weight:700\">");
    r.append(usize_to_decimal(todo_count).as_str());
    r.append("</div><div class=\"card-meta\">Pending</div></div>\n    <div style=\"flex:1\"><div style=\"font-size:2rem;font-weight:700\">");
    r.append(usize_to_decimal(done_count).as_str());
    r.append("</div><div class=\"card-meta\">Done</div></div>\n    <div style=\"flex:1\"><div style=\"font-size:2rem;font-weight:700\">");
    r.append(usize_to_decimal(total).as_str());
    r.append("</div><div class=\"card-meta\">Total</div></div>\n  </div>\n</div>");
    r.append("\n<div class=\"section-header\"><h2>Accounts (");
    r.append(usize_to_decimal(accounts.len()).as_str());
    r.append(")</h2><a href=\"/admin/filters\" class=\"btn\" style=\"font-size:0.8rem;padding:6px 10px\">Filters</a></div>\n");
    r.append(accounts_html(accounts, source_status).as_str());
    r.append("\n");
    r.append(ADD_ACCOUNT_FORM);
    assert(r@ =~= dashboard_body(accounts@, source_status@, todo_count as nat, done_count as nat));
    page("Admin", "/admin", flash, r.as_str())
}

// ── Filters page ──────────────────────────────────────────────────────────────

pub open spec fn opt_line(label: Seq<char>, o: Option<String>) -> Seq<Seq<char>> {
    match o {
        Some(a) => seq![label + a@],
        None => Seq::empty(),
    }
}

pub open spec fn list_line(label: Seq<char>, o: Option<Vec<String>>) -> Seq<Seq<char>> {
    match o {
        Some(v) => seq![label + joined(string_views(v@), ", "@)],
        None => Seq::empty(),
    }
}

pub open spec fn header_lines(o: Option<Vec<HeaderCheck>>) -> Seq<Seq<char>> {
    match o {
        Some(hc) => hc@.map_values(|h: HeaderCheck| "header "@ + h.name@ + ": "@ + h.value@),
        None => Seq::empty(),
    }
}

/// The conditions of a filter, one phrase each, in the order of its fields.
pub open spec fn filter_lines(f: FilterConfig) -> Seq<Seq<char>> {
    opt_line("account: "@, f.account) + list_line("from: "@, f.from_address) + list_line(
        "subject contains: "@,
        f.subject_contains,
    ) + list_line("body contains: "@, f.body_contains) + header_lines(f.header_checks) + if f.gpg_required {
        seq!["GPG signature required"@]
    } else {
        Seq::empty()
    }
}

/// What a filter card says of its filter.
pub open spec fn filter_summary(f: FilterConfig) -> Seq<char> {
    if filter_lines(f).len() == 0 {
        "(accepts everything)"@
    } else {
        joined(filter_lines(f), " &nbsp;·&nbsp; "@)
    }
}

fn push_list_line(lines: &mut Vec<String>, label: &str, o: &Option<Vec<String>>)
    ensures
        string_views(final(lines)@) == string_views(old(lines)@) + list_line(label@, *o),
{
    let ghost before = lines@;
    match o {
        Some(v) => {
            let mut l = label.to_owned();
            l.append(join_strings(v.as_slice(), ", ").as_str());
            lines.push(l);
            assert(string_views(lines@) =~= string_views(before) + list_line(label@, *o));
        },
        None => {
            assert(string_views(lines@) =~= string_views(before) + list_line(label@, *o));
        },
    }
}

fn filter_summary_html(f: &FilterConfig) -> (r: String)
    ensures
        r@ == filter_summary(*f),
{
    let mut lines: Vec<String> = Vec::new();
    if let Some(a) = &f.account {
        let mut l = "account: ".to_owned();
        l.append(a.as_str());
        lines.push(l);
    }
    assert(string_views(lines@) =~= opt_line("account: "@, f.account));
    push_list_line(&mut lines, "from: ", &f.from_address);
    push_list_line(&mut lines, "subject contains: ", &f.subject_contains);
    push_list_line(&mut lines, "body contains: ", &f.body_contains);
    let ghost head = string_views(lines@);
    if let Some(hc) = &f.header_checks {
        let mut i: usize = 0;
        while i < hc.len()
            invariant
                i <= hc@.len(),
                f.header_checks == Some(*hc),
                string_views(lines@) == head + hc@.take(i as int).map_values(
                    |h: HeaderCheck| "header "@ + h.name@ + ": "@ + h.value@,
                ),
            decreases hc@.len() - i,
        {
            let mut l = "header ".to_owned();
            l.append(hc[i].name.as_str());
            l.append(": ");
            l.append(hc[i].value.as_str());
            let ghost before = lines@;
            lines.push(l);
            assert(string_views(lines@) =~= string_views(before).push(l@));
            assert(hc@.take(i + 1).map_values(|h: HeaderCheck| "header "@ + h.name@ + ": "@ + h.value@)
                =~= hc@.take(i as int).map_values(
                |h: HeaderCheck| "header "@ + h.name@ + ": "@ + h.value@,
            ).push("header "@ + hc@[i as int].name@ + ": "@ + hc@[i as int].value@));
            i = i + 1;
        }
        assert(hc@.take(i as int) =~= hc@);
    }
    assert(string_views(lines@) =~= head + header_lines(f.header_checks));
    if f.gpg_required {
        let ghost before = lines@;
        lines.push("GPG signature required".to_owned());
        assert(string_views(lines@) =~= string_views(before).push("GPG signature required"@));
    }
    assert(string_views(lines@) =~= filter_lines(*f));
    if lines.len() == 0 {
        "(accepts everything)".to_owned()
    } else {
        join_strings(lines.as_slice(), " &nbsp;·&nbsp; ")
    }
}

/// The card of the filter at position `i`.
pub open spec fn filter_card_text(i: nat, f: FilterConfig) -> Seq<char> {
    "<div class=\"card\">\n  <div class=\"card-meta\">"@
        + filter_summary(f)
        + "</div>\n  <div class=\"actions\">\n    <form class=\"inline\" method=\"post\" action=\"/admin/filters/"@
        + decimal(i)
        + "/delete\">\n      <button type=\"submit\" class=\"danger\">Remove</button>\n    </form>\n  </div>\n</div>"@
}

pub open spec fn filter_cards(filters: Seq<FilterConfig>) -> Seq<Seq<char>> {
    Seq::new(filters.len(), |i: int| filter_card_text(i as nat, filters[i]))
}

pub const NO_FILTERS: &'static str = "<p class=\"empty\">No filters configured – all messages accepted.</p>";

/// The filter list, or its placeholder when there is no filter.
pub open spec fn filters_text(filters: Seq<FilterConfig>) -> Seq<char> {
    if filters.len() == 0 {
        NO_FILTERS@
    } else {
        joined(filter_cards(filters), "\n"@)
    }
}

fn filters_html(filters: &[FilterConfig]) -> (r: String)
    ensures
        r@ == filters_text(filters@),
{
    if filters.len() == 0 {
        return NO_FILTERS.to_owned();
    }
    let mut v: Vec<String> = Vec::new();
    let mut i: usize = 0;
    while i < filters.len()
        invariant
            i <= filters@.len(),
            string_views(v@) == filter_cards(filters@).take(i as int),
        decreases filters@.len() - i,
    {
        let summary = filter_summary_html(&filters[i]);
        let mut r = String::new();
        r.append("<div class=\"card\">\n  <div class=\"card-meta\">");
        r.append(summary.as_str());
        r.append("</div>\n  <div class=\"actions\">\n    <form class=\"inline\" method=\"post\" action=\"/admin/filters/");
        r.append(usize_to_decimal(i).as_str());
        r.append("/delete\">\n      <button type=\"submit\" class=\"danger\">Remove</button>\n    </form>\n  </div>\n</div>");
        assert(r@ =~= filter_card_text(i as nat, filters@[i as int]));
        let ghost before = v@;
        v.push(r);
        assert(string_views(v@) =~= string_views(before).push(r@));
        assert(filter_cards(filters@).take(i + 1) =~= filter_cards(filters@).take(i as int).push(r@));
        i = i + 1;
    }
    assert(filter_cards(filters@).take(i as int) =~= filter_cards(filters@));
    join_strings(v.as_slice(), "\n")
}

/// The form that adds a filter.
pub const ADD_FILTER_FORM: &'static str = "<div class=\"card\" style=\"margin-top:16px\">\n  <h2 style=\"margin-bottom:10px\">Add Filter</h2>\n  <form method=\"post\" action=\"/admin/filters\">\n    <div class=\"form-group\">\n      <label>Account name (optional, leave blank for all)</label>\n      <input type=\"text\" name=\"account\" placeholder=\"main-email\">\n    </div>\n    <div class=\"form-group\">\n      <label>Allowed from-addresses (comma-separated)</label>\n      <input type=\"text\" name=\"from_address\" placeholder=\"boss@example.com, admin@example.com\">\n    </div>\n    <div class=\"form-group\">\n      <label>Subject must contain (comma-separated)</label>\n      <input type=\"text\" name=\"subject_contains\" placeholder=\"TROOP:, TODO:\">\n    </div>\n    <div class=\"form-group\">\n      <label>Body must contain (comma-separated)</label>\n      <input type=\"text\" name=\"body_contains\" placeholder=\"secret-word\">\n    </div>\n    <div class=\"form-group\">\n      <label>Header name</label>\n      <input type=\"text\" name=\"header_name\" placeholder=\"X-Troop-Auth\">\n    </div>\n    <div class=\"form-group\">\n      <label>Header value</label>\n      <input type=\"text\" name=\"header_value\" placeholder=\"mysecret\">\n    </div>\n    <div class=\"form-group\">\n      <label><input type=\"checkbox\" name=\"gpg_required\" value=\"true\"> Require GPG signature</label>\n    </div>\n    <button type=\"submit\">Add Filter</button>\n  </form>\n</div>";

/// The body of the filters page.
pub open spec fn filters_body(filters: Seq<FilterConfig>) -> Seq<char> {
    "<div class=\"section-header\"><h2>Filters ("@
        + decimal(filters.len())
        + ")</h2>\n  <a href=\"/admin\" class=\"btn\" style=\"font-size:0.8rem;padding:6px 10px\">← Admin</a>\n</div>\n"@
        + filters_text(filters)
        + "\n"@
        + (ADD_FILTER_FORM@)
}

/// The filters page: one card per filter, then the form to add one.
pub fn admin_filters(filters: &[FilterConfig], flash: Option<&str>) -> (r: String)
    ensures
        r@ == page_text("Filters"@, "/admin"@, opt_str_view(flash), filters_body(filters@)),
{
    let mut r = String::new();
    r.append("<div class=\"section-header\"><h2>Filters (");
    r.append(usize_to_decimal(filters.len()).as_str());
    r.append(")</h2>\n  <a href=\"/admin\" class=\"btn\" style=\"font-size:0.8rem;padding:6px 10px\">← Admin</a>\n</div>\n");
    r.append(filters_html(filters).as_str());
    r.append("\n");
    r.append(ADD_FILTER_FORM);
    assert(r@ =~= filters_body(filters@));
    page("Filters", "/admin", flash, r.as_str())
}

} // verus!
