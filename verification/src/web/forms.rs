//! The forms of the web interface and what each submission makes of the
//! configuration: new accounts and filters, edits, removals, passwords.
//! Decoding the request, saving the file and answering are done outside.
use vstd::prelude::*;

use crate::config::{AccountConfig, AccountType, FilterConfig, HeaderCheck};
use crate::storage::{opt_view, uuid_text_shape, uuid_v4_text};
use crate::text::{
    ascii_lower, ascii_lower_text, lower_form, parse_u16, parse_u64, parse_unsigned, pieces, split_at_char, str_eq, string_views,
    to_lower, trim, trim_str,
};

verus! {

// ── Forms ─────────────────────────────────────────────────────────────────────

/// The `?flash=` query of a page.
pub struct FlashQuery {
    pub flash: Option<String>,
}

pub struct AddTaskForm {
    pub title: String,
    pub description: Option<String>,
}

pub struct AddEmailForm {
    pub name: String,
    /// "imap" or "pop3".
    pub account_type: String,
    pub host: Option<String>,
    pub port: Option<String>,
    pub username: Option<String>,
    pub password: Option<String>,
    pub poll_interval_secs: Option<String>,
    /// Checkbox: present means true, absent means false.
    pub tls: Option<String>,
    /// Checkbox: present means true, absent means false.
    pub enabled: Option<String>,
    pub smtp_host: Option<String>,
    pub smtp_port: Option<String>,
    pub smtp_username: Option<String>,
    pub smtp_password: Option<String>,
    pub smtp_tls: Option<String>,
    pub reply_from: Option<String>,
}

pub struct EditEmailForm {
    pub account_type: String,
    pub host: Option<String>,
    pub port: Option<String>,
    pub username: Option<String>,
    /// Leave blank to keep the existing password unchanged.
    pub password: Option<String>,
    pub poll_interval_secs: Option<String>,
    pub tls: Option<String>,
    pub enabled: Option<String>,
    pub smtp_host: Option<String>,
    pub smtp_port: Option<String>,
    pub smtp_username: Option<String>,
    /// Leave blank to keep the existing SMTP password unchanged.
    pub smtp_password: Option<String>,
    pub smtp_tls: Option<String>,
    pub reply_from: Option<String>,
}

pub struct AddTelegramForm {
    pub name: String,
    pub token: String,
    pub poll_interval_secs: Option<String>,
    pub enabled: Option<String>,
}

pub struct EditTelegramForm {
    pub token: Option<String>,
    pub poll_interval_secs: Option<String>,
    pub enabled: Option<String>,
}

pub struct AddFilterForm {
    pub account: Option<String>,
    pub from_address: Option<String>,
    pub subject_contains: Option<String>,
    pub body_contains: Option<String>,
    pub header_name: Option<String>,
    pub header_value: Option<String>,
    pub gpg_required: Option<String>,
}

pub struct AddWebhookForm {
    pub name: String,
    pub webhook_secret: Option<String>,
    pub poll_interval_secs: Option<String>,
    pub enabled: Option<String>,
}

pub struct EditWebhookForm {
    pub webhook_secret: Option<String>,
    pub poll_interval_secs: Option<String>,
    pub enabled: Option<String>,
}

pub struct LoginForm {
    pub password: String,
}

pub struct ChangePasswordForm {
    pub current_password: String,
    pub new_password: String,
    pub confirm_password: String,
}

// ── Field values ──────────────────────────────────────────────────────────────

/// A text field that counts as filled in: present and not only whitespace.
pub open spec fn filled(o: Option<Seq<char>>) -> Option<Seq<char>> {
    match o {
        Some(v) => if trim(v).len() == 0 {
            None
        } else {
            Some(v)
        },
        None => None,
    }
}

/// The field when it holds more than whitespace, else `None`.
pub fn nonempty(s: Option<String>) -> (r: Option<String>)
    ensures
        opt_view(r) == filled(opt_view(s)),
{
    match s {
        Some(v) => {
            if trim_str(v.as_str()).unicode_len() == 0 {
                None
            } else {
                Some(v)
            }
        },
        None => None,
    }
}

/// A checkbox: "true" or "on" tick it, any other value leaves it clear, and
/// an absent field means `default`.
pub open spec fn checkbox_value(o: Option<Seq<char>>, default: bool) -> bool {
    match o {
        Some(v) => v == "true"@ || v == "on"@,
        None => default,
    }
}

pub fn checkbox(o: &Option<String>, default: bool) -> (r: bool)
    ensures
        r == checkbox_value(opt_view(*o), default),
{
    match o {
        Some(v) => str_eq(v.as_str(), "true") || str_eq(v.as_str(), "on"),
        None => default,
    }
}

/// A number field read as `u64`, `default` when absent or not a number.
pub open spec fn number_or(o: Option<Seq<char>>, default: u64) -> u64 {
    match o {
        Some(v) => match parse_unsigned(v, u64::MAX as nat) {
            Some(n) => n as u64,
            None => default,
        },
        None => default,
    }
}

pub fn number_field(o: &Option<String>, default: u64) -> (r: u64)
    ensures
        r == number_or(opt_view(*o), default),
{
    match o {
        Some(v) => match parse_u64(v.as_str()) {
            Some(n) => n,
            None => default,
        },
        None => default,
    }
}

/// A port field: the number when it is a valid `u16`, else `None`.
pub open spec fn port_value(o: Option<Seq<char>>) -> Option<u16> {
    match o {
        Some(v) => match parse_unsigned(v, u16::MAX as nat) {
            Some(n) => Some(n as u16),
            None => None,
        },
        None => None,
    }
}

pub fn port_field(o: &Option<String>) -> (r: Option<u16>)
    ensures
        r == port_value(opt_view(*o)),
{
    match o {
        Some(v) => parse_u16(v.as_str()),
        None => None,
    }
}

/// The protocol chosen in an e-mail form: POP3 when the field reads "pop3"
/// in any case, IMAP otherwise.
pub open spec fn email_kind(s: Seq<char>) -> AccountType {
    if lower_form(s) == "pop3"@ {
        AccountType::Pop3
    } else {
        AccountType::Imap
    }
}

/// The protocol field is read ignoring case: `pop3` written in any mix of
/// capitals (`POP3`, `Pop3`, ...) chooses POP3, and any other ASCII text,
/// `imap` in any case among it, chooses IMAP.
pub proof fn lemma_email_kind_ignores_case(s: Seq<char>)
    requires
        vstd::utf8::is_ascii_chars(s),
    ensures
        (s.len() == 4 && ascii_lower(s[0]) == 'p' && ascii_lower(s[1]) == 'o' && ascii_lower(s[2])
            == 'p' && s[3] == '3') ==> email_kind(s) == AccountType::Pop3,
        !(s.len() == 4 && ascii_lower(s[0]) == 'p' && ascii_lower(s[1]) == 'o' && ascii_lower(s[2])
            == 'p' && s[3] == '3') ==> email_kind(s) == AccountType::Imap,
{
    reveal_strlit("pop3");
    let l = ascii_lower_text(s);
    if s.len() == 4 && ascii_lower(s[0]) == 'p' && ascii_lower(s[1]) == 'o' && ascii_lower(s[2])
        == 'p' && s[3] == '3' {
        assert(l =~= "pop3"@);
    } else if l == "pop3"@ {
        assert(l.len() == 4);
        assert(l[0] == ascii_lower(s[0]));
        assert(l[1] == ascii_lower(s[1]));
        assert(l[2] == ascii_lower(s[2]));
        assert(l[3] == ascii_lower(s[3]));
        assert(s[3] == '3');
    }
}

pub fn email_account_type(s: &str) -> (r: AccountType)
    ensures
        r == email_kind(s@),
{
    if str_eq(to_lower(s).as_str(), "pop3") {
        AccountType::Pop3
    } else {
        AccountType::Imap
    }
}

// ── Accounts from forms ───────────────────────────────────────────────────────

/// A secret field left blank keeps the value it had.
pub open spec fn kept(old: Option<Seq<char>>, new: Option<Seq<char>>) -> Option<Seq<char>> {
    match filled(new) {
        Some(v) => Some(v),
        None => old,
    }
}

/// `r` is the e-mail account that the add form `f` describes.
pub open spec fn email_account_of(r: AccountConfig, f: AddEmailForm) -> bool {
    &&& r.name@ == trim(f.name@)
    &&& r.account_type == email_kind(f.account_type@)
    &&& opt_view(r.host) == filled(opt_view(f.host))
    &&& r.port == port_value(opt_view(f.port))
    &&& opt_view(r.username) == filled(opt_view(f.username))
    &&& opt_view(r.password) == filled(opt_view(f.password))
    &&& r.tls == checkbox_value(opt_view(f.tls), false)
    &&& r.token is None
    &&& r.webhook_secret is None
    &&& r.enabled == checkbox_value(opt_view(f.enabled), false)
    &&& r.poll_interval_secs == number_or(opt_view(f.poll_interval_secs), 60)
    &&& opt_view(r.smtp_host) == filled(opt_view(f.smtp_host))
    &&& r.smtp_port == port_value(opt_view(f.smtp_port))
    &&& opt_view(r.smtp_username) == filled(opt_view(f.smtp_username))
    &&& opt_view(r.smtp_password) == filled(opt_view(f.smtp_password))
    &&& r.smtp_tls == checkbox_value(opt_view(f.smtp_tls), true)
    &&& opt_view(r.reply_from) == filled(opt_view(f.reply_from))
}

/// The account an "add e-mail account" submission creates.  The TLS and
/// enabled checkboxes are on only when ticked; SMTP TLS is on unless the
/// form says otherwise.
pub fn account_from_email_form(form: AddEmailForm) -> (r: AccountConfig)
    ensures
        email_account_of(r, form),
{
    let account_type = email_account_type(form.account_type.as_str());
    let port = port_field(&form.port);
    let poll = number_field(&form.poll_interval_secs, 60);
    let tls = checkbox(&form.tls, false);
    let enabled = checkbox(&form.enabled, false);
    let smtp_port = port_field(&form.smtp_port);
    let smtp_tls = checkbox(&form.smtp_tls, true);
    AccountConfig {
        name: trim_str(form.name.as_str()).to_owned(),
        account_type,
        host: nonempty(form.host),
        port,
        username: nonempty(form.username),
        password: nonempty(form.password),
        tls,
        token: None,
        webhook_secret: None,
        enabled,
        poll_interval_secs: poll,
        smtp_host: nonempty(form.smtp_host),
        smtp_port,
        smtp_username: nonempty(form.smtp_username),
        smtp_password: nonempty(form.smtp_password),
        smtp_tls,
        reply_from: nonempty(form.reply_from),
    }
}

/// `new` is `old` after the edit form `f` was applied: the name, token and
/// webhook secret stay, blank password fields keep the stored passwords, and
/// absent checkboxes mean off (but SMTP TLS means on).
pub open spec fn email_edit_of(new: AccountConfig, old: AccountConfig, f: EditEmailForm) -> bool {
    &&& new.name@ == old.name@
    &&& opt_view(new.token) == opt_view(old.token)
    &&& opt_view(new.webhook_secret) == opt_view(old.webhook_secret)
    &&& new.account_type == email_kind(f.account_type@)
    &&& opt_view(new.host) == filled(opt_view(f.host))
    &&& new.port == port_value(opt_view(f.port))
    &&& opt_view(new.username) == filled(opt_view(f.username))
    &&& opt_view(new.password) == kept(opt_view(old.password), opt_view(f.password))
    &&& new.tls == checkbox_value(opt_view(f.tls), false)
    &&& new.enabled == checkbox_value(opt_view(f.enabled), false)
    &&& new.poll_interval_secs == number_or(opt_view(f.poll_interval_secs), 60)
    &&& opt_view(new.smtp_host) == filled(opt_view(f.smtp_host))
    &&& new.smtp_port == port_value(opt_view(f.smtp_port))
    &&& opt_view(new.smtp_username) == filled(opt_view(f.smtp_username))
    &&& opt_view(new.smtp_password) == kept(opt_view(old.smtp_password), opt_view(f.smtp_password))
    &&& new.smtp_tls == checkbox_value(opt_view(f.smtp_tls), true)
    &&& opt_view(new.reply_from) == filled(opt_view(f.reply_from))
}

/// Apply an "edit e-mail account" submission to `account`.
pub fn apply_email_edit(account: &mut AccountConfig, form: EditEmailForm)
    ensures
        email_edit_of(*final(account), *old(account), form),
{
    let account_type = email_account_type(form.account_type.as_str());
    let port = port_field(&form.port);
    let poll = number_field(&form.poll_interval_secs, 60);
    let tls = checkbox(&form.tls, false);
    let enabled = checkbox(&form.enabled, false);
    let smtp_port = port_field(&form.smtp_port);
    let smtp_tls = checkbox(&form.smtp_tls, true);
    account.account_type = account_type;
    account.host = nonempty(form.host);
    account.port = port;
    account.username = nonempty(form.username);
    if let Some(pw) = nonempty(form.password) {
        account.password = Some(pw);
    }
    account.tls = tls;
    account.enabled = enabled;
    account.poll_interval_secs = poll;
    account.smtp_host = nonempty(form.smtp_host);
    account.smtp_port = smtp_port;
    account.smtp_username = nonempty(form.smtp_username);
    if let Some(pw) = nonempty(form.smtp_password) {
        account.smtp_password = Some(pw);
    }
    account.smtp_tls = smtp_tls;
    account.reply_from = nonempty(form.reply_from);
}

/// Fields that only e-mail accounts use are unset.
pub open spec fn no_mail_fields(r: AccountConfig) -> bool {
    &&& r.host is None
    &&& r.port is None
    &&& r.username is None
    &&& r.password is None
    &&& !r.tls
    &&& r.smtp_host is None
    &&& r.smtp_port is None
    &&& r.smtp_username is None
    &&& r.smtp_password is None
    &&& r.smtp_tls
    &&& r.reply_from is None
}

/// `r` is the Telegram account that the add form `f` describes.
pub open spec fn telegram_account_of(r: AccountConfig, f: AddTelegramForm) -> bool {
    &&& r.name@ == trim(f.name@)
    &&& r.account_type == AccountType::Telegram
    &&& no_mail_fields(r)
    &&& opt_view(r.token) == filled(Some(f.token@))
    &&& r.webhook_secret is None
    &&& r.enabled == checkbox_value(opt_view(f.enabled), true)
    &&& r.poll_interval_secs == number_or(opt_view(f.poll_interval_secs), 30)
}

/// The account an "add Telegram bot" submission creates.
pub fn account_from_telegram_form(form: AddTelegramForm) -> (r: AccountConfig)
    ensures
        telegram_account_of(r, form),
{
    let poll = number_field(&form.poll_interval_secs, 30);
    let enabled = checkbox(&form.enabled, true);
    AccountConfig {
        name: trim_str(form.name.as_str()).to_owned(),
        account_type: AccountType::Telegram,
        host: None,
        port: None,
        username: None,
        password: None,
        tls: false,
        token: nonempty(Some(form.token)),
        webhook_secret: None,
        enabled,
        poll_interval_secs: poll,
        smtp_host: None,
        smtp_port: None,
        smtp_username: None,
        smtp_password: None,
        smtp_tls: true,
        reply_from: None,
    }
}

/// Only the token (when filled in), the switch and the interval change.
pub open spec fn telegram_edit_of(new: AccountConfig, old: AccountConfig, f: EditTelegramForm) -> bool {
    &&& new == AccountConfig {
        token: new.token,
        enabled: checkbox_value(opt_view(f.enabled), false),
        poll_interval_secs: number_or(opt_view(f.poll_interval_secs), 30),
        ..old
    }
    &&& opt_view(new.token) == kept(opt_view(old.token), opt_view(f.token))
}

/// Apply an "edit Telegram bot" submission to `account`.
pub fn apply_telegram_edit(account: &mut AccountConfig, form: EditTelegramForm)
    ensures
        telegram_edit_of(*final(account), *old(account), form),
{
    let poll = number_field(&form.poll_interval_secs, 30);
    let enabled = checkbox(&form.enabled, false);
    if let Some(tok) = nonempty(form.token) {
        account.token = Some(tok);
    }
    account.enabled = enabled;
    account.poll_interval_secs = poll;
}

/// `r` is the webhook account that the add form `f` describes; a blank
/// secret is replaced by a freshly generated UUID.
pub open spec fn webhook_account_of(r: AccountConfig, f: AddWebhookForm) -> bool {
    &&& r.name@ == trim(f.name@)
    &&& r.account_type == AccountType::Webhook
    &&& no_mail_fields(r)
    &&& r.token is None
    &&& match filled(opt_view(f.webhook_secret)) {
        Some(s) => opt_view(r.webhook_secret) == Some(s),
        None => r.webhook_secret matches Some(g) && uuid_text_shape(g@),
    }
    &&& r.enabled == checkbox_value(opt_view(f.enabled), true)
    &&& r.poll_interval_secs == number_or(opt_view(f.poll_interval_secs), 5)
}

/// The account an "add webhook endpoint" submission creates.
pub fn account_from_webhook_form(form: AddWebhookForm) -> (r: AccountConfig)
    ensures
        webhook_account_of(r, form),
{
    let poll = number_field(&form.poll_interval_secs, 5);
    let enabled = checkbox(&form.enabled, true);
    let secret = match nonempty(form.webhook_secret) {
        Some(s) => s,
        None => uuid_v4_text(),
    };
    AccountConfig {
        name: trim_str(form.name.as_str()).to_owned(),
        account_type: AccountType::Webhook,
        host: None,
        port: None,
        username: None,
        password: None,
        tls: false,
        token: None,
        webhook_secret: Some(secret),
        enabled,
        poll_interval_secs: poll,
        smtp_host: None,
        smtp_port: None,
        smtp_username: None,
        smtp_password: None,
        smtp_tls: true,
        reply_from: None,
    }
}

/// Only the secret (when filled in), the switch and the interval change.
pub open spec fn webhook_edit_of(new: AccountConfig, old: AccountConfig, f: EditWebhookForm) -> bool {
    &&& new == AccountConfig {
        webhook_secret: new.webhook_secret,
        enabled: checkbox_value(opt_view(f.enabled), false),
        poll_interval_secs: number_or(opt_view(f.poll_interval_secs), 5),
        ..old
    }
    &&& opt_view(new.webhook_secret) == kept(opt_view(old.webhook_secret), opt_view(f.webhook_secret))
}

/// Apply an "edit webhook endpoint" submission to `account`.
pub fn apply_webhook_edit(account: &mut AccountConfig, form: EditWebhookForm)
    ensures
        webhook_edit_of(*final(account), *old(account), form),
{
    let poll = number_field(&form.poll_interval_secs, 5);
    let enabled = checkbox(&form.enabled, false);
    if let Some(sec) = nonempty(form.webhook_secret) {
        account.webhook_secret = Some(sec);
    }
    account.enabled = enabled;
    account.poll_interval_secs = poll;
}

// ── Filters from forms ────────────────────────────────────────────────────────

pub open spec fn opt_strings_view(o: Option<Vec<String>>) -> Option<Seq<Seq<char>>> {
    match o {
        Some(v) => Some(string_views(v@)),
        None => None,
    }
}

/// A comma-separated list field: its trimmed items, or `None` when the field
/// is absent or blank.
pub open spec fn csv_items(o: Option<Seq<char>>) -> Option<Seq<Seq<char>>> {
    match filled(o) {
        Some(v) => Some(pieces(v, ',').map_values(|p: Seq<char>| trim(p))),
        None => None,
    }
}

pub fn split_csv(s: Option<String>) -> (r: Option<Vec<String>>)
    ensures
        opt_strings_view(r) == csv_items(opt_view(s)),
{
    match nonempty(s) {
        Some(v) => {
            let parts = split_at_char(v.as_str(), ',');
            let mut out: Vec<String> = Vec::new();
            let mut i: usize = 0;
            while i < parts.len()
                invariant
                    i <= parts@.len(),
                    string_views(parts@) == pieces(v@, ','),
                    string_views(out@) == pieces(v@, ',').take(i as int).map_values(
                        |p: Seq<char>| trim(p),
                    ),
                decreases parts@.len() - i,
            {
                let item = trim_str(parts[i].as_str()).to_owned();
                let ghost before = out@;
                out.push(item);
                assert(string_views(out@) =~= string_views(before).push(item@));
                assert(pieces(v@, ',').take(i + 1).map_values(|p: Seq<char>| trim(p))
                    =~= pieces(v@, ',').take(i as int).map_values(|p: Seq<char>| trim(p)).push(
                    trim(string_views(parts@)[i as int]),
                ));
                i = i + 1;
            }
            assert(pieces(v@, ',').take(i as int) =~= pieces(v@, ','));
            Some(out)
        },
        None => None,
    }
}

/// `r` is the filter that the add form `f` describes: a header check only
/// when both the header's name and value are filled in, and GPG required
/// only when the box reads "true".
pub open spec fn filter_of(r: FilterConfig, f: AddFilterForm) -> bool {
    &&& opt_view(r.account) == filled(opt_view(f.account))
    &&& opt_strings_view(r.from_address) == csv_items(opt_view(f.from_address))
    &&& opt_strings_view(r.subject_contains) == csv_items(opt_view(f.subject_contains))
    &&& opt_strings_view(r.body_contains) == csv_items(opt_view(f.body_contains))
    &&& match (filled(opt_view(f.header_name)), filled(opt_view(f.header_value))) {
        (Some(n), Some(v)) => r.header_checks matches Some(hc) && hc@.len() == 1 && hc@[0].name@
            == n && hc@[0].value@ == v,
        _ => r.header_checks is None,
    }
    &&& r.gpg_required == (opt_view(f.gpg_required) == Some("true"@))
}

/// The filter an "add filter" submission creates.
pub fn filter_from_form(form: AddFilterForm) -> (r: FilterConfig)
    ensures
        filter_of(r, form),
{
    let header_checks = match (nonempty(form.header_name), nonempty(form.header_value)) {
        (Some(name), Some(value)) => Some(vec![HeaderCheck { name, value }]),
        _ => None,
    };
    let gpg_required = match &form.gpg_required {
        Some(v) => str_eq(v.as_str(), "true"),
        None => false,
    };
    FilterConfig {
        account: nonempty(form.account),
        from_address: split_csv(form.from_address),
        subject_contains: split_csv(form.subject_contains),
        body_contains: split_csv(form.body_contains),
        header_checks,
        gpg_required,
    }
}

} // verus!
