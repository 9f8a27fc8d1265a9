//! Signals in strings recovered from databases, OneDrive logs, browser
//! profiles and registry hives: which strings are worth an event, and what
//! action and severity they carry.
use vstd::prelude::*;
use crate::decode::{clean, clean_chars, opt_view};
use crate::extract::{
    domain_like, domain_like_chars, hash_like, hash_like_chars, path_like, path_like_chars,
    path_text, path_text_chars, process_like, process_like_chars, token_punct, url_like,
    url_like_chars, url_text, url_text_chars,
};
use crate::text::{
    chars_of, contains, contains_char, contains_char_exec, contains_str, ends_with, ends_with_str,
    eq_str, fields, fields_of, is_ascii_alnum, is_ascii_alpha, is_control, lower, lower_chars,
    lower_of, starts_with, starts_with_str, string_from, string_of, trim, trim_chars, trim_set,
    trim_set_chars, utf8_len, utf8_len_of, views, vviews, words, words_of, char_is_ascii_alnum,
    char_is_ascii_alpha, char_is_control, lemma_first_some_ends, lemma_first_some_step,
    first_some,
};
use crate::textlog::{first_label_value, first_label_value_exec};

verus! {

// ---------------------------------------------------------------------------
// Database strings
// ---------------------------------------------------------------------------
/// How many events a database artifact of type `t` may yield.
pub open spec fn event_limit(t: Seq<char>) -> int {
    if t == "web_cache"@ || t == "browser"@ {
        8000
    } else if t == "srum"@ {
        12000
    } else if t == "ese"@ {
        5000
    } else if t == "sqlite"@ {
        4000
    } else {
        1000
    }
}

pub fn database_event_limit(artifact_type: &str) -> (r: usize)
    ensures
        r == event_limit(artifact_type@),
{
    let tv = chars_of(artifact_type);
    let t = tv.as_slice();
    if eq_str(t, "web_cache") || eq_str(t, "browser") {
        8000
    } else if eq_str(t, "srum") {
        12000
    } else if eq_str(t, "ese") {
        5000
    } else if eq_str(t, "sqlite") {
        4000
    } else {
        1000
    }
}

/// Names that database catalogues hold whatever the data.
pub open spec fn catalogue_word(l: Seq<char>) -> bool {
    ||| l == "en-us"@
    ||| l == "locale"@
    ||| l == "version"@
    ||| l == "name"@
    ||| l == "type"@
    ||| l == "flags"@
    ||| l == "pages"@
    ||| l == "rootflag"@
}

pub(crate) fn catalogue_word_exec(l: &[char]) -> (r: bool)
    ensures
        r == catalogue_word(l@),
{
    eq_str(l, "en-us") || eq_str(l, "locale") || eq_str(l, "version") || eq_str(l, "name")
        || eq_str(l, "type") || eq_str(l, "flags") || eq_str(l, "pages") || eq_str(l, "rootflag")
}

pub open spec fn has_alpha(v: Seq<char>) -> bool {
    exists|k: int| 0 <= k < v.len() && is_ascii_alpha(#[trigger] v[k])
}

pub open spec fn no_control(v: Seq<char>) -> bool {
    forall|k: int| 0 <= k < v.len() ==> !is_control(#[trigger] v[k])
}

fn has_alpha_exec(v: &[char]) -> (r: bool)
    ensures
        r == has_alpha(v@),
{
    let mut i: usize = 0;
    while i < v.len()
        invariant
            i <= v.len(),
            forall|k: int| 0 <= k < i ==> !is_ascii_alpha(#[trigger] v@[k]),
        decreases v.len() - i,
    {
        if char_is_ascii_alpha(v[i]) {
            return true;
        }
        i = i + 1;
    }
    false
}

fn no_control_exec(v: &[char]) -> (r: bool)
    ensures
        r == no_control(v@),
{
    let mut i: usize = 0;
    while i < v.len()
        invariant
            i <= v.len(),
            forall|k: int| 0 <= k < i ==> !is_control(#[trigger] v@[k]),
        decreases v.len() - i,
    {
        if char_is_control(v[i]) {
            return false;
        }
        i = i + 1;
    }
    true
}

/// An identifier-like string of an SRUM database: 4 to 240 bytes, not a
/// catalogue word, with a letter and no control character.
pub open spec fn srum_identifier(v: Seq<char>, l: Seq<char>) -> bool {
    4 <= utf8_len(v) <= 240 && !catalogue_word(l) && has_alpha(v) && no_control(v)
}

pub fn srum_database_identifier_signal(value: &str, lower: &str) -> (r: bool)
    ensures
        r == srum_identifier(value@, lower@),
{
    let v = chars_of(value);
    let l = chars_of(lower);
    let n = utf8_len_of(v.as_slice());
    if n < 4 || n > 240 {
        return false;
    }
    if catalogue_word_exec(l.as_slice()) {
        return false;
    }
    let ok = no_control_exec(v.as_slice());
    if !ok {
        return false;
    }
    has_alpha_exec(v.as_slice())
}


/// Words of SRUM resource and schema strings.
pub open spec fn srum_keywords(l: Seq<char>) -> bool {
    ||| contains(l, "appresource"@)
    ||| contains(l, "network"@)
    ||| contains(l, "connect"@)
    ||| contains(l, "energy"@)
    ||| contains(l, "interface"@)
    ||| contains(l, "resource"@)
    ||| contains(l, "application"@)
    ||| contains(l, "package"@)
    ||| contains(l, "appx"@)
    ||| contains(l, "sid"@)
    ||| contains(l, "user"@)
    ||| contains(l, "sru"@)
    ||| contains(l, "srum"@)
    ||| contains(l, "autoinc"@)
    ||| contains(l, "recordoffset"@)
    ||| contains(l, "timestamp"@)
}

pub(crate) fn srum_keywords_exec(l: &[char]) -> (r: bool)
    ensures
        r == srum_keywords(l@),
{
    contains_str(l, "appresource")
        || contains_str(l, "network")
        || contains_str(l, "connect")
        || contains_str(l, "energy")
        || contains_str(l, "interface")
        || contains_str(l, "resource")
        || contains_str(l, "application")
        || contains_str(l, "package")
        || contains_str(l, "appx")
        || contains_str(l, "sid")
        || contains_str(l, "user")
        || contains_str(l, "sru")
        || contains_str(l, "srum")
        || contains_str(l, "autoinc")
        || contains_str(l, "recordoffset")
        || contains_str(l, "timestamp")
}

/// A string of an SRUM database worth an event.
pub open spec fn srum_interesting(v: Seq<char>, l: Seq<char>) -> bool {
    let t = trim(v);
    if utf8_len(t) < 4 || l == "en-us"@ || l == "msysobjects"@ || l == "msysobjectsshadow"@ {
        false
    } else {
        ||| path_text(t)
        ||| url_text(t)
        ||| process_like(t) is Some
        ||| contains(l, ".exe"@)
        ||| srum_keywords(l)
        ||| t.contains('{')
        ||| t.contains('}')
        ||| srum_identifier(t, l)
    }
}

pub fn srum_string_signal_interesting(value: &str, lower: &str) -> (r: bool)
    ensures
        r == srum_interesting(value@, lower@),
{
    let v = chars_of(value);
    let tv = trim_chars(v.as_slice());
    let t = tv.as_slice();
    let lv = chars_of(lower);
    let l = lv.as_slice();
    if utf8_len_of(t) < 4 || eq_str(l, "en-us") || eq_str(l, "msysobjects") || eq_str(
        l,
        "msysobjectsshadow",
    ) {
        return false;
    }
    if path_text_chars(t) || url_text_chars(t) || process_like_chars(t).is_some() || contains_str(
        l,
        ".exe",
    ) || srum_keywords_exec(l) || contains_char_exec(t, '{') || contains_char_exec(t, '}') {
        return true;
    }
    let n = utf8_len_of(t);
    n <= 240 && !catalogue_word_exec(l) && no_control_exec(t) && has_alpha_exec(t)
}


/// Words of web-cache records.
pub open spec fn web_cache_keywords(l: Seq<char>) -> bool {
    ||| contains(l, "http"@)
    ||| contains(l, "url"@)
    ||| contains(l, "cache"@)
    ||| contains(l, "cookie"@)
    ||| contains(l, "history"@)
    ||| contains(l, "visited"@)
    ||| contains(l, "download"@)
    ||| contains(l, "container"@)
    ||| contains(l, "iedownload"@)
    ||| contains(l, "msedge"@)
    ||| contains(l, "chrome"@)
    ||| contains(l, "internet explorer"@)
    ||| contains(l, "content"@)
    ||| contains(l, "response"@)
    ||| contains(l, "request"@)
    ||| contains(l, "filename"@)
    ||| contains(l, "filepath"@)
    ||| contains(l, "recordoffset"@)
    ||| contains(l, "autoinc"@)
}

pub(crate) fn web_cache_keywords_exec(l: &[char]) -> (r: bool)
    ensures
        r == web_cache_keywords(l@),
{
    contains_str(l, "http")
        || contains_str(l, "url")
        || contains_str(l, "cache")
        || contains_str(l, "cookie")
        || contains_str(l, "history")
        || contains_str(l, "visited")
        || contains_str(l, "download")
        || contains_str(l, "container")
        || contains_str(l, "iedownload")
        || contains_str(l, "msedge")
        || contains_str(l, "chrome")
        || contains_str(l, "internet explorer")
        || contains_str(l, "content")
        || contains_str(l, "response")
        || contains_str(l, "request")
        || contains_str(l, "filename")
        || contains_str(l, "filepath")
        || contains_str(l, "recordoffset")
        || contains_str(l, "autoinc")
}

/// Host-like: two or more dot-separated labels of letters, digits and
/// hyphens, the last of 2 to 24 characters.
pub open spec fn domain_label_text(v: Seq<char>) -> bool {
    let ls = fields(lower(v), false, seq!['.']);
    &&& ls.len() >= 2
    &&& forall|k: int| 0 <= k < ls.len() ==> crate::extract::host_label(#[trigger] ls[k])
    &&& 2 <= ls.last().len() <= 24
}

pub fn looks_like_domain_label(value: &str) -> (r: bool)
    ensures
        r == domain_label_text(value@),
{
    let lv = lower_of(value);
    let dot = ['.'];
    assert(dot@ =~= seq!['.']);
    let parts = fields_of(lv.as_slice(), false, &dot);
    let ghost ls = vviews(parts@);
    if parts.len() < 2 {
        return false;
    }
    let mut i: usize = 0;
    while i < parts.len()
        invariant
            i <= parts.len(),
            ls == vviews(parts@),
            ls == fields(lv@, false, seq!['.']),
            lv@ == lower(value@),
            forall|k: int| 0 <= k < i ==> crate::extract::host_label(#[trigger] ls[k]),
        decreases parts.len() - i,
    {
        assert(ls[i as int] == parts@[i as int]@);
        if !crate::extract::host_label_chars(parts[i].as_slice()) {
            return false;
        }
        i = i + 1;
    }
    let last = parts.len() - 1;
    assert(ls.last() == parts@[last as int]@);
    parts[last].len() >= 2 && parts[last].len() <= 24
}

/// A string of a web cache worth an event: 4 to 300 bytes, not a catalogue
/// word, with a letter and no control character, and web words, a host or a
/// path separator.
pub open spec fn web_cache_surface(v: Seq<char>, l: Seq<char>) -> bool {
    &&& 4 <= utf8_len(v) <= 300
    &&& !catalogue_word(l)
    &&& has_alpha(v)
    &&& no_control(v)
    &&& (web_cache_keywords(l) || domain_label_text(v) || v.contains('\\') || v.contains('/'))
}

pub fn web_cache_string_surface_signal(value: &str, lower: &str) -> (r: bool)
    ensures
        r == web_cache_surface(value@, lower@),
{
    let v = chars_of(value);
    let l = chars_of(lower);
    let n = utf8_len_of(v.as_slice());
    if n < 4 || n > 300 {
        return false;
    }
    if catalogue_word_exec(l.as_slice()) {
        return false;
    }
    has_alpha_exec(v.as_slice()) && no_control_exec(v.as_slice()) && (web_cache_keywords_exec(
        l.as_slice(),
    ) || looks_like_domain_label(value) || contains_char_exec(v.as_slice(), '\\')
        || contains_char_exec(v.as_slice(), '/'))
}


pub open spec fn web_history_words(l: Seq<char>) -> bool {
    ||| contains(l, "container_"@)
    ||| contains(l, "urlhistory"@)
    ||| contains(l, "iedownload"@)
    ||| contains(l, "msedge"@)
    ||| contains(l, "chrome"@)
    ||| contains(l, "visited:"@)
}

pub(crate) fn web_history_words_exec(l: &[char]) -> (r: bool)
    ensures
        r == web_history_words(l@),
{
    contains_str(l, "container_")
        || contains_str(l, "urlhistory")
        || contains_str(l, "iedownload")
        || contains_str(l, "msedge")
        || contains_str(l, "chrome")
        || contains_str(l, "visited:")
}

pub open spec fn sqlite_words(l: Seq<char>) -> bool {
    ||| contains(l, "sqlite_master"@)
    ||| contains(l, "downloads"@)
    ||| contains(l, "urls"@)
    ||| contains(l, "visits"@)
    ||| contains(l, "logins"@)
    ||| contains(l, "cookies"@)
}

pub(crate) fn sqlite_words_exec(l: &[char]) -> (r: bool)
    ensures
        r == sqlite_words(l@),
{
    contains_str(l, "sqlite_master")
        || contains_str(l, "downloads")
        || contains_str(l, "urls")
        || contains_str(l, "visits")
        || contains_str(l, "logins")
        || contains_str(l, "cookies")
}

/// A further string of a database artifact of type `t` worth an event.
pub open spec fn database_extra_interesting(t: Seq<char>, v: Seq<char>, l: Seq<char>) -> bool {
    if t == "srum"@ {
        srum_interesting(v, l)
    } else if t == "web_cache"@ || t == "browser"@ {
        web_history_words(l) || web_cache_surface(v, l)
    } else if t == "sqlite"@ {
        sqlite_words(l)
    } else {
        false
    }
}

pub fn database_extra_string_interesting(artifact_type: &str, value: &str, lower: &str) -> (r: bool)
    ensures
        r == database_extra_interesting(artifact_type@, value@, lower@),
{
    let tv = chars_of(artifact_type);
    let t = tv.as_slice();
    let l = chars_of(lower);
    if eq_str(t, "srum") {
        srum_string_signal_interesting(value, lower)
    } else if eq_str(t, "web_cache") || eq_str(t, "browser") {
        web_history_words_exec(l.as_slice()) || web_cache_string_surface_signal(value, lower)
    } else if eq_str(t, "sqlite") {
        sqlite_words_exec(l.as_slice())
    } else {
        false
    }
}


pub open spec fn srum_schema_words(l: Seq<char>) -> bool {
    ||| contains(l, "appresource"@)
    ||| contains(l, "network"@)
    ||| contains(l, "energy"@)
    ||| contains(l, "interface"@)
    ||| contains(l, "resource"@)
}

pub(crate) fn srum_schema_words_exec(l: &[char]) -> (r: bool)
    ensures
        r == srum_schema_words(l@),
{
    contains_str(l, "appresource")
        || contains_str(l, "network")
        || contains_str(l, "energy")
        || contains_str(l, "interface")
        || contains_str(l, "resource")
}

pub open spec fn database_schema_words(l: Seq<char>) -> bool {
    ||| contains(l, "sqlite_master"@)
    ||| contains(l, "msys"@)
    ||| contains(l, "recordoffset"@)
    ||| contains(l, "autoinc"@)
}

pub(crate) fn database_schema_words_exec(l: &[char]) -> (r: bool)
    ensures
        r == database_schema_words(l@),
{
    contains_str(l, "sqlite_master")
        || contains_str(l, "msys")
        || contains_str(l, "recordoffset")
        || contains_str(l, "autoinc")
}

/// What kind of indicator a database string is.
pub open spec fn database_class(t: Seq<char>, v: Seq<char>, l: Seq<char>) -> Seq<char> {
    if url_like(v) is Some {
        "url"@
    } else if process_like(v) is Some {
        "process"@
    } else if path_like(v) is Some {
        "path"@
    } else if hash_like(v) is Some {
        "hash"@
    } else if t == "srum"@ && srum_schema_words(l) {
        "srum_resource_schema"@
    } else if database_schema_words(l) {
        "database_schema"@
    } else {
        "string_signal"@
    }
}

pub fn database_string_class(artifact_type: &str, value: &str, lower: &str) -> (r: &'static str)
    ensures
        r@ == database_class(artifact_type@, value@, lower@),
{
    let tv = chars_of(artifact_type);
    let vv = chars_of(value);
    let v = vv.as_slice();
    let lv = chars_of(lower);
    let l = lv.as_slice();
    if url_like_chars(v).is_some() {
        "url"
    } else if process_like_chars(v).is_some() {
        "process"
    } else if path_like_chars(v).is_some() {
        "path"
    } else if hash_like_chars(v).is_some() {
        "hash"
    } else if eq_str(tv.as_slice(), "srum") && srum_schema_words_exec(l) {
        "srum_resource_schema"
    } else if database_schema_words_exec(l) {
        "database_schema"
    } else {
        "string_signal"
    }
}

// ---------------------------------------------------------------------------
// OneDrive
// ---------------------------------------------------------------------------

/// A line of a OneDrive log worth an event.
pub open spec fn onedrive_interesting(l: Seq<char>) -> bool {
    ||| contains(l, "onedrive"@)
    ||| contains(l, "sync"@)
    ||| contains(l, "download"@)
    ||| contains(l, "upload"@)
    ||| contains(l, "delete"@)
    ||| contains(l, "rename"@)
    ||| contains(l, "move"@)
    ||| contains(l, "sharepoint"@)
    ||| contains(l, "tenant"@)
    ||| contains(l, "cid="@)
    ||| contains(l, "usercid"@)
    ||| contains(l, "error"@)
    ||| contains(l, "fail"@)
    ||| contains(l, "warn"@)
    ||| contains(l, "conflict"@)
    ||| contains(l, "hydration"@)
    ||| contains(l, "dehydration"@)
    ||| contains(l, "placeholder"@)
    ||| contains(l, "localroot"@)
    ||| contains(l, "mountpoint"@)
    ||| contains(l, "business"@)
    ||| contains(l, "personal"@)
    ||| contains(l, "account"@)
    ||| contains(l, "http://"@)
    ||| contains(l, "https://"@)
    ||| contains(l, "c:\\"@)
    ||| contains(l, "\\users\\"@)
    ||| contains(l, "/users/"@)
}

pub(crate) fn onedrive_interesting_exec(l: &[char]) -> (r: bool)
    ensures
        r == onedrive_interesting(l@),
{
    contains_str(l, "onedrive")
        || contains_str(l, "sync")
        || contains_str(l, "download")
        || contains_str(l, "upload")
        || contains_str(l, "delete")
        || contains_str(l, "rename")
        || contains_str(l, "move")
        || contains_str(l, "sharepoint")
        || contains_str(l, "tenant")
        || contains_str(l, "cid=")
        || contains_str(l, "usercid")
        || contains_str(l, "error")
        || contains_str(l, "fail")
        || contains_str(l, "warn")
        || contains_str(l, "conflict")
        || contains_str(l, "hydration")
        || contains_str(l, "dehydration")
        || contains_str(l, "placeholder")
        || contains_str(l, "localroot")
        || contains_str(l, "mountpoint")
        || contains_str(l, "business")
        || contains_str(l, "personal")
        || contains_str(l, "account")
        || contains_str(l, "http://")
        || contains_str(l, "https://")
        || contains_str(l, "c:\\")
        || contains_str(l, "\\users\\")
        || contains_str(l, "/users/")
}

pub fn onedrive_line_interesting(lower: &str) -> (r: bool)
    ensures
        r == onedrive_interesting(lower@),
{
    let l = chars_of(lower);
    onedrive_interesting_exec(l.as_slice())
}

/// The action of a OneDrive log line.
pub open spec fn onedrive_action_of(l: Seq<char>, has_url: bool, has_path: bool) -> Seq<char> {
    if contains(l, "download"@) || contains(l, "hydration"@) {
        "onedrive_download_observed"@
    } else if contains(l, "upload"@) || contains(l, "dehydration"@) {
        "onedrive_upload_observed"@
    } else if contains(l, "delete"@) || contains(l, "recycle"@) {
        "onedrive_delete_observed"@
    } else if contains(l, "rename"@) || contains(l, "move"@) {
        "onedrive_rename_or_move_observed"@
    } else if contains(l, "error"@) || contains(l, "fail"@) || contains(l, "exception"@) {
        "onedrive_error_observed"@
    } else if contains(l, "account"@) || contains(l, "tenant"@) || contains(l, "usercid"@) {
        "onedrive_account_observed"@
    } else if has_url {
        "onedrive_url_observed"@
    } else if has_path {
        "onedrive_path_observed"@
    } else if contains(l, "sync"@) {
        "onedrive_sync_observed"@
    } else {
        "onedrive_signal_observed"@
    }
}

pub fn onedrive_action(lower: &str, url: Option<&str>, file_path: Option<&str>) -> (r: String)
    ensures
        r@ == onedrive_action_of(lower@, url is Some, file_path is Some),
{
    let lv = chars_of(lower);
    let l = lv.as_slice();
    let a = if contains_str(l, "download") || contains_str(l, "hydration") {
        "onedrive_download_observed"
    } else if contains_str(l, "upload") || contains_str(l, "dehydration") {
        "onedrive_upload_observed"
    } else if contains_str(l, "delete") || contains_str(l, "recycle") {
        "onedrive_delete_observed"
    } else if contains_str(l, "rename") || contains_str(l, "move") {
        "onedrive_rename_or_move_observed"
    } else if contains_str(l, "error") || contains_str(l, "fail") || contains_str(l, "exception") {
        "onedrive_error_observed"
    } else if contains_str(l, "account") || contains_str(l, "tenant") || contains_str(l, "usercid") {
        "onedrive_account_observed"
    } else if url.is_some() {
        "onedrive_url_observed"
    } else if file_path.is_some() {
        "onedrive_path_observed"
    } else if contains_str(l, "sync") {
        "onedrive_sync_observed"
    } else {
        "onedrive_signal_observed"
    };
    string_of(a)
}

/// Errors, uploads and deletions are medium, anything else informational.
pub open spec fn onedrive_severity_of(l: Seq<char>, action: Seq<char>) -> Seq<char> {
    if contains(l, "error"@) || contains(l, "fail"@) || contains(l, "exception"@) {
        "medium"@
    } else if contains(action, "upload"@) || contains(action, "delete"@) {
        "medium"@
    } else {
        "info"@
    }
}

pub fn onedrive_severity(lower: &str, action: &str) -> (r: &'static str)
    ensures
        r@ == onedrive_severity_of(lower@, action@),
{
    let lv = chars_of(lower);
    let l = lv.as_slice();
    let av = chars_of(action);
    let a = av.as_slice();
    if contains_str(l, "error") || contains_str(l, "fail") || contains_str(l, "exception") {
        "medium"
    } else if contains_str(a, "upload") || contains_str(a, "delete") {
        "medium"
    } else {
        "info"
    }
}

/// The kind of OneDrive account a settings path belongs to.
pub open spec fn onedrive_scope(p: Seq<char>) -> Option<Seq<char>> {
    let l = lower(p);
    if contains(l, "/business"@) || contains(l, "\\business"@) {
        Some("business"@)
    } else if contains(l, "/personal"@) || contains(l, "\\personal"@) {
        Some("personal"@)
    } else if contains(l, "/common"@) || contains(l, "\\common"@) {
        Some("common"@)
    } else {
        None
    }
}

pub fn onedrive_scope_from_path(path: &str) -> (r: Option<String>)
    ensures
        opt_view(r) == onedrive_scope(path@),
{
    let lv = lower_of(path);
    let l = lv.as_slice();
    if contains_str(l, "/business") || contains_str(l, "\\business") {
        Some(string_of("business"))
    } else if contains_str(l, "/personal") || contains_str(l, "\\personal") {
        Some(string_of("personal"))
    } else if contains_str(l, "/common") || contains_str(l, "\\common") {
        Some(string_of("common"))
    } else {
        None
    }
}

pub open spec fn onedrive_account_labels() -> Seq<Seq<char>> {
    seq!["UserCid"@, "cid"@, "Tenant"@, "Account"@, "User"@, "email"@]
}

pub open spec fn mail_word(w: Seq<char>) -> Option<Seq<char>> {
    if w.contains('@') && w.contains('.') {
        Some(trim_set(w, token_punct()))
    } else {
        None
    }
}

pub open spec fn mail_word_fn() -> spec_fn(Seq<char>) -> Option<Seq<char>> {
    |w: Seq<char>| mail_word(w)
}

/// The account named in a OneDrive value: a labelled value, or the first word
/// that looks like a mail address; cleaned.
pub open spec fn onedrive_account(v: Seq<char>) -> Option<Seq<char>> {
    match first_label_value(v, onedrive_account_labels()) {
        Some(a) => clean(a),
        None => match first_some(words(v), mail_word_fn()) {
            Some(a) => clean(a),
            None => None,
        },
    }
}

fn first_mail_word(v: &[char]) -> (r: Option<Vec<char>>)
    ensures
        match r {
            Some(w) => first_some(words(v@), mail_word_fn()) == Some(w@),
            None => first_some(words(v@), mail_word_fn()) is None,
        },
{
    let parts = words_of(v);
    let punct = ['"', '\'', '<', '>', '(', ')', '[', ']', ',', ';'];
    assert(punct@ =~= token_punct());
    let ghost ps = vviews(parts@);
    proof {
        lemma_first_some_ends(ps, mail_word_fn());
    }
    let mut i: usize = 0;
    while i < parts.len()
        invariant
            i <= parts.len(),
            ps == vviews(parts@),
            ps == words(v@),
            punct@ == token_punct(),
            first_some(ps, mail_word_fn()) == first_some(
                ps.subrange(i as int, ps.len() as int),
                mail_word_fn(),
            ),
        decreases parts.len() - i,
    {
        proof {
            lemma_first_some_step(ps, mail_word_fn(), i as int);
        }
        assert(ps[i as int] == parts@[i as int]@);
        let w = parts[i].as_slice();
        if contains_char_exec(w, '@') && contains_char_exec(w, '.') {
            return Some(trim_set_chars(w, &punct));
        }
        i = i + 1;
    }
    proof {
        lemma_first_some_ends(ps, mail_word_fn());
    }
    None
}

pub fn onedrive_account_hint(value: &str) -> (r: Option<String>)
    ensures
        opt_view(r) == onedrive_account(value@),
{
    let v = chars_of(value);
    let labels = ["UserCid", "cid", "Tenant", "Account", "User", "email"];
    assert(views(labels@) =~= onedrive_account_labels());
    let found = match first_label_value_exec(v.as_slice(), &labels) {
        Some(a) => Some(a),
        None => first_mail_word(v.as_slice()),
    };
    match found {
        Some(a) => match clean_chars(a.as_slice()) {
            Some(c) => Some(string_from(c.as_slice())),
            None => None,
        },
        None => None,
    }
}

} // verus!
