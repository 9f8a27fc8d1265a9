//! The structured parser's choice of artifact kind: a fixed order of rules over
//! the declared type, the lower-cased path, a sample of the text and its header.
use vstd::prelude::*;
use crate::artifact::{
    ext_is, extension_of, normalize_chars, normalized, windows_search_log_path,
};
use crate::decode::{lines, lines_of};
use crate::text::{
    chars_of, contains, contains_str, ends_with, ends_with_str, eq_str, lower, lower_chars,
    lower_of, slice_to_vec, starts_with, starts_with_str, string_of, trim, trim_chars, vviews,
};
use crate::ParserInput;

verus! {

// ---------------------------------------------------------------------------
// What the rules read
// ---------------------------------------------------------------------------
/// The first 8192 characters of a text, lower-cased.
pub open spec fn sample_of(text: Seq<char>) -> Seq<char> {
    lower(
        if text.len() <= 8192 {
            text
        } else {
            text.subrange(0, 8192)
        },
    )
}

/// The first line that is not blank, or the empty text.
pub open spec fn first_nonblank(ls: Seq<Seq<char>>) -> Seq<char>
    decreases ls.len(),
{
    if ls.len() == 0 {
        Seq::empty()
    } else if trim(ls[0]).len() != 0 {
        ls[0]
    } else {
        first_nonblank(ls.drop_first())
    }
}

/// The normalised first non-blank line of a text.
pub open spec fn header_of(text: Seq<char>) -> Seq<char> {
    normalized(first_nonblank(lines(text)))
}

// ---------------------------------------------------------------------------
// The rules, in the order they are tried
// ---------------------------------------------------------------------------
pub open spec fn onedrive_rule(t: Seq<char>, l: Seq<char>) -> bool {
    ||| t == "onedrive_log"@
    ||| contains(l, "/onedrive/logs/"@)
    ||| contains(l, "\\onedrive\\logs\\"@)
    ||| contains(l, "/onedrive/settings/"@)
    ||| contains(l, "\\onedrive\\settings\\"@)
    ||| contains(l, "/onedrive/"@)
    ||| contains(l, "\\onedrive\\"@)
    ||| ends_with(l, ".odl"@)
    ||| ends_with(l, ".aodl"@)
    ||| ends_with(l, ".odlgz"@)
    ||| ends_with(l, ".odlsent"@)
    ||| ends_with(l, ".loggz"@)
}

pub open spec fn filezilla_rule(t: Seq<char>, l: Seq<char>, s: Seq<char>) -> bool {
    ||| t == "filezilla"@
    ||| contains(l, "/filezilla/"@)
    ||| contains(l, "\\filezilla\\"@)
    ||| ends_with(l, "recentservers.xml"@)
    ||| ends_with(l, "filezilla.xml"@)
    ||| ends_with(l, "sitemanager.xml"@)
    ||| contains(s, "<filezilla3"@)
    ||| contains(s, "<recentservers>"@)
}

pub open spec fn credential_rule(t: Seq<char>, l: Seq<char>) -> bool {
    ||| t == "credential_store"@
    ||| ends_with(l, "/login data"@)
    ||| ends_with(l, "\\login data"@)
    ||| ends_with(l, ".kdbx"@)
    ||| contains(l, "/microsoft/protect/"@)
    ||| contains(l, "\\microsoft\\protect\\"@)
}

pub open spec fn document_rule(t: Seq<char>, l: Seq<char>) -> bool {
    ||| t == "document"@
    ||| ext_is(l, "pdf"@, "doc"@)
    ||| ext_is(l, "docx"@, "xls"@)
    ||| ext_is(l, "xlsx"@, "ppt"@)
    ||| ext_is(l, "pptx"@, "rtf"@)
}

pub open spec fn capture_rule(t: Seq<char>, l: Seq<char>) -> bool {
    t == "network_capture"@ || ends_with(l, ".pcap"@) || ends_with(l, ".pcapng"@)
}

pub open spec fn archive_rule(t: Seq<char>, l: Seq<char>) -> bool {
    t == "archive"@ || ext_is(l, "zip"@, "rar"@) || ext_is(l, "7z"@, "iso"@)
}

pub open spec fn jump_list_rule(t: Seq<char>, l: Seq<char>) -> bool {
    t == "jump_list"@ || ends_with(l, ".automaticdestinations-ms"@) || ends_with(
        l,
        ".customdestinations-ms"@,
    )
}

pub open spec fn task_rule(t: Seq<char>, l: Seq<char>, s: Seq<char>) -> bool {
    ||| t == "scheduled_task"@
    ||| contains(l, "/windows/system32/tasks/"@)
    ||| contains(l, "\\windows\\system32\\tasks\\"@)
    ||| (contains(s, "<task"@) || contains(s, "taskversion"@)) && (contains(s, "<actions"@)
        || contains(s, "<exec"@)) && (contains(s, "<command"@) || contains(s, "<uri"@))
}

pub open spec fn hive_rule(t: Seq<char>, l: Seq<char>) -> bool {
    ||| t == "registry_hive"@
    ||| ends_with(l, "ntuser.dat"@)
    ||| ends_with(l, "usrclass.dat"@)
    ||| ends_with(l, ".hve"@)
    ||| ends_with(l, "/sam"@)
    ||| ends_with(l, "/system"@)
    ||| ends_with(l, "/software"@)
    ||| ends_with(l, "/security"@)
}

pub open spec fn hive_log_rule(t: Seq<char>, l: Seq<char>) -> bool {
    ||| t == "registry_log"@
    ||| ends_with(l, ".dat.log1"@)
    ||| ends_with(l, ".dat.log2"@)
    ||| ends_with(l, ".log1"@)
    ||| ends_with(l, ".log2"@)
}

pub open spec fn srum_rule(t: Seq<char>, l: Seq<char>) -> bool {
    ||| t == "srum"@
    ||| contains(l, "/sru/"@)
    ||| contains(l, "\\sru\\"@)
    ||| contains(l, "srudb.dat"@)
    ||| starts_with(l, "sru"@) && ends_with(l, ".log"@)
}

pub open spec fn web_cache_rule(t: Seq<char>, l: Seq<char>) -> bool {
    ||| t == "web_cache"@
    ||| t == "webcache"@
    ||| contains(l, "/windows/webcache/"@)
    ||| contains(l, "\\windows\\webcache\\"@)
    ||| contains(l, "webcachev01.dat"@)
    ||| contains(l, "/inetcookies/"@)
    ||| contains(l, "\\inetcookies\\"@)
    ||| contains(l, "/cryptneturlcache/"@)
    ||| contains(l, "\\cryptneturlcache\\"@)
    ||| contains(l, "/microsoftedge/cache/"@)
    ||| contains(l, "\\microsoftedge\\cache\\"@)
    ||| contains(l, "/microsoftedge/cookies/"@)
    ||| contains(l, "\\microsoftedge\\cookies\\"@)
    ||| contains(l, "/microsoftedge/user/default/domstore/"@)
    ||| contains(l, "\\microsoftedge\\user\\default\\domstore\\"@)
    ||| contains(l, "/internet explorer/cachestorage/"@)
    ||| contains(l, "\\internet explorer\\cachestorage\\"@)
}

pub open spec fn ese_rule(t: Seq<char>, l: Seq<char>) -> bool {
    t == "ese"@ || ends_with(l, ".edb"@) || ends_with(l, ".jrs"@) || ends_with(l, ".chk"@)
}

pub open spec fn sqlite_rule(t: Seq<char>, l: Seq<char>) -> bool {
    ||| t == "sqlite"@
    ||| ends_with(l, ".sqlite"@)
    ||| ends_with(l, ".sqlite-wal"@)
    ||| ends_with(l, ".sqlite-shm"@)
    ||| ends_with(l, ".db"@)
    ||| ends_with(l, ".db-wal"@)
    ||| ends_with(l, ".db-shm"@)
    ||| ends_with(l, ".otc"@)
    ||| ends_with(l, ".otc-wal"@)
    ||| ends_with(l, ".otc-shm"@)
}

pub open spec fn firefox_path(l: Seq<char>) -> bool {
    contains(l, "firefox"@) || contains(l, "places.sqlite"@) || contains(l, "cookies.sqlite"@)
}

pub open spec fn image_rule(t: Seq<char>, l: Seq<char>) -> bool {
    ||| t == "image"@
    ||| ends_with(l, ".jpg"@)
    ||| ends_with(l, ".jpeg"@)
    ||| ends_with(l, ".png"@)
    ||| ends_with(l, ".gif"@)
    ||| ends_with(l, ".ico"@)
}

pub open spec fn ntfs_rule(t: Seq<char>, l: Seq<char>) -> bool {
    ||| t == "ntfs_metadata"@
    ||| contains(l, "/$boot"@)
    ||| contains(l, "\\$boot"@)
    ||| contains(l, "/$logfile"@)
    ||| contains(l, "\\$logfile"@)
    ||| contains(l, "/$secure"@)
    ||| contains(l, "\\$secure"@)
}

pub open spec fn defender_rule(t: Seq<char>, l: Seq<char>, s: Seq<char>) -> bool {
    ||| t == "defender"@
    ||| t == "defender_mplog"@
    ||| t == "defender_operational"@
    ||| contains(l, "mplog"@)
    ||| contains(l, "mpwpptracing"@)
    ||| contains(l, "mpoperational"@)
    ||| contains(l, "windows defender"@)
    ||| contains(l, "defender"@)
    ||| contains(s, "microsoft-windows-windows defender"@)
    ||| contains(s, "windows defender antivirus"@)
    ||| contains(s, "microsoft defender antivirus"@)
    ||| contains(normalized(s), "threatname"@)
    ||| contains(normalized(s), "mpoperationalevents"@)
}

pub open spec fn mplog_rule(l: Seq<char>, s: Seq<char>) -> bool {
    contains(l, "mplog"@) || contains(l, "mpwpptracing"@) || contains(s, "mpcmdrun"@) || contains(
        s,
        "msmpeng"@,
    )
}

pub open spec fn hayabusa_rule(t: Seq<char>, l: Seq<char>, s: Seq<char>, h: Seq<char>) -> bool {
    ||| t == "hayabusa"@
    ||| contains(l, "hayabusa"@)
    ||| contains(s, "\"ruletitle\""@)
    ||| contains(s, "\"ruleauthor\""@)
    ||| contains(s, "\"mitretactics\""@)
    ||| contains(h, "ruletitle"@) && contains(h, "level"@) && contains(h, "timestamp"@)
    ||| contains(h, "ruleauthor"@) && contains(h, "eventid"@) && contains(h, "timestamp"@)
}

pub open spec fn prefetch_rule(t: Seq<char>, l: Seq<char>, h: Seq<char>) -> bool {
    ||| t == "prefetch"@
    ||| ends_with(l, ".pf"@)
    ||| contains(l, "prefetch"@)
    ||| contains(l, "pecmd"@)
    ||| (contains(h, "executable"@) || contains(h, "sourcefilename"@)) && (contains(
        h,
        "runcount"@,
    ) || contains(h, "lastrun"@) || contains(h, "previousrun"@))
}

pub open spec fn amcache_header_rule(t: Seq<char>, h: Seq<char>) -> bool {
    ||| t == "amcache"@
    ||| (contains(h, "sha1"@) || contains(h, "sha256"@)) && (contains(h, "programname"@)
        || contains(h, "filepath"@) || contains(h, "fullpath"@) || contains(h, "path"@))
}

pub open spec fn usn_rule(t: Seq<char>, l: Seq<char>, h: Seq<char>) -> bool {
    ||| t == "usn"@
    ||| t == "usn_jrnl"@
    ||| contains(l, "usnjrnl"@)
    ||| contains(l, "$j"@)
    ||| contains(l, "usn"@) && ends_with(l, ".csv"@)
    ||| contains(h, "usn"@) && contains(h, "reason"@) && (contains(h, "filename"@) || contains(
        h,
        "filereference"@,
    ))
}

pub open spec fn browser_rule(t: Seq<char>, l: Seq<char>, h: Seq<char>) -> bool {
    ||| t == "browser"@
    ||| contains(l, "browser"@)
    ||| contains(l, "places.sqlite"@)
    ||| contains(l, "history"@) && ends_with(l, ".csv"@)
    ||| contains(h, "url"@) && (contains(h, "visit"@) || contains(h, "lastvisit"@) || contains(
        h,
        "title"@,
    ))
}

pub open spec fn mft_rule(t: Seq<char>, l: Seq<char>, h: Seq<char>) -> bool {
    ||| t == "mft"@
    ||| ends_with(l, ".mft"@)
    ||| contains(l, "$mft"@)
    ||| contains(l, "mft"@)
    ||| contains(h, "entrynumber"@) && contains(h, "sequence"@)
    ||| contains(h, "fullpath"@) && contains(h, "created0x10"@)
}

pub open spec fn evtx_rule(t: Seq<char>, l: Seq<char>, text: Seq<char>, h: Seq<char>) -> bool {
    ||| t == "evtx"@
    ||| ends_with(l, ".evtx"@)
    ||| contains(text, "<EventID"@)
    ||| contains(text, "<Event "@)
    ||| contains(text, "<Event>"@)
    ||| contains(h, "eventid"@)
    ||| contains(h, "timecreated"@)
}

/// The kind decided by the rules that read the path and the declared type only
/// (the first ten); none when none of them applies.
pub open spec fn early_kind(t: Seq<char>, l: Seq<char>, s: Seq<char>) -> Option<Seq<char>> {
    if onedrive_rule(t, l) {
        Some("onedrive_log"@)
    } else if t == "windows_search_log"@ || windows_search_log_path(l) {
        Some("windows_search_log"@)
    } else if filezilla_rule(t, l, s) {
        Some("filezilla"@)
    } else if credential_rule(t, l) {
        Some("credential_store"@)
    } else if document_rule(t, l) {
        Some("document"@)
    } else if capture_rule(t, l) {
        Some("network_capture"@)
    } else if archive_rule(t, l) {
        Some("archive"@)
    } else if t == "lnk"@ || ends_with(l, ".lnk"@) {
        Some("lnk"@)
    } else if jump_list_rule(t, l) {
        Some("jump_list"@)
    } else if task_rule(t, l, s) {
        Some("scheduled_task"@)
    } else if t == "amcache"@ || contains(l, "amcache"@) {
        Some("amcache"@)
    } else {
        None
    }
}

/// The kind decided by the rules for binary stores and web files.
pub open spec fn store_kind(t: Seq<char>, l: Seq<char>) -> Option<Seq<char>> {
    if hive_rule(t, l) {
        Some("registry_hive"@)
    } else if hive_log_rule(t, l) {
        Some("registry_log"@)
    } else if srum_rule(t, l) {
        Some("srum"@)
    } else if web_cache_rule(t, l) {
        Some("web_cache"@)
    } else if t == "thumbcache"@ || contains(l, "thumbcache"@) {
        Some("thumbcache"@)
    } else if ese_rule(t, l) {
        Some("ese"@)
    } else if t == "etl"@ || ends_with(l, ".etl"@) {
        Some("etl"@)
    } else if sqlite_rule(t, l) {
        if firefox_path(l) {
            Some("browser"@)
        } else {
            Some("sqlite"@)
        }
    } else if image_rule(t, l) {
        Some("image"@)
    } else if t == "font"@ || ends_with(l, ".woff"@) {
        Some("font"@)
    } else if ends_with(l, ".htm"@) || ends_with(l, ".html"@) {
        Some("html"@)
    } else if ends_with(l, ".js"@) || ends_with(l, ".map"@) {
        Some("script"@)
    } else if ends_with(l, ".css"@) {
        Some("stylesheet"@)
    } else if ends_with(l, ".ini"@) || ends_with(l, ".cfg"@) || ends_with(l, ".config"@) {
        Some("config"@)
    } else if ntfs_rule(t, l) {
        Some(t)
    } else {
        None
    }
}

/// The kind decided by the rules that also read the content.
pub open spec fn content_kind(
    t: Seq<char>,
    l: Seq<char>,
    s: Seq<char>,
    h: Seq<char>,
    text: Seq<char>,
) -> Seq<char> {
    if defender_rule(t, l, s) {
        if mplog_rule(l, s) {
            "defender_mplog"@
        } else {
            "defender_operational"@
        }
    } else if hayabusa_rule(t, l, s, h) {
        "hayabusa"@
    } else if prefetch_rule(t, l, h) {
        "prefetch"@
    } else if amcache_header_rule(t, h) {
        "amcache"@
    } else if usn_rule(t, l, h) {
        "usn_jrnl"@
    } else if browser_rule(t, l, h) {
        "browser"@
    } else if mft_rule(t, l, h) {
        "mft"@
    } else if evtx_rule(t, l, text, h) {
        "evtx"@
    } else if ends_with(l, ".jsonl"@) {
        "jsonl"@
    } else if ends_with(l, ".json"@) {
        "json"@
    } else if ends_with(l, ".csv"@) {
        "csv"@
    } else if ends_with(l, ".txt"@) || ends_with(l, ".log"@) || ends_with(l, ".fake"@) {
        "text_log"@
    } else if trim(text).len() != 0 {
        "generic_text"@
    } else {
        t
    }
}

/// The artifact kind the structured parser works with, for an input declared
/// as `t`, at `path`, holding `text`.
pub open spec fn structured_kind(t: Seq<char>, path: Seq<char>, text: Seq<char>) -> Seq<char> {
    let l = lower(path);
    let s = sample_of(text);
    match early_kind(t, l, s) {
        Some(k) => k,
        None => match store_kind(t, l) {
            Some(k) => k,
            None => content_kind(t, l, s, header_of(text), text),
        },
    }
}

// ---------------------------------------------------------------------------
// The rules, computed
// ---------------------------------------------------------------------------
fn onedrive_rule_exec(t: &[char], l: &[char]) -> (r: bool)
    ensures
        r == onedrive_rule(t@, l@),
{
    eq_str(t, "onedrive_log") || contains_str(l, "/onedrive/logs/") || contains_str(
        l,
        "\\onedrive\\logs\\",
    ) || contains_str(l, "/onedrive/settings/") || contains_str(l, "\\onedrive\\settings\\")
        || contains_str(l, "/onedrive/") || contains_str(l, "\\onedrive\\") || ends_with_str(
        l,
        ".odl",
    ) || ends_with_str(l, ".aodl") || ends_with_str(l, ".odlgz") || ends_with_str(l, ".odlsent")
        || ends_with_str(l, ".loggz")
}

fn filezilla_rule_exec(t: &[char], l: &[char], s: &[char]) -> (r: bool)
    ensures
        r == filezilla_rule(t@, l@, s@),
{
    eq_str(t, "filezilla") || contains_str(l, "/filezilla/") || contains_str(l, "\\filezilla\\")
        || ends_with_str(l, "recentservers.xml") || ends_with_str(l, "filezilla.xml")
        || ends_with_str(l, "sitemanager.xml") || contains_str(s, "<filezilla3") || contains_str(
        s,
        "<recentservers>",
    )
}

fn credential_rule_exec(t: &[char], l: &[char]) -> (r: bool)
    ensures
        r == credential_rule(t@, l@),
{
    eq_str(t, "credential_store") || ends_with_str(l, "/login data") || ends_with_str(
        l,
        "\\login data",
    ) || ends_with_str(l, ".kdbx") || contains_str(l, "/microsoft/protect/") || contains_str(
        l,
        "\\microsoft\\protect\\",
    )
}

fn ext_of_is(l: &[char], a: &str, b: &str) -> (r: bool)
    ensures
        r == ext_is(l@, a@, b@),
{
    match crate::artifact::extension_chars(l) {
        Some(e) => eq_str(e.as_slice(), a) || eq_str(e.as_slice(), b),
        None => false,
    }
}

fn document_rule_exec(t: &[char], l: &[char]) -> (r: bool)
    ensures
        r == document_rule(t@, l@),
{
    eq_str(t, "document") || ext_of_is(l, "pdf", "doc") || ext_of_is(l, "docx", "xls")
        || ext_of_is(l, "xlsx", "ppt") || ext_of_is(l, "pptx", "rtf")
}

fn task_rule_exec(t: &[char], l: &[char], s: &[char]) -> (r: bool)
    ensures
        r == task_rule(t@, l@, s@),
{
    eq_str(t, "scheduled_task") || contains_str(l, "/windows/system32/tasks/") || contains_str(
        l,
        "\\windows\\system32\\tasks\\",
    ) || ((contains_str(s, "<task") || contains_str(s, "taskversion")) && (contains_str(
        s,
        "<actions",
    ) || contains_str(s, "<exec")) && (contains_str(s, "<command") || contains_str(s, "<uri")))
}

fn early_kind_exec(t: &[char], l: &[char], s: &[char]) -> (r: Option<&'static str>)
    ensures
        match r {
            Some(k) => early_kind(t@, l@, s@) == Some(k@),
            None => early_kind(t@, l@, s@) is None,
        },
{
    if onedrive_rule_exec(t, l) {
        Some("onedrive_log")
    } else if eq_str(t, "windows_search_log") || crate::artifact::search_log_path_chars(l) {
        Some("windows_search_log")
    } else if filezilla_rule_exec(t, l, s) {
        Some("filezilla")
    } else if credential_rule_exec(t, l) {
        Some("credential_store")
    } else if document_rule_exec(t, l) {
        Some("document")
    } else if eq_str(t, "network_capture") || ends_with_str(l, ".pcap") || ends_with_str(
        l,
        ".pcapng",
    ) {
        Some("network_capture")
    } else if eq_str(t, "archive") || ext_of_is(l, "zip", "rar") || ext_of_is(l, "7z", "iso") {
        Some("archive")
    } else if eq_str(t, "lnk") || ends_with_str(l, ".lnk") {
        Some("lnk")
    } else if eq_str(t, "jump_list") || ends_with_str(l, ".automaticdestinations-ms")
        || ends_with_str(l, ".customdestinations-ms") {
        Some("jump_list")
    } else if task_rule_exec(t, l, s) {
        Some("scheduled_task")
    } else if eq_str(t, "amcache") || contains_str(l, "amcache") {
        Some("amcache")
    } else {
        None
    }
}

fn hive_rule_exec(t: &[char], l: &[char]) -> (r: bool)
    ensures
        r == hive_rule(t@, l@),
{
    eq_str(t, "registry_hive") || ends_with_str(l, "ntuser.dat") || ends_with_str(
        l,
        "usrclass.dat",
    ) || ends_with_str(l, ".hve") || ends_with_str(l, "/sam") || ends_with_str(l, "/system")
        || ends_with_str(l, "/software") || ends_with_str(l, "/security")
}

fn hive_log_rule_exec(t: &[char], l: &[char]) -> (r: bool)
    ensures
        r == hive_log_rule(t@, l@),
{
    eq_str(t, "registry_log") || ends_with_str(l, ".dat.log1") || ends_with_str(l, ".dat.log2")
        || ends_with_str(l, ".log1") || ends_with_str(l, ".log2")
}

fn srum_rule_exec(t: &[char], l: &[char]) -> (r: bool)
    ensures
        r == srum_rule(t@, l@),
{
    eq_str(t, "srum") || contains_str(l, "/sru/") || contains_str(l, "\\sru\\") || contains_str(
        l,
        "srudb.dat",
    ) || (starts_with_str(l, "sru") && ends_with_str(l, ".log"))
}

fn web_cache_rule_exec(t: &[char], l: &[char]) -> (r: bool)
    ensures
        r == web_cache_rule(t@, l@),
{
    eq_str(t, "web_cache") || eq_str(t, "webcache") || contains_str(l, "/windows/webcache/")
        || contains_str(l, "\\windows\\webcache\\") || contains_str(l, "webcachev01.dat")
        || contains_str(l, "/inetcookies/") || contains_str(l, "\\inetcookies\\")
        || contains_str(l, "/cryptneturlcache/") || contains_str(l, "\\cryptneturlcache\\")
        || contains_str(l, "/microsoftedge/cache/") || contains_str(l, "\\microsoftedge\\cache\\")
        || contains_str(l, "/microsoftedge/cookies/") || contains_str(
        l,
        "\\microsoftedge\\cookies\\",
    ) || contains_str(l, "/microsoftedge/user/default/domstore/") || contains_str(
        l,
        "\\microsoftedge\\user\\default\\domstore\\",
    ) || contains_str(l, "/internet explorer/cachestorage/") || contains_str(
        l,
        "\\internet explorer\\cachestorage\\",
    )
}

fn sqlite_rule_exec(t: &[char], l: &[char]) -> (r: bool)
    ensures
        r == sqlite_rule(t@, l@),
{
    eq_str(t, "sqlite") || ends_with_str(l, ".sqlite") || ends_with_str(l, ".sqlite-wal")
        || ends_with_str(l, ".sqlite-shm") || ends_with_str(l, ".db") || ends_with_str(
        l,
        ".db-wal",
    ) || ends_with_str(l, ".db-shm") || ends_with_str(l, ".otc") || ends_with_str(l, ".otc-wal")
        || ends_with_str(l, ".otc-shm")
}

fn image_rule_exec(t: &[char], l: &[char]) -> (r: bool)
    ensures
        r == image_rule(t@, l@),
{
    eq_str(t, "image") || ends_with_str(l, ".jpg") || ends_with_str(l, ".jpeg") || ends_with_str(
        l,
        ".png",
    ) || ends_with_str(l, ".gif") || ends_with_str(l, ".ico")
}

fn ntfs_rule_exec(t: &[char], l: &[char]) -> (r: bool)
    ensures
        r == ntfs_rule(t@, l@),
{
    eq_str(t, "ntfs_metadata") || contains_str(l, "/$boot") || contains_str(l, "\\$boot")
        || contains_str(l, "/$logfile") || contains_str(l, "\\$logfile") || contains_str(
        l,
        "/$secure",
    ) || contains_str(l, "\\$secure")
}

/// The store rules; `Ok(kind)` for a fixed kind, `Err(true)` when the declared
/// type is kept, `Err(false)` when none applies.
fn store_kind_exec(t: &[char], l: &[char]) -> (r: Result<&'static str, bool>)
    ensures
        match r {
            Ok(k) => store_kind(t@, l@) == Some(k@),
            Err(keep) => if keep {
                store_kind(t@, l@) == Some(t@)
            } else {
                store_kind(t@, l@) is None
            },
        },
{
    if hive_rule_exec(t, l) {
        Ok("registry_hive")
    } else if hive_log_rule_exec(t, l) {
        Ok("registry_log")
    } else if srum_rule_exec(t, l) {
        Ok("srum")
    } else if web_cache_rule_exec(t, l) {
        Ok("web_cache")
    } else if eq_str(t, "thumbcache") || contains_str(l, "thumbcache") {
        Ok("thumbcache")
    } else if eq_str(t, "ese") || ends_with_str(l, ".edb") || ends_with_str(l, ".jrs")
        || ends_with_str(l, ".chk") {
        Ok("ese")
    } else if eq_str(t, "etl") || ends_with_str(l, ".etl") {
        Ok("etl")
    } else if sqlite_rule_exec(t, l) {
        if contains_str(l, "firefox") || contains_str(l, "places.sqlite") || contains_str(
            l,
            "cookies.sqlite",
        ) {
            Ok("browser")
        } else {
            Ok("sqlite")
        }
    } else if image_rule_exec(t, l) {
        Ok("image")
    } else if eq_str(t, "font") || ends_with_str(l, ".woff") {
        Ok("font")
    } else if ends_with_str(l, ".htm") || ends_with_str(l, ".html") {
        Ok("html")
    } else if ends_with_str(l, ".js") || ends_with_str(l, ".map") {
        Ok("script")
    } else if ends_with_str(l, ".css") {
        Ok("stylesheet")
    } else if ends_with_str(l, ".ini") || ends_with_str(l, ".cfg") || ends_with_str(
        l,
        ".config",
    ) {
        Ok("config")
    } else if ntfs_rule_exec(t, l) {
        Err(true)
    } else {
        Err(false)
    }
}

fn defender_rule_exec(t: &[char], l: &[char], s: &[char], sn: &[char]) -> (r: bool)
    requires
        sn@ == normalized(s@),
    ensures
        r == defender_rule(t@, l@, s@),
{
    eq_str(t, "defender") || eq_str(t, "defender_mplog") || eq_str(t, "defender_operational")
        || contains_str(l, "mplog") || contains_str(l, "mpwpptracing") || contains_str(
        l,
        "mpoperational",
    ) || contains_str(l, "windows defender") || contains_str(l, "defender") || contains_str(
        s,
        "microsoft-windows-windows defender",
    ) || contains_str(s, "windows defender antivirus") || contains_str(
        s,
        "microsoft defender antivirus",
    ) || contains_str(sn, "threatname") || contains_str(sn, "mpoperationalevents")
}

fn hayabusa_rule_exec(t: &[char], l: &[char], s: &[char], h: &[char]) -> (r: bool)
    ensures
        r == hayabusa_rule(t@, l@, s@, h@),
{
    eq_str(t, "hayabusa") || contains_str(l, "hayabusa") || contains_str(s, "\"ruletitle\"")
        || contains_str(s, "\"ruleauthor\"") || contains_str(s, "\"mitretactics\"") || (
    contains_str(h, "ruletitle") && contains_str(h, "level") && contains_str(h, "timestamp"))
        || (contains_str(h, "ruleauthor") && contains_str(h, "eventid") && contains_str(
        h,
        "timestamp",
    ))
}

fn prefetch_rule_exec(t: &[char], l: &[char], h: &[char]) -> (r: bool)
    ensures
        r == prefetch_rule(t@, l@, h@),
{
    eq_str(t, "prefetch") || ends_with_str(l, ".pf") || contains_str(l, "prefetch")
        || contains_str(l, "pecmd") || ((contains_str(h, "executable") || contains_str(
        h,
        "sourcefilename",
    )) && (contains_str(h, "runcount") || contains_str(h, "lastrun") || contains_str(
        h,
        "previousrun",
    )))
}

fn amcache_header_rule_exec(t: &[char], h: &[char]) -> (r: bool)
    ensures
        r == amcache_header_rule(t@, h@),
{
    eq_str(t, "amcache") || ((contains_str(h, "sha1") || contains_str(h, "sha256")) && (
    contains_str(h, "programname") || contains_str(h, "filepath") || contains_str(h, "fullpath")
        || contains_str(h, "path")))
}

fn usn_rule_exec(t: &[char], l: &[char], h: &[char]) -> (r: bool)
    ensures
        r == usn_rule(t@, l@, h@),
{
    eq_str(t, "usn") || eq_str(t, "usn_jrnl") || contains_str(l, "usnjrnl") || contains_str(
        l,
        "$j",
    ) || (contains_str(l, "usn") && ends_with_str(l, ".csv")) || (contains_str(h, "usn")
        && contains_str(h, "reason") && (contains_str(h, "filename") || contains_str(
        h,
        "filereference",
    )))
}

fn browser_rule_exec(t: &[char], l: &[char], h: &[char]) -> (r: bool)
    ensures
        r == browser_rule(t@, l@, h@),
{
    eq_str(t, "browser") || contains_str(l, "browser") || contains_str(l, "places.sqlite") || (
    contains_str(l, "history") && ends_with_str(l, ".csv")) || (contains_str(h, "url") && (
    contains_str(h, "visit") || contains_str(h, "lastvisit") || contains_str(h, "title")))
}

fn mft_rule_exec(t: &[char], l: &[char], h: &[char]) -> (r: bool)
    ensures
        r == mft_rule(t@, l@, h@),
{
    eq_str(t, "mft") || ends_with_str(l, ".mft") || contains_str(l, "$mft") || contains_str(
        l,
        "mft",
    ) || (contains_str(h, "entrynumber") && contains_str(h, "sequence")) || (contains_str(
        h,
        "fullpath",
    ) && contains_str(h, "created0x10"))
}

fn evtx_rule_exec(t: &[char], l: &[char], text: &[char], h: &[char]) -> (r: bool)
    ensures
        r == evtx_rule(t@, l@, text@, h@),
{
    eq_str(t, "evtx") || ends_with_str(l, ".evtx") || contains_str(text, "<EventID")
        || contains_str(text, "<Event ") || contains_str(text, "<Event>") || contains_str(
        h,
        "eventid",
    ) || contains_str(h, "timecreated")
}

/// The content rules; `Err(())` when the declared type is kept.
fn content_kind_exec(t: &[char], l: &[char], s: &[char], sn: &[char], h: &[char], text: &[char]) -> (r: Result<&'static str, ()>)
    requires
        sn@ == normalized(s@),
    ensures
        match r {
            Ok(k) => content_kind(t@, l@, s@, h@, text@) == k@,
            Err(_) => content_kind(t@, l@, s@, h@, text@) == t@,
        },
{
    if defender_rule_exec(t, l, s, sn) {
        if contains_str(l, "mplog") || contains_str(l, "mpwpptracing") || contains_str(
            s,
            "mpcmdrun",
        ) || contains_str(s, "msmpeng") {
            Ok("defender_mplog")
        } else {
            Ok("defender_operational")
        }
    } else if hayabusa_rule_exec(t, l, s, h) {
        Ok("hayabusa")
    } else if prefetch_rule_exec(t, l, h) {
        Ok("prefetch")
    } else if amcache_header_rule_exec(t, h) {
        Ok("amcache")
    } else if usn_rule_exec(t, l, h) {
        Ok("usn_jrnl")
    } else if browser_rule_exec(t, l, h) {
        Ok("browser")
    } else if mft_rule_exec(t, l, h) {
        Ok("mft")
    } else if evtx_rule_exec(t, l, text, h) {
        Ok("evtx")
    } else if ends_with_str(l, ".jsonl") {
        Ok("jsonl")
    } else if ends_with_str(l, ".json") {
        Ok("json")
    } else if ends_with_str(l, ".csv") {
        Ok("csv")
    } else if ends_with_str(l, ".txt") || ends_with_str(l, ".log") || ends_with_str(l, ".fake") {
        Ok("text_log")
    } else if trim_chars(text).len() != 0 {
        Ok("generic_text")
    } else {
        Err(())
    }
}

fn sample_chars(text: &[char]) -> (r: Vec<char>)
    ensures
        r@ == sample_of(text@),
{
    let n = if text.len() <= 8192 {
        text.len()
    } else {
        8192
    };
    let head = slice_to_vec(text, 0, n);
    assert(text.len() <= 8192 ==> head@ =~= text@);
    lower_chars(head.as_slice())
}

fn header_chars(text: &[char]) -> (r: Vec<char>)
    ensures
        r@ == header_of(text@),
{
    let ls = lines_of(text);
    assert(vviews(ls@).subrange(0, ls@.len() as int) =~= vviews(ls@));
    let mut i: usize = 0;
    while i < ls.len()
        invariant
            i <= ls.len(),
            vviews(ls@) == lines(text@),
            first_nonblank(lines(text@)) == first_nonblank(
                vviews(ls@).subrange(i as int, ls@.len() as int),
            ),
        decreases ls.len() - i,
    {
        let ghost rest = vviews(ls@).subrange(i as int, ls@.len() as int);
        assert(rest[0] == ls@[i as int]@);
        assert(rest.drop_first() =~= vviews(ls@).subrange(i + 1, ls@.len() as int));
        let t = trim_chars(ls[i].as_slice());
        if t.len() != 0 {
            return normalize_chars(ls[i].as_slice());
        }
        i = i + 1;
    }
    assert(vviews(ls@).subrange(i as int, ls@.len() as int) =~= Seq::<Seq<char>>::empty());
    normalize_chars(&[])
}

/// The artifact kind the structured parser works with: the first rule that
/// applies, over the declared type, the lower-cased path, the first 8192
/// characters of the text and its first non-blank line.
pub fn detect_structured_artifact(input: &ParserInput, text: &str) -> (r: String)
    ensures
        r@ == structured_kind(input.artifact_type@, input.original_path@, text@),
{
    let t = chars_of(input.artifact_type.as_str());
    let l = lower_of(input.original_path.as_str());
    let tv = chars_of(text);
    let s = sample_chars(tv.as_slice());
    match early_kind_exec(t.as_slice(), l.as_slice(), s.as_slice()) {
        Some(k) => return string_of(k),
        None => {},
    }
    match store_kind_exec(t.as_slice(), l.as_slice()) {
        Ok(k) => return string_of(k),
        Err(keep) => {
            if keep {
                return input.artifact_type.clone();
            }
        },
    }
    let sn = normalize_chars(s.as_slice());
    let h = header_chars(tv.as_slice());
    match content_kind_exec(t.as_slice(), l.as_slice(), s.as_slice(), sn.as_slice(), h.as_slice(), tv.as_slice()) {
        Ok(k) => string_of(k),
        Err(_) => input.artifact_type.clone(),
    }
}

} // verus!
