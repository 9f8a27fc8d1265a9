//! Small classifiers: severities, workflow tables, Windows Search gather-log
//! records, browser profile settings, registry contexts and prefetch
//! references.
use vstd::prelude::*;
use crate::artifact::{file_name_chars, file_name_of};
use crate::decode::{clean, clean_chars, opt_view, split_once};
use crate::extract::{
    all_hex, all_hex_chars, domain_like, domain_like_chars, exec_name, exec_name_chars,
    hash_like, hash_like_chars, path_like, path_like_chars, path_text, path_text_chars,
    process_like, process_like_chars, suspicious_execution_text, suspicious_path_text,
    url_like, url_like_chars,
};
use crate::text::{
    fields, utf8_len, utf8_len_of,
    chars_of, contains, contains_str, ends_with, ends_with_str, eq_ignore_case, eq_str,
    first_some, is_ascii_alpha, lemma_first_some_ends, lemma_first_some_step, lower,
    lower_chars, lower_of, rfind_sep, rfind_sep_exec, slice_to_vec, starts_with, starts_with_str,
    string_from, string_of, trim, trim_chars, trim_set, trim_set_chars, upper, upper_chars,
    views, vviews, words, words_of, char_is_ascii_alpha,
};
use crate::textlog::{truncated, truncated_chars};

verus! {

// ---------------------------------------------------------------------------
// Severities
// ---------------------------------------------------------------------------
/// The severity of a Hayabusa level, by its prefix.
pub open spec fn hayabusa_severity(level: Seq<char>) -> Seq<char> {
    let l = lower(level);
    if starts_with(l, "crit"@) {
        "critical"@
    } else if starts_with(l, "high"@) {
        "high"@
    } else if starts_with(l, "med"@) || contains(l, "warn"@) {
        "medium"@
    } else if starts_with(l, "low"@) {
        "low"@
    } else {
        "info"@
    }
}

pub fn hayabusa_level_severity(level: &str) -> (r: &'static str)
    ensures
        r@ == hayabusa_severity(level@),
{
    let lv = lower_of(level);
    let l = lv.as_slice();
    if starts_with_str(l, "crit") {
        "critical"
    } else if starts_with_str(l, "high") {
        "high"
    } else if starts_with_str(l, "med") || contains_str(l, "warn") {
        "medium"
    } else if starts_with_str(l, "low") {
        "low"
    } else {
        "info"
    }
}


pub open spec fn metadata_medium_type(l: Seq<char>) -> bool {
    ||| l == "prefetch"@
    ||| l == "lnk"@
    ||| l == "jump_list"@
    ||| l == "defender"@
    ||| l == "scheduled_task"@
    ||| l == "srum"@
    ||| l == "web_cache"@
    ||| l == "webcache"@
}

pub(crate) fn metadata_medium_type_exec(l: &[char]) -> (r: bool)
    ensures
        r == metadata_medium_type(l@),
{
    eq_str(l, "prefetch")
        || eq_str(l, "lnk")
        || eq_str(l, "jump_list")
        || eq_str(l, "defender")
        || eq_str(l, "scheduled_task")
        || eq_str(l, "srum")
        || eq_str(l, "web_cache")
        || eq_str(l, "webcache")
}

/// The severity of a metadata event: medium for EVTX and MFT actions and for
/// execution and activity artifacts.
pub open spec fn metadata_severity_of(t: Seq<char>, action: Seq<char>) -> Seq<char> {
    if contains(action, "evtx"@) || contains(action, "mft"@) {
        "medium"@
    } else if metadata_medium_type(t) {
        "medium"@
    } else {
        "info"@
    }
}

pub fn metadata_severity(artifact_type: &str, action: &str) -> (r: &'static str)
    ensures
        r@ == metadata_severity_of(artifact_type@, action@),
{
    let av = chars_of(action);
    let tv = chars_of(artifact_type);
    if contains_str(av.as_slice(), "evtx") || contains_str(av.as_slice(), "mft") {
        "medium"
    } else if metadata_medium_type_exec(tv.as_slice()) {
        "medium"
    } else {
        "info"
    }
}


pub open spec fn task_high_words(l: Seq<char>) -> bool {
    ||| contains(l, "powershell"@)
    ||| contains(l, "pwsh"@)
    ||| contains(l, "cmd.exe"@)
    ||| contains(l, "wscript"@)
    ||| contains(l, "cscript"@)
    ||| contains(l, "mshta"@)
    ||| contains(l, "rundll32"@)
    ||| contains(l, "regsvr32"@)
    ||| contains(l, "bitsadmin"@)
    ||| contains(l, "certutil"@)
    ||| contains(l, "-enc"@)
    ||| contains(l, "-encodedcommand"@)
    ||| contains(l, "downloadstring"@)
    ||| contains(l, "http://"@)
    ||| contains(l, "https://"@)
    ||| contains(l, "\\temp\\"@)
    ||| contains(l, "\\appdata\\"@)
    ||| contains(l, "\\programdata\\"@)
    ||| contains(l, "\\public\\"@)
}

pub(crate) fn task_high_words_exec(l: &[char]) -> (r: bool)
    ensures
        r == task_high_words(l@),
{
    contains_str(l, "powershell")
        || contains_str(l, "pwsh")
        || contains_str(l, "cmd.exe")
        || contains_str(l, "wscript")
        || contains_str(l, "cscript")
        || contains_str(l, "mshta")
        || contains_str(l, "rundll32")
        || contains_str(l, "regsvr32")
        || contains_str(l, "bitsadmin")
        || contains_str(l, "certutil")
        || contains_str(l, "-enc")
        || contains_str(l, "-encodedcommand")
        || contains_str(l, "downloadstring")
        || contains_str(l, "http://")
        || contains_str(l, "https://")
        || contains_str(l, "\\temp\\")
        || contains_str(l, "\\appdata\\")
        || contains_str(l, "\\programdata\\")
        || contains_str(l, "\\public\\")
}

/// The severity of a scheduled task's command: none is informational, script
/// hosts, downloads and user-writable paths high, anything else medium.
pub open spec fn task_severity(cmd: Seq<char>) -> Seq<char> {
    let l = lower(cmd);
    if l.len() == 0 {
        "info"@
    } else if task_high_words(l) {
        "high"@
    } else {
        "medium"@
    }
}

pub fn scheduled_task_severity(command_line: &str) -> (r: &'static str)
    ensures
        r@ == task_severity(command_line@),
{
    let lv = lower_of(command_line);
    if lv.len() == 0 {
        "info"
    } else if task_high_words_exec(lv.as_slice()) {
        "high"
    } else {
        "medium"
    }
}

// ---------------------------------------------------------------------------
// Sidecar workflows
// ---------------------------------------------------------------------------
pub open spec fn static_strs(v: Seq<&'static str>) -> Seq<Seq<char>> {
    v.map_values(|s: &'static str| s@)
}

/// The tools that a sidecar workflow can use for an artifact.
pub open spec fn sidecar_tools(s: Seq<char>, lower_path: Seq<char>, ext: Option<Seq<char>>) -> Seq<
    Seq<char>,
> {
    if s == "chromium_dpapi_credential_recovery"@ {
        seq![
            "sqlite3"@,
            "pypykatz dpapi"@,
            "dpapick-rs"@,
            "browser local state key extractor"@,
        ]
    } else if s == "keepass_recovery_workflow"@ {
        seq!["keepassxc-cli"@, "keepass2john"@, "john"@]
    } else if s == "dpapi_masterkey_recovery"@ {
        seq!["pypykatz dpapi"@, "dpapick-rs"@]
    } else if s == "credential_recovery_workflow"@ {
        if ends_with(lower_path, ".kdbx"@) {
            seq!["keepassxc-cli"@, "keepass2john"@]
        } else {
            seq!["pypykatz dpapi"@, "dpapick-rs"@, "sqlite3"@]
        }
    } else if s == "tika_oletools_document_recovery"@ {
        match ext {
            Some(e) => if e == "pdf"@ {
                seq!["pdftotext"@, "exiftool"@, "apache-tika"@]
            } else if e == "doc"@ || e == "docx"@ || e == "xls"@ || e == "xlsx"@ || e == "ppt"@
                || e == "pptx"@ || e == "rtf"@ {
                seq!["apache-tika"@, "oletools"@, "exiftool"@]
            } else {
                seq!["apache-tika"@, "exiftool"@]
            },
            None => seq!["apache-tika"@, "exiftool"@],
        }
    } else if s == "zeek_tshark_pcap_analysis"@ {
        seq!["tshark"@, "zeek"@]
    } else if s == "archive_listing_and_carving"@ {
        seq!["7z"@, "unrar"@, "bsdtar"@]
    } else if s == "sqlite_queue_parser"@ {
        seq!["sqlite3"@]
    } else {
        Seq::empty()
    }
}

pub open spec fn str_view(o: Option<&str>) -> Option<Seq<char>> {
    match o {
        Some(s) => Some(s@),
        None => None,
    }
}

fn strs1(a: &'static str) -> (r: Vec<&'static str>)
    ensures
        static_strs(r@) == seq![a@],
{
    let mut v: Vec<&'static str> = Vec::new();
    v.push(a);
    assert(static_strs(v@) =~= seq![a@]);
    v
}

fn strs2(a: &'static str, b: &'static str) -> (r: Vec<&'static str>)
    ensures
        static_strs(r@) == seq![a@, b@],
{
    let mut v: Vec<&'static str> = Vec::new();
    v.push(a);
    v.push(b);
    assert(static_strs(v@) =~= seq![a@, b@]);
    v
}

fn strs3(a: &'static str, b: &'static str, c: &'static str) -> (r: Vec<&'static str>)
    ensures
        static_strs(r@) == seq![a@, b@, c@],
{
    let mut v: Vec<&'static str> = Vec::new();
    v.push(a);
    v.push(b);
    v.push(c);
    assert(static_strs(v@) =~= seq![a@, b@, c@]);
    v
}

fn strs4(a: &'static str, b: &'static str, c: &'static str, d: &'static str) -> (r: Vec<
    &'static str,
>)
    ensures
        static_strs(r@) == seq![a@, b@, c@, d@],
{
    let mut v: Vec<&'static str> = Vec::new();
    v.push(a);
    v.push(b);
    v.push(c);
    v.push(d);
    assert(static_strs(v@) =~= seq![a@, b@, c@, d@]);
    v
}

fn strs5(a: &'static str, b: &'static str, c: &'static str, d: &'static str, e: &'static str) -> (r: Vec<
    &'static str,
>)
    ensures
        static_strs(r@) == seq![a@, b@, c@, d@, e@],
{
    let mut v: Vec<&'static str> = Vec::new();
    v.push(a);
    v.push(b);
    v.push(c);
    v.push(d);
    v.push(e);
    assert(static_strs(v@) =~= seq![a@, b@, c@, d@, e@]);
    v
}

pub fn sidecar_tool_candidates(sidecar: &str, lower_path: &str, extension: Option<&str>) -> (r: Vec<
    &'static str,
>)
    ensures
        static_strs(r@) == sidecar_tools(sidecar@, lower_path@, str_view(extension)),
{
    let sv = chars_of(sidecar);
    let s = sv.as_slice();
    if eq_str(s, "chromium_dpapi_credential_recovery") {
        strs4("sqlite3", "pypykatz dpapi", "dpapick-rs", "browser local state key extractor")
    } else if eq_str(s, "keepass_recovery_workflow") {
        strs3("keepassxc-cli", "keepass2john", "john")
    } else if eq_str(s, "dpapi_masterkey_recovery") {
        strs2("pypykatz dpapi", "dpapick-rs")
    } else if eq_str(s, "credential_recovery_workflow") {
        let lp = chars_of(lower_path);
        if ends_with_str(lp.as_slice(), ".kdbx") {
            strs2("keepassxc-cli", "keepass2john")
        } else {
            strs3("pypykatz dpapi", "dpapick-rs", "sqlite3")
        }
    } else if eq_str(s, "tika_oletools_document_recovery") {
        match extension {
            Some(e) => {
                let ev = chars_of(e);
                let e = ev.as_slice();
                if eq_str(e, "pdf") {
                    strs3("pdftotext", "exiftool", "apache-tika")
                } else if eq_str(e, "doc") || eq_str(e, "docx") || eq_str(e, "xls") || eq_str(
                    e,
                    "xlsx",
                ) || eq_str(e, "ppt") || eq_str(e, "pptx") || eq_str(e, "rtf") {
                    strs3("apache-tika", "oletools", "exiftool")
                } else {
                    strs2("apache-tika", "exiftool")
                }
            },
            None => strs2("apache-tika", "exiftool"),
        }
    } else if eq_str(s, "zeek_tshark_pcap_analysis") {
        strs2("tshark", "zeek")
    } else if eq_str(s, "archive_listing_and_carving") {
        strs3("7z", "unrar", "bsdtar")
    } else if eq_str(s, "sqlite_queue_parser") {
        strs1("sqlite3")
    } else {
        let v: Vec<&'static str> = Vec::new();
        assert(static_strs(v@) =~= Seq::<Seq<char>>::empty());
        v
    }
}

/// The steps of a sidecar workflow.
pub open spec fn sidecar_steps(s: Seq<char>) -> Seq<Seq<char>> {
    if s == "chromium_dpapi_credential_recovery"@ {
        seq![
            "collect Login Data and Local State/Protect masterkeys"@,
            "extract encrypted login blobs without modifying source evidence"@,
            "decrypt only in a derived workspace when keys are available"@,
            "import recovered URL/user/password metadata as derived evidence"@,
        ]
    } else if s == "keepass_recovery_workflow"@ {
        seq![
            "inventory KDBX metadata and candidate key files"@,
            "run password/keyfile validation only against copied evidence"@,
            "import opened entry metadata or hash-cracking requirement as derived evidence"@,
        ]
    } else if s == "dpapi_masterkey_recovery"@ {
        seq![
            "inventory masterkey/SID/protect folder relationship"@,
            "link browser and credential blobs to matching masterkeys"@,
            "import decryptability status and recovered secret metadata"@,
        ]
    } else if s == "tika_oletools_document_recovery"@ {
        seq![
            "extract text and embedded metadata with Tika or format-specific tools"@,
            "scan extracted text for credentials, PII, URLs, and internal project names"@,
            "import extracted text summary and hashes as derived evidence"@,
        ]
    } else if s == "zeek_tshark_pcap_analysis"@ {
        seq![
            "extract conversations, DNS, HTTP, TLS, FTP, and transferred files"@,
            "hash carved payloads and link them to timeline events"@,
            "import Zeek logs or tshark JSON as derived network events"@,
        ]
    } else if s == "archive_listing_and_carving"@ {
        seq![
            "list archive entries without executing content"@,
            "identify exploit-prone paths and staged payloads"@,
            "hash extracted copies in a derived workspace"@,
        ]
    } else if s == "sqlite_queue_parser"@ {
        seq![
            "open copied SQLite queue database read-only"@,
            "extract queued transfer host/user/local/remote paths"@,
            "import transfer rows as derived FileZilla events"@,
        ]
    } else {
        Seq::empty()
    }
}

pub fn sidecar_workflow_steps(sidecar: &str) -> (r: Vec<&'static str>)
    ensures
        static_strs(r@) == sidecar_steps(sidecar@),
{
    let sv = chars_of(sidecar);
    let s = sv.as_slice();
    if eq_str(s, "chromium_dpapi_credential_recovery") {
        strs4(
            "collect Login Data and Local State/Protect masterkeys",
            "extract encrypted login blobs without modifying source evidence",
            "decrypt only in a derived workspace when keys are available",
            "import recovered URL/user/password metadata as derived evidence",
        )
    } else if eq_str(s, "keepass_recovery_workflow") {
        strs3(
            "inventory KDBX metadata and candidate key files",
            "run password/keyfile validation only against copied evidence",
            "import opened entry metadata or hash-cracking requirement as derived evidence",
        )
    } else if eq_str(s, "dpapi_masterkey_recovery") {
        strs3(
            "inventory masterkey/SID/protect folder relationship",
            "link browser and credential blobs to matching masterkeys",
            "import decryptability status and recovered secret metadata",
        )
    } else if eq_str(s, "tika_oletools_document_recovery") {
        strs3(
            "extract text and embedded metadata with Tika or format-specific tools",
            "scan extracted text for credentials, PII, URLs, and internal project names",
            "import extracted text summary and hashes as derived evidence",
        )
    } else if eq_str(s, "zeek_tshark_pcap_analysis") {
        strs3(
            "extract conversations, DNS, HTTP, TLS, FTP, and transferred files",
            "hash carved payloads and link them to timeline events",
            "import Zeek logs or tshark JSON as derived network events",
        )
    } else if eq_str(s, "archive_listing_and_carving") {
        strs3(
            "list archive entries without executing content",
            "identify exploit-prone paths and staged payloads",
            "hash extracted copies in a derived workspace",
        )
    } else if eq_str(s, "sqlite_queue_parser") {
        strs3(
            "open copied SQLite queue database read-only",
            "extract queued transfer host/user/local/remote paths",
            "import transfer rows as derived FileZilla events",
        )
    } else {
        let v: Vec<&'static str> = Vec::new();
        assert(static_strs(v@) =~= Seq::<Seq<char>>::empty());
        v
    }
}

/// The files a sidecar workflow produces.
pub open spec fn sidecar_outputs(s: Seq<char>) -> Seq<Seq<char>> {
    if s == "chromium_dpapi_credential_recovery"@ {
        seq!["derived_credentials.jsonl"@, "browser_login_recovery_report.json"@]
    } else if s == "keepass_recovery_workflow"@ {
        seq!["keepass_inventory.json"@, "keepass_recovery_status.json"@]
    } else if s == "dpapi_masterkey_recovery"@ {
        seq!["dpapi_masterkey_inventory.json"@]
    } else if s == "tika_oletools_document_recovery"@ {
        seq!["document_text.txt"@, "document_metadata.json"@, "document_iocs.jsonl"@]
    } else if s == "zeek_tshark_pcap_analysis"@ {
        seq!["conn.log"@, "dns.log"@, "http.log"@, "files.log"@, "tshark.json"@]
    } else if s == "archive_listing_and_carving"@ {
        seq!["archive_listing.json"@, "carved_file_hashes.jsonl"@]
    } else if s == "sqlite_queue_parser"@ {
        seq!["filezilla_queue_transfers.jsonl"@]
    } else {
        Seq::empty()
    }
}

pub fn sidecar_expected_outputs(sidecar: &str) -> (r: Vec<&'static str>)
    ensures
        static_strs(r@) == sidecar_outputs(sidecar@),
{
    let sv = chars_of(sidecar);
    let s = sv.as_slice();
    if eq_str(s, "chromium_dpapi_credential_recovery") {
        strs2("derived_credentials.jsonl", "browser_login_recovery_report.json")
    } else if eq_str(s, "keepass_recovery_workflow") {
        strs2("keepass_inventory.json", "keepass_recovery_status.json")
    } else if eq_str(s, "dpapi_masterkey_recovery") {
        strs1("dpapi_masterkey_inventory.json")
    } else if eq_str(s, "tika_oletools_document_recovery") {
        strs3("document_text.txt", "document_metadata.json", "document_iocs.jsonl")
    } else if eq_str(s, "zeek_tshark_pcap_analysis") {
        strs5("conn.log", "dns.log", "http.log", "files.log", "tshark.json")
    } else if eq_str(s, "archive_listing_and_carving") {
        strs2("archive_listing.json", "carved_file_hashes.jsonl")
    } else if eq_str(s, "sqlite_queue_parser") {
        strs1("filezilla_queue_transfers.jsonl")
    } else {
        let v: Vec<&'static str> = Vec::new();
        assert(static_strs(v@) =~= Seq::<Seq<char>>::empty());
        v
    }
}

// ---------------------------------------------------------------------------
// Windows Search gather logs
// ---------------------------------------------------------------------------
/// A URI that a Windows Search record names: `file:`, `mapi:`, `http://` or
/// `https://`.
pub open spec fn search_uri(v: Seq<char>) -> bool {
    let l = lower(v);
    starts_with(l, "file:"@) || starts_with(l, "mapi:"@) || starts_with(l, "http://"@)
        || starts_with(l, "https://"@)
}

fn search_uri_chars(v: &[char]) -> (r: bool)
    ensures
        r == search_uri(v@),
{
    let lv = lower_chars(v);
    let l = lv.as_slice();
    starts_with_str(l, "file:") || starts_with_str(l, "mapi:") || starts_with_str(l, "http://")
        || starts_with_str(l, "https://")
}

pub fn windows_search_uri_like(value: &str) -> (r: bool)
    ensures
        r == search_uri(value@),
{
    let v = chars_of(value);
    search_uri_chars(v.as_slice())
}

pub open spec fn uri_of_field(f: Seq<char>) -> Option<Seq<char>> {
    let v = trim(trim_set(f, seq!['"']));
    if search_uri(v) {
        Some(v)
    } else {
        None
    }
}

pub open spec fn uri_of_field_fn() -> spec_fn(Seq<char>) -> Option<Seq<char>> {
    |f: Seq<char>| uri_of_field(f)
}

pub open spec fn uri_of_word(w: Seq<char>) -> Option<Seq<char>> {
    let v = trim_set(w, seq!['"']);
    if search_uri(v) {
        Some(v)
    } else {
        None
    }
}

pub open spec fn uri_of_word_fn() -> spec_fn(Seq<char>) -> Option<Seq<char>> {
    |w: Seq<char>| uri_of_word(w)
}

/// The URI of a gather-log record: the first field that is one, else the
/// first word of the line.
pub open spec fn search_uri_candidate(fields: Seq<Seq<char>>, line: Seq<char>) -> Option<Seq<char>> {
    match first_some(fields, uri_of_field_fn()) {
        Some(u) => Some(u),
        None => first_some(words(line), uri_of_word_fn()),
    }
}

fn first_uri_field(fields: &[&str]) -> (r: Option<Vec<char>>)
    ensures
        match r {
            Some(u) => first_some(views(fields@), uri_of_field_fn()) == Some(u@),
            None => first_some(views(fields@), uri_of_field_fn()) is None,
        },
{
    let ghost fs = views(fields@);
    let dq = ['"'];
    assert(dq@ =~= seq!['"']);
    proof {
        lemma_first_some_ends(fs, uri_of_field_fn());
    }
    let mut i: usize = 0;
    while i < fields.len()
        invariant
            i <= fields.len(),
            fs == views(fields@),
            dq@ == seq!['"'],
            first_some(fs, uri_of_field_fn()) == first_some(
                fs.subrange(i as int, fs.len() as int),
                uri_of_field_fn(),
            ),
        decreases fields.len() - i,
    {
        proof {
            lemma_first_some_step(fs, uri_of_field_fn(), i as int);
        }
        let fv = chars_of(fields[i]);
        let a = trim_set_chars(fv.as_slice(), &dq);
        let v = trim_chars(a.as_slice());
        if search_uri_chars(v.as_slice()) {
            return Some(v);
        }
        i = i + 1;
    }
    proof {
        lemma_first_some_ends(fs, uri_of_field_fn());
    }
    None
}

fn first_uri_word(line: &[char]) -> (r: Option<Vec<char>>)
    ensures
        match r {
            Some(u) => first_some(words(line@), uri_of_word_fn()) == Some(u@),
            None => first_some(words(line@), uri_of_word_fn()) is None,
        },
{
    let parts = words_of(line);
    let ghost ps = vviews(parts@);
    let dq = ['"'];
    assert(dq@ =~= seq!['"']);
    proof {
        lemma_first_some_ends(ps, uri_of_word_fn());
    }
    let mut i: usize = 0;
    while i < parts.len()
        invariant
            i <= parts.len(),
            ps == vviews(parts@),
            ps == words(line@),
            dq@ == seq!['"'],
            first_some(ps, uri_of_word_fn()) == first_some(
                ps.subrange(i as int, ps.len() as int),
                uri_of_word_fn(),
            ),
        decreases parts.len() - i,
    {
        proof {
            lemma_first_some_step(ps, uri_of_word_fn(), i as int);
        }
        assert(ps[i as int] == parts@[i as int]@);
        let v = trim_set_chars(parts[i].as_slice(), &dq);
        if search_uri_chars(v.as_slice()) {
            return Some(v);
        }
        i = i + 1;
    }
    proof {
        lemma_first_some_ends(ps, uri_of_word_fn());
    }
    None
}

pub fn windows_search_uri_candidate(fields: &[&str], line: &str) -> (r: Option<String>)
    ensures
        opt_view(r) == search_uri_candidate(views(fields@), line@),
{
    match first_uri_field(fields) {
        Some(u) => Some(string_from(u.as_slice())),
        None => {
            let lv = chars_of(line);
            match first_uri_word(lv.as_slice()) {
                Some(u) => Some(string_from(u.as_slice())),
                None => None,
            }
        },
    }
}

/// `s` without every leading copy of `p`.
pub open spec fn strip_all_prefix(s: Seq<char>, p: Seq<char>) -> Seq<char>
    decreases s.len(),
{
    if p.len() > 0 && starts_with(s, p) {
        strip_all_prefix(s.subrange(p.len() as int, s.len() as int), p)
    } else {
        s
    }
}

/// `s` with every `/` turned into `\`.
pub open spec fn backslashed(s: Seq<char>) -> Seq<char> {
    s.map_values(|c: char| if c == '/' { '\\' } else { c })
}

/// The path of a `file:` URI, with `\\` separators.
pub open spec fn search_file_path(uri: Seq<char>) -> Option<Seq<char>> {
    if !starts_with(lower(uri), "file:"@) {
        None
    } else {
        let v = strip_all_prefix(
            strip_all_prefix(
                strip_all_prefix(trim(uri.subrange("file:"@.len() as int, uri.len() as int)), "///"@),
                "//?/"@,
            ),
            "//"@,
        );
        if v.len() == 0 {
            None
        } else {
            Some(backslashed(v))
        }
    }
}

fn strip_all_prefix_exec(s: &[char], p: &str) -> (r: Vec<char>)
    ensures
        r@ == strip_all_prefix(s@, p@),
{
    let pv = chars_of(p);
    let mut i: usize = 0;
    assert(s@.subrange(0, s@.len() as int) =~= s@);
    if pv.len() == 0 {
        return slice_to_vec(s, 0, s.len());
    }
    let mut rest = slice_to_vec(s, 0, s.len());
    while crate::text::starts_with_chars(rest.as_slice(), pv.as_slice())
        invariant
            pv@ == p@,
            pv@.len() > 0,
            strip_all_prefix(s@, p@) == strip_all_prefix(rest@, p@),
        decreases rest@.len(),
    {
        rest = slice_to_vec(rest.as_slice(), pv.len(), rest.len());
    }
    rest
}

pub fn windows_search_file_path_from_uri(uri: &str) -> (r: Option<String>)
    ensures
        opt_view(r) == search_file_path(uri@),
{
    let u = chars_of(uri);
    let lu = lower_chars(u.as_slice());
    if !starts_with_str(lu.as_slice(), "file:") {
        return None;
    }
    let scheme = chars_of("file:");
    assert(lower(u@).len() == u@.len());
    let rest = slice_to_vec(u.as_slice(), scheme.len(), u.len());
    let t = trim_chars(rest.as_slice());
    let a = strip_all_prefix_exec(t.as_slice(), "///");
    let b = strip_all_prefix_exec(a.as_slice(), "//?/");
    let c = strip_all_prefix_exec(b.as_slice(), "//");
    if c.len() == 0 {
        return None;
    }
    let mut out: Vec<char> = Vec::new();
    let mut i: usize = 0;
    while i < c.len()
        invariant
            i <= c.len(),
            out@ == backslashed(c@.subrange(0, i as int)),
        decreases c.len() - i,
    {
        let ch = if c[i] == '/' {
            '\\'
        } else {
            c[i]
        };
        out.push(ch);
        assert(backslashed(c@.subrange(0, i + 1)) =~= backslashed(c@.subrange(0, i as int)).push(
            ch,
        ));
        i = i + 1;
    }
    assert(c@.subrange(0, c@.len() as int) =~= c@);
    Some(string_from(out.as_slice()))
}

/// An `http` or `https` URI, as it is.
pub open spec fn search_url(uri: Seq<char>) -> Option<Seq<char>> {
    let l = lower(uri);
    if starts_with(l, "http://"@) || starts_with(l, "https://"@) {
        Some(uri)
    } else {
        None
    }
}

pub fn windows_search_url_from_uri(uri: &str) -> (r: Option<String>)
    ensures
        opt_view(r) == search_url(uri@),
{
    let lv = lower_of(uri);
    if starts_with_str(lv.as_slice(), "http://") || starts_with_str(lv.as_slice(), "https://") {
        Some(string_of(uri))
    } else {
        None
    }
}

/// A status code field: 4 to 16 hexadecimal digits, one of them a letter.
pub open spec fn status_field(f: Seq<char>) -> bool {
    let v = trim(f);
    4 <= v.len() <= 16 && all_hex(v) && exists|k: int| 0 <= k < v.len() && is_ascii_alpha(#[trigger] v[k])
}

/// The last field that is a status code, as it is.
pub open spec fn last_status_field(fs: Seq<Seq<char>>, j: int) -> Option<Seq<char>>
    decreases j,
{
    if j <= 0 || j > fs.len() {
        None
    } else if status_field(fs[j - 1]) {
        Some(fs[j - 1])
    } else {
        last_status_field(fs, j - 1)
    }
}

fn status_field_exec(f: &[char]) -> (r: bool)
    ensures
        r == status_field(f@),
{
    let v = trim_chars(f);
    if v.len() < 4 || v.len() > 16 || !all_hex_chars(v.as_slice()) {
        return false;
    }
    let mut i: usize = 0;
    while i < v.len()
        invariant
            i <= v.len(),
            forall|k: int| 0 <= k < i ==> !is_ascii_alpha(#[trigger] v@[k]),
            v@ == trim(f@),
            4 <= v@.len() <= 16,
            all_hex(v@),
        decreases v.len() - i,
    {
        if char_is_ascii_alpha(v[i]) {
            return true;
        }
        i = i + 1;
    }
    false
}

pub fn windows_search_status_hint(fields: &[&str]) -> (r: Option<String>)
    ensures
        opt_view(r) == last_status_field(views(fields@), fields@.len() as int),
{
    let ghost fs = views(fields@);
    let mut j: usize = fields.len();
    while j > 0
        invariant
            j <= fields.len(),
            fs == views(fields@),
            last_status_field(fs, fields@.len() as int) == last_status_field(fs, j as int),
        decreases j,
    {
        let fv = chars_of(fields[j - 1]);
        if status_field_exec(fv.as_slice()) {
            return Some(string_of(fields[j - 1]));
        }
        j = j - 1;
    }
    None
}


pub open spec fn search_line_words(l: Seq<char>) -> bool {
    ||| contains(l, "file:"@)
    ||| contains(l, "mapi:"@)
    ||| contains(l, "systemindex"@)
    ||| contains(l, "gather"@)
    ||| contains(l, "crawl"@)
    ||| contains(l, "indexed"@)
    ||| contains(l, "access denied"@)
    ||| contains(l, "error"@)
    ||| contains(l, "failed"@)
}

pub(crate) fn search_line_words_exec(l: &[char]) -> (r: bool)
    ensures
        r == search_line_words(l@),
{
    contains_str(l, "file:")
        || contains_str(l, "mapi:")
        || contains_str(l, "systemindex")
        || contains_str(l, "gather")
        || contains_str(l, "crawl")
        || contains_str(l, "indexed")
        || contains_str(l, "access denied")
        || contains_str(l, "error")
        || contains_str(l, "failed")
}

/// A gather-log line worth an event.
pub open spec fn search_line_interesting(l: Seq<char>, has_status: bool) -> bool {
    has_status || search_line_words(l)
}

pub fn windows_search_line_interesting(lower_line: &str, status_hint: Option<&str>) -> (r: bool)
    ensures
        r == search_line_interesting(lower_line@, status_hint is Some),
{
    let l = chars_of(lower_line);
    status_hint.is_some() || search_line_words_exec(l.as_slice())
}


pub open spec fn search_script_ext(l: Seq<char>) -> bool {
    ||| contains(l, ".ps1"@)
    ||| contains(l, ".vbs"@)
    ||| contains(l, ".js"@)
    ||| contains(l, ".bat"@)
    ||| contains(l, ".cmd"@)
    ||| contains(l, ".dll"@)
    ||| contains(l, ".scr"@)
}

pub(crate) fn search_script_ext_exec(l: &[char]) -> (r: bool)
    ensures
        r == search_script_ext(l@),
{
    contains_str(l, ".ps1")
        || contains_str(l, ".vbs")
        || contains_str(l, ".js")
        || contains_str(l, ".bat")
        || contains_str(l, ".cmd")
        || contains_str(l, ".dll")
        || contains_str(l, ".scr")
}

pub open spec fn search_document_ext(l: Seq<char>) -> bool {
    ||| contains(l, ".doc"@)
    ||| contains(l, ".docx"@)
    ||| contains(l, ".xls"@)
    ||| contains(l, ".xlsx"@)
    ||| contains(l, ".ppt"@)
    ||| contains(l, ".pptx"@)
    ||| contains(l, ".pdf"@)
    ||| contains(l, ".zip"@)
    ||| contains(l, ".rar"@)
    ||| contains(l, ".7z"@)
}

pub(crate) fn search_document_ext_exec(l: &[char]) -> (r: bool)
    ensures
        r == search_document_ext(l@),
{
    contains_str(l, ".doc")
        || contains_str(l, ".docx")
        || contains_str(l, ".xls")
        || contains_str(l, ".xlsx")
        || contains_str(l, ".ppt")
        || contains_str(l, ".pptx")
        || contains_str(l, ".pdf")
        || contains_str(l, ".zip")
        || contains_str(l, ".rar")
        || contains_str(l, ".7z")
}

/// The action of a gather-log record.
pub open spec fn search_action(l: Seq<char>, path: Option<Seq<char>>, has_url: bool) -> Seq<char> {
    if contains(l, "error"@) || contains(l, "failed"@) || contains(l, "access denied"@) {
        "windows_search_crawl_warning"@
    } else {
        match path {
            Some(p) => {
                let lp = lower(p);
                if exec_name(p) || search_script_ext(lp) {
                    "windows_search_indexed_executable"@
                } else if search_document_ext(lp) {
                    "windows_search_indexed_document"@
                } else {
                    "windows_search_indexed_path"@
                }
            },
            None => if has_url {
                "windows_search_indexed_url"@
            } else {
                "windows_search_gather_record"@
            },
        }
    }
}

pub fn windows_search_action(lower_line: &str, file_path: Option<&str>, url: Option<&str>) -> (r: &'static str)
    ensures
        r@ == search_action(lower_line@, str_view(file_path), url is Some),
{
    let lv = chars_of(lower_line);
    let l = lv.as_slice();
    if contains_str(l, "error") || contains_str(l, "failed") || contains_str(l, "access denied") {
        return "windows_search_crawl_warning";
    }
    match file_path {
        Some(p) => {
            let pv = chars_of(p);
            let lp = lower_chars(pv.as_slice());
            if exec_name_chars(pv.as_slice()) || search_script_ext_exec(lp.as_slice()) {
                "windows_search_indexed_executable"
            } else if search_document_ext_exec(lp.as_slice()) {
                "windows_search_indexed_document"
            } else {
                "windows_search_indexed_path"
            }
        },
        None => if url.is_some() {
            "windows_search_indexed_url"
        } else {
            "windows_search_gather_record"
        },
    }
}


pub open spec fn search_alert_words(l: Seq<char>) -> bool {
    ||| contains(l, "access denied"@)
    ||| contains(l, "error"@)
    ||| contains(l, "failed"@)
    ||| contains(l, "mimikatz"@)
    ||| contains(l, "lsass"@)
    ||| contains(l, "credential"@)
}

pub(crate) fn search_alert_words_exec(l: &[char]) -> (r: bool)
    ensures
        r == search_alert_words(l@),
{
    contains_str(l, "access denied")
        || contains_str(l, "error")
        || contains_str(l, "failed")
        || contains_str(l, "mimikatz")
        || contains_str(l, "lsass")
        || contains_str(l, "credential")
}

pub open spec fn search_risky_path(l: Seq<char>) -> bool {
    ||| contains(l, "\\downloads\\"@)
    ||| contains(l, "\\appdata\\"@)
    ||| contains(l, "\\temp\\"@)
    ||| contains(l, "\\startup\\"@)
    ||| contains(l, ".ps1"@)
    ||| contains(l, ".vbs"@)
    ||| contains(l, ".js"@)
    ||| contains(l, ".bat"@)
    ||| contains(l, ".cmd"@)
    ||| contains(l, ".scr"@)
}

pub(crate) fn search_risky_path_exec(l: &[char]) -> (r: bool)
    ensures
        r == search_risky_path(l@),
{
    contains_str(l, "\\downloads\\")
        || contains_str(l, "\\appdata\\")
        || contains_str(l, "\\temp\\")
        || contains_str(l, "\\startup\\")
        || contains_str(l, ".ps1")
        || contains_str(l, ".vbs")
        || contains_str(l, ".js")
        || contains_str(l, ".bat")
        || contains_str(l, ".cmd")
        || contains_str(l, ".scr")
}

/// The severity of a gather-log record.
pub open spec fn search_severity(l: Seq<char>, path: Option<Seq<char>>, has_url: bool) -> Seq<char> {
    if search_alert_words(l) {
        "medium"@
    } else if (match path {
        Some(p) => suspicious_path_text(p) || search_risky_path(lower(p)),
        None => false,
    }) {
        "medium"@
    } else if has_url {
        "low"@
    } else {
        "info"@
    }
}

pub fn windows_search_severity(lower_line: &str, file_path: Option<&str>, url: Option<&str>) -> (r: &'static str)
    ensures
        r@ == search_severity(lower_line@, str_view(file_path), url is Some),
{
    let lv = chars_of(lower_line);
    if search_alert_words_exec(lv.as_slice()) {
        return "medium";
    }
    match file_path {
        Some(p) => {
            let pv = chars_of(p);
            let lp = lower_chars(pv.as_slice());
            if crate::extract::suspicious_path(p) || search_risky_path_exec(lp.as_slice()) {
                return "medium";
            }
        },
        None => {},
    }
    if url.is_some() {
        "low"
    } else {
        "info"
    }
}


// ---------------------------------------------------------------------------
// Browser profiles
// ---------------------------------------------------------------------------

pub open spec fn profile_json_tail(l: Seq<char>) -> bool {
    ||| ends_with(l, "/preferences"@)
    ||| ends_with(l, "\\preferences"@)
    ||| ends_with(l, "/secure preferences"@)
    ||| ends_with(l, "\\secure preferences"@)
    ||| ends_with(l, "/local state"@)
    ||| ends_with(l, "\\local state"@)
    ||| ends_with(l, "/bookmarks"@)
    ||| ends_with(l, "\\bookmarks"@)
    ||| ends_with(l, "/downloadmetadata"@)
    ||| ends_with(l, "\\downloadmetadata"@)
}

pub(crate) fn profile_json_tail_exec(l: &[char]) -> (r: bool)
    ensures
        r == profile_json_tail(l@),
{
    ends_with_str(l, "/preferences")
        || ends_with_str(l, "\\preferences")
        || ends_with_str(l, "/secure preferences")
        || ends_with_str(l, "\\secure preferences")
        || ends_with_str(l, "/local state")
        || ends_with_str(l, "\\local state")
        || ends_with_str(l, "/bookmarks")
        || ends_with_str(l, "\\bookmarks")
        || ends_with_str(l, "/downloadmetadata")
        || ends_with_str(l, "\\downloadmetadata")
}

/// A browser profile file read as JSON: `Preferences`, `Secure Preferences`,
/// `Local State`, `Bookmarks` or `DownloadMetadata`.
pub open spec fn profile_json_path(p: Seq<char>) -> bool {
    profile_json_tail(lower(p))
}

pub fn browser_profile_json_path(original_path: &str) -> (r: bool)
    ensures
        r == profile_json_path(original_path@),
{
    let l = lower_of(original_path);
    profile_json_tail_exec(l.as_slice())
}


pub open spec fn flag_key_words(l: Seq<char>) -> bool {
    ||| contains(l, "safebrowsing"@)
    ||| contains(l, "safe_browsing"@)
    ||| contains(l, "proxy"@)
    ||| contains(l, "dns"@)
    ||| contains(l, "sync"@)
    ||| contains(l, "password"@)
    ||| contains(l, "credential"@)
    ||| contains(l, "extension"@)
    ||| contains(l, "cookie"@)
}

pub(crate) fn flag_key_words_exec(l: &[char]) -> (r: bool)
    ensures
        r == flag_key_words(l@),
{
    contains_str(l, "safebrowsing")
        || contains_str(l, "safe_browsing")
        || contains_str(l, "proxy")
        || contains_str(l, "dns")
        || contains_str(l, "sync")
        || contains_str(l, "password")
        || contains_str(l, "credential")
        || contains_str(l, "extension")
        || contains_str(l, "cookie")
}

pub open spec fn signal_key_words(l: Seq<char>) -> bool {
    ||| contains(l, "url"@)
    ||| contains(l, "homepage"@)
    ||| contains(l, "startup"@)
    ||| contains(l, "download"@)
    ||| contains(l, "default_directory"@)
    ||| contains(l, "defaultdirectory"@)
    ||| contains(l, "extension"@)
    ||| contains(l, "installed"@)
    ||| contains(l, "path"@)
    ||| contains(l, "account"@)
    ||| contains(l, "signin"@)
    ||| contains(l, "sync"@)
    ||| contains(l, "safebrowsing"@)
    ||| contains(l, "safe_browsing"@)
    ||| contains(l, "dns"@)
    ||| contains(l, "proxy"@)
    ||| contains(l, "search"@)
    ||| contains(l, "session"@)
    ||| contains(l, "tab"@)
    ||| contains(l, "cookie"@)
    ||| contains(l, "password"@)
    ||| contains(l, "credential"@)
}

pub(crate) fn signal_key_words_exec(l: &[char]) -> (r: bool)
    ensures
        r == signal_key_words(l@),
{
    contains_str(l, "url")
        || contains_str(l, "homepage")
        || contains_str(l, "startup")
        || contains_str(l, "download")
        || contains_str(l, "default_directory")
        || contains_str(l, "defaultdirectory")
        || contains_str(l, "extension")
        || contains_str(l, "installed")
        || contains_str(l, "path")
        || contains_str(l, "account")
        || contains_str(l, "signin")
        || contains_str(l, "sync")
        || contains_str(l, "safebrowsing")
        || contains_str(l, "safe_browsing")
        || contains_str(l, "dns")
        || contains_str(l, "proxy")
        || contains_str(l, "search")
        || contains_str(l, "session")
        || contains_str(l, "tab")
        || contains_str(l, "cookie")
        || contains_str(l, "password")
        || contains_str(l, "credential")
}

pub open spec fn signal_value_words(l: Seq<char>) -> bool {
    ||| contains(l, "powershell"@)
    ||| contains(l, "cmd.exe"@)
    ||| contains(l, "rundll32"@)
    ||| contains(l, "regsvr32"@)
    ||| contains(l, "mshta"@)
    ||| contains(l, "download"@)
    ||| contains(l, "cookie"@)
    ||| contains(l, "chrome-extension://"@)
    ||| contains(l, "edge-extension://"@)
}

pub(crate) fn signal_value_words_exec(l: &[char]) -> (r: bool)
    ensures
        r == signal_value_words(l@),
{
    contains_str(l, "powershell")
        || contains_str(l, "cmd.exe")
        || contains_str(l, "rundll32")
        || contains_str(l, "regsvr32")
        || contains_str(l, "mshta")
        || contains_str(l, "download")
        || contains_str(l, "cookie")
        || contains_str(l, "chrome-extension://")
        || contains_str(l, "edge-extension://")
}

/// A setting of a browser profile worth an event: a value of 2 to 1500 bytes
/// that is not empty-like, not a bare flag unless its key is security-relevant,
/// and that holds an indicator or has a telling key or value.
pub open spec fn browser_signal(key: Seq<char>, v: Seq<char>) -> bool {
    let t = trim(v);
    let kl = lower(key);
    let l = lower(t);
    if utf8_len(t) < 2 || utf8_len(t) > 1500 {
        false
    } else if l == "null"@ || l == "none"@ || l == "{}"@ || l == "[]"@ {
        false
    } else if (l == "true"@ || l == "false"@ || l == "0"@ || l == "1"@) && !flag_key_words(kl) {
        false
    } else {
        ||| url_like(t) is Some
        ||| domain_like(t) is Some
        ||| path_like(t) is Some
        ||| process_like(t) is Some
        ||| hash_like(t) is Some
        ||| signal_key_words(kl)
        ||| signal_value_words(l)
    }
}

pub fn browser_json_signal_interesting(key_path: &str, value: &str) -> (r: bool)
    ensures
        r == browser_signal(key_path@, value@),
{
    let v = chars_of(value);
    let tv = trim_chars(v.as_slice());
    let t = tv.as_slice();
    let n = utf8_len_of(t);
    if n < 2 || n > 1500 {
        return false;
    }
    let kl = lower_of(key_path);
    let lv = lower_chars(t);
    let l = lv.as_slice();
    if eq_str(l, "null") || eq_str(l, "none") || eq_str(l, "{}") || eq_str(l, "[]") {
        return false;
    }
    if (eq_str(l, "true") || eq_str(l, "false") || eq_str(l, "0") || eq_str(l, "1"))
        && !flag_key_words_exec(kl.as_slice()) {
        return false;
    }
    url_like_chars(t).is_some() || domain_like_chars(t).is_some() || path_like_chars(t).is_some()
        || process_like_chars(t).is_some() || hash_like_chars(t).is_some() || signal_key_words_exec(
        kl.as_slice(),
    ) || signal_value_words_exec(l)
}

/// The action of a browser profile setting.
pub open spec fn browser_action(key: Seq<char>, v: Seq<char>, has_url: bool) -> Seq<char> {
    let kl = lower(key);
    let l = lower(v);
    if contains(kl, "extension"@) || contains(kl, "extensions"@) {
        "browser_extension_observed"@
    } else if contains(kl, "download"@) || contains(kl, "default_directory"@) {
        "browser_download_setting_observed"@
    } else if contains(kl, "session"@) || contains(kl, "tab"@) {
        "browser_session_signal"@
    } else if contains(kl, "password"@) || contains(kl, "credential"@) || contains(kl, "login"@) {
        "browser_credential_config_observed"@
    } else if contains(kl, "cookie"@) {
        "browser_cookie_config_observed"@
    } else if (contains(kl, "safebrowsing"@) || contains(kl, "safe_browsing"@)) && (contains(
        l,
        "false"@,
    ) || contains(l, "disabled"@) || contains(l, "0"@)) {
        "browser_security_setting_weak"@
    } else if has_url {
        "browser_url_observed"@
    } else {
        "browser_setting_observed"@
    }
}

pub fn browser_json_signal_action(key_path: &str, value: &str, url: Option<&str>) -> (r: String)
    ensures
        r@ == browser_action(key_path@, value@, url is Some),
{
    let kv = lower_of(key_path);
    let k = kv.as_slice();
    let lv = lower_of(value);
    let l = lv.as_slice();
    let a = if contains_str(k, "extension") || contains_str(k, "extensions") {
        "browser_extension_observed"
    } else if contains_str(k, "download") || contains_str(k, "default_directory") {
        "browser_download_setting_observed"
    } else if contains_str(k, "session") || contains_str(k, "tab") {
        "browser_session_signal"
    } else if contains_str(k, "password") || contains_str(k, "credential") || contains_str(
        k,
        "login",
    ) {
        "browser_credential_config_observed"
    } else if contains_str(k, "cookie") {
        "browser_cookie_config_observed"
    } else if (contains_str(k, "safebrowsing") || contains_str(k, "safe_browsing")) && (
    contains_str(l, "false") || contains_str(l, "disabled") || contains_str(l, "0")) {
        "browser_security_setting_weak"
    } else if url.is_some() {
        "browser_url_observed"
    } else {
        "browser_setting_observed"
    };
    string_of(a)
}


pub open spec fn execution_tool_words(l: Seq<char>) -> bool {
    ||| contains(l, "powershell"@)
    ||| contains(l, "cmd.exe"@)
    ||| contains(l, "rundll32"@)
    ||| contains(l, "regsvr32"@)
    ||| contains(l, "mshta"@)
    ||| contains(l, "mimikatz"@)
    ||| contains(l, "lsass"@)
}

pub(crate) fn execution_tool_words_exec(l: &[char]) -> (r: bool)
    ensures
        r == execution_tool_words(l@),
{
    contains_str(l, "powershell")
        || contains_str(l, "cmd.exe")
        || contains_str(l, "rundll32")
        || contains_str(l, "regsvr32")
        || contains_str(l, "mshta")
        || contains_str(l, "mimikatz")
        || contains_str(l, "lsass")
}

/// The severity of a browser profile signal.
pub open spec fn browser_severity(l: Seq<char>, action: Seq<char>) -> Seq<char> {
    if execution_tool_words(l) || action == "browser_security_setting_weak"@ {
        "high"@
    } else if action == "browser_extension_observed"@ || action
        == "browser_download_setting_observed"@ || action == "browser_credential_config_observed"@ {
        "medium"@
    } else {
        "info"@
    }
}

pub fn browser_json_signal_severity(lower: &str, action: &str) -> (r: &'static str)
    ensures
        r@ == browser_severity(lower@, action@),
{
    let l = chars_of(lower);
    let av = chars_of(action);
    let a = av.as_slice();
    if execution_tool_words_exec(l.as_slice()) || eq_str(a, "browser_security_setting_weak") {
        "high"
    } else if eq_str(a, "browser_extension_observed") || eq_str(
        a,
        "browser_download_setting_observed",
    ) || eq_str(a, "browser_credential_config_observed") {
        "medium"
    } else {
        "info"
    }
}

// ---------------------------------------------------------------------------
// Text documents and binary logs
// ---------------------------------------------------------------------------

pub open spec fn document_words(l: Seq<char>) -> bool {
    ||| contains(l, "download"@)
    ||| contains(l, "upload"@)
    ||| contains(l, "visited"@)
    ||| contains(l, "cookie"@)
    ||| contains(l, "cache"@)
    ||| contains(l, "history"@)
    ||| contains(l, "sync"@)
    ||| contains(l, "onedrive"@)
    ||| contains(l, "sharepoint"@)
    ||| contains(l, "file:"@)
    ||| contains(l, "mapi:"@)
    ||| contains(l, "systemindex"@)
    ||| contains(l, "gather"@)
    ||| contains(l, "crawl"@)
    ||| contains(l, "indexed"@)
    ||| contains(l, "powershell"@)
    ||| contains(l, "cmd.exe"@)
    ||| contains(l, "rundll32"@)
    ||| contains(l, "regsvr32"@)
    ||| contains(l, "mshta"@)
    ||| contains(l, "mimikatz"@)
    ||| contains(l, "lsass"@)
    ||| contains(l, "error"@)
    ||| contains(l, "fail"@)
    ||| contains(l, "warning"@)
}

pub(crate) fn document_words_exec(l: &[char]) -> (r: bool)
    ensures
        r == document_words(l@),
{
    contains_str(l, "download")
        || contains_str(l, "upload")
        || contains_str(l, "visited")
        || contains_str(l, "cookie")
        || contains_str(l, "cache")
        || contains_str(l, "history")
        || contains_str(l, "sync")
        || contains_str(l, "onedrive")
        || contains_str(l, "sharepoint")
        || contains_str(l, "file:")
        || contains_str(l, "mapi:")
        || contains_str(l, "systemindex")
        || contains_str(l, "gather")
        || contains_str(l, "crawl")
        || contains_str(l, "indexed")
        || contains_str(l, "powershell")
        || contains_str(l, "cmd.exe")
        || contains_str(l, "rundll32")
        || contains_str(l, "regsvr32")
        || contains_str(l, "mshta")
        || contains_str(l, "mimikatz")
        || contains_str(l, "lsass")
        || contains_str(l, "error")
        || contains_str(l, "fail")
        || contains_str(l, "warning")
}

/// A line of a text document worth an event: it holds an indicator or a
/// telling word.
pub open spec fn document_line_interesting(line: Seq<char>) -> bool {
    ||| url_like(line) is Some
    ||| domain_like(line) is Some
    ||| path_like(line) is Some
    ||| hash_like(line) is Some
    ||| process_like(line) is Some
    ||| document_words(lower(line))
}

pub(crate) fn document_line_interesting_chars(v: &[char]) -> (r: bool)
    ensures
        r == document_line_interesting(v@),
{
    let l = lower_chars(v);
    url_like_chars(v).is_some() || domain_like_chars(v).is_some() || path_like_chars(v).is_some()
        || hash_like_chars(v).is_some() || process_like_chars(v).is_some() || document_words_exec(
        l.as_slice(),
    )
}

pub fn text_document_line_interesting(line: &str) -> (r: bool)
    ensures
        r == document_line_interesting(line@),
{
    let v = chars_of(line);
    document_line_interesting_chars(v.as_slice())
}


pub open spec fn defender_words(l: Seq<char>) -> bool {
    ||| contains(l, "defender"@)
    ||| contains(l, "mpcmdrun"@)
    ||| contains(l, "msmpeng"@)
    ||| contains(l, "windefend"@)
    ||| contains(l, "signature"@)
    ||| contains(l, "threat"@)
    ||| contains(l, "scan"@)
    ||| contains(l, "quarantine"@)
    ||| contains(l, "remediation"@)
    ||| contains(l, "tamper"@)
    ||| contains(l, "malware"@)
    ||| contains(l, "trojan"@)
    ||| contains(l, "engine"@)
    ||| contains(l, "platform"@)
    ||| contains(l, "security intelligence"@)
    ||| contains(l, "real-time"@)
}

pub(crate) fn defender_words_exec(l: &[char]) -> (r: bool)
    ensures
        r == defender_words(l@),
{
    contains_str(l, "defender")
        || contains_str(l, "mpcmdrun")
        || contains_str(l, "msmpeng")
        || contains_str(l, "windefend")
        || contains_str(l, "signature")
        || contains_str(l, "threat")
        || contains_str(l, "scan")
        || contains_str(l, "quarantine")
        || contains_str(l, "remediation")
        || contains_str(l, "tamper")
        || contains_str(l, "malware")
        || contains_str(l, "trojan")
        || contains_str(l, "engine")
        || contains_str(l, "platform")
        || contains_str(l, "security intelligence")
        || contains_str(l, "real-time")
}

/// A string from a binary log worth an event: a telling document line, or for
/// Defender logs a Defender word.
pub open spec fn binary_log_interesting(v: Seq<char>, t: Seq<char>) -> bool {
    document_line_interesting(v) || (t == "defender"@ && defender_words(lower(v)))
}

pub fn binary_log_string_interesting(value: &str, artifact_type: &str) -> (r: bool)
    ensures
        r == binary_log_interesting(value@, artifact_type@),
{
    let v = chars_of(value);
    if document_line_interesting_chars(v.as_slice()) {
        return true;
    }
    let tv = chars_of(artifact_type);
    if eq_str(tv.as_slice(), "defender") {
        let l = lower_chars(v.as_slice());
        return defender_words_exec(l.as_slice());
    }
    false
}

// ---------------------------------------------------------------------------
// Registry contexts
// ---------------------------------------------------------------------------

pub open spec fn amcache_file_words(l: Seq<char>) -> bool {
    ||| contains(l, ".exe"@)
    ||| contains(l, ".dll"@)
    ||| contains(l, ".sys"@)
    ||| contains(l, "sha1"@)
    ||| contains(l, "sha256"@)
}

pub(crate) fn amcache_file_words_exec(l: &[char]) -> (r: bool)
    ensures
        r == amcache_file_words(l@),
{
    contains_str(l, ".exe")
        || contains_str(l, ".dll")
        || contains_str(l, ".sys")
        || contains_str(l, "sha1")
        || contains_str(l, "sha256")
}

pub open spec fn run_key_words(l: Seq<char>) -> bool {
    ||| contains(l, "currentversion\\run"@)
    ||| contains(l, "currentversion\\\\run"@)
    ||| contains(l, "\\runonce"@)
}

pub(crate) fn run_key_words_exec(l: &[char]) -> (r: bool)
    ensures
        r == run_key_words(l@),
{
    contains_str(l, "currentversion\\run")
        || contains_str(l, "currentversion\\\\run")
        || contains_str(l, "\\runonce")
}

pub open spec fn service_image_words(l: Seq<char>) -> bool {
    ||| contains(l, "imagepath"@)
    ||| contains(l, ".exe"@)
    ||| contains(l, ".dll"@)
}

pub(crate) fn service_image_words_exec(l: &[char]) -> (r: bool)
    ensures
        r == service_image_words(l@),
{
    contains_str(l, "imagepath")
        || contains_str(l, ".exe")
        || contains_str(l, ".dll")
}

pub open spec fn winlogon_words(l: Seq<char>) -> bool {
    ||| contains(l, "shell"@)
    ||| contains(l, "userinit"@)
    ||| contains(l, ".exe"@)
}

pub(crate) fn winlogon_words_exec(l: &[char]) -> (r: bool)
    ensures
        r == winlogon_words(l@),
{
    contains_str(l, "shell")
        || contains_str(l, "userinit")
        || contains_str(l, ".exe")
}

pub open spec fn shimcache_words(l: Seq<char>) -> bool {
    ||| contains(l, "shimcache"@)
    ||| contains(l, "appcompatcache"@)
}

pub(crate) fn shimcache_words_exec(l: &[char]) -> (r: bool)
    ensures
        r == shimcache_words(l@),
{
    contains_str(l, "shimcache")
        || contains_str(l, "appcompatcache")
}

pub open spec fn binary_ext_words(l: Seq<char>) -> bool {
    ||| contains(l, ".exe"@)
    ||| contains(l, ".dll"@)
}

pub(crate) fn binary_ext_words_exec(l: &[char]) -> (r: bool)
    ensures
        r == binary_ext_words(l@),
{
    contains_str(l, ".exe")
        || contains_str(l, ".dll")
}

pub open spec fn recent_doc_ext_words(l: Seq<char>) -> bool {
    ||| contains(l, ".doc"@)
    ||| contains(l, ".docx"@)
    ||| contains(l, ".xls"@)
    ||| contains(l, ".xlsx"@)
    ||| contains(l, ".ppt"@)
    ||| contains(l, ".pptx"@)
    ||| contains(l, ".pdf"@)
    ||| contains(l, ".txt"@)
    ||| contains(l, ".rtf"@)
    ||| contains(l, ".csv"@)
    ||| contains(l, ".zip"@)
    ||| contains(l, ".lnk"@)
}

pub(crate) fn recent_doc_ext_words_exec(l: &[char]) -> (r: bool)
    ensures
        r == recent_doc_ext_words(l@),
{
    contains_str(l, ".doc")
        || contains_str(l, ".docx")
        || contains_str(l, ".xls")
        || contains_str(l, ".xlsx")
        || contains_str(l, ".ppt")
        || contains_str(l, ".pptx")
        || contains_str(l, ".pdf")
        || contains_str(l, ".txt")
        || contains_str(l, ".rtf")
        || contains_str(l, ".csv")
        || contains_str(l, ".zip")
        || contains_str(l, ".lnk")
}

pub open spec fn shellbag_words(l: Seq<char>) -> bool {
    ||| contains(l, "shellbags"@)
    ||| contains(l, "bagmru"@)
    ||| contains(l, "bags\\"@)
    ||| contains(l, "bags\\\\"@)
}

pub(crate) fn shellbag_words_exec(l: &[char]) -> (r: bool)
    ensures
        r == shellbag_words(l@),
{
    contains_str(l, "shellbags")
        || contains_str(l, "bagmru")
        || contains_str(l, "bags\\")
        || contains_str(l, "bags\\\\")
}

pub open spec fn shellbag_place_words(l: Seq<char>) -> bool {
    ||| contains(l, "c:\\"@)
    ||| contains(l, "d:\\"@)
    ||| contains(l, "\\users\\"@)
    ||| contains(l, "\\desktop"@)
    ||| contains(l, "\\downloads"@)
}

pub(crate) fn shellbag_place_words_exec(l: &[char]) -> (r: bool)
    ensures
        r == shellbag_place_words(l@),
{
    contains_str(l, "c:\\")
        || contains_str(l, "d:\\")
        || contains_str(l, "\\users\\")
        || contains_str(l, "\\desktop")
        || contains_str(l, "\\downloads")
}

pub open spec fn shellbag_folder_words(l: Seq<char>) -> bool {
    ||| contains(l, "::{20d04fe0"@)
    ||| contains(l, "shell folder"@)
    ||| contains(l, "knownfolder"@)
}

pub(crate) fn shellbag_folder_words_exec(l: &[char]) -> (r: bool)
    ensures
        r == shellbag_folder_words(l@),
{
    contains_str(l, "::{20d04fe0")
        || contains_str(l, "shell folder")
        || contains_str(l, "knownfolder")
}

pub open spec fn user_activity_words(l: Seq<char>) -> bool {
    ||| contains(l, "typedurls"@)
    ||| contains(l, "typedpaths"@)
    ||| contains(l, "recentdocs"@)
    ||| contains(l, "mru"@)
}

pub(crate) fn user_activity_words_exec(l: &[char]) -> (r: bool)
    ensures
        r == user_activity_words(l@),
{
    contains_str(l, "typedurls")
        || contains_str(l, "typedpaths")
        || contains_str(l, "recentdocs")
        || contains_str(l, "mru")
}

pub open spec fn registry_suspicious_words(l: Seq<char>) -> bool {
    ||| contains(l, "powershell"@)
    ||| contains(l, "cmd.exe"@)
    ||| contains(l, "rundll32"@)
    ||| contains(l, "regsvr32"@)
    ||| contains(l, "mshta"@)
    ||| contains(l, "wscript"@)
    ||| contains(l, "cscript"@)
    ||| contains(l, "schtasks"@)
    ||| contains(l, "\\temp\\"@)
    ||| contains(l, "\\appdata\\"@)
    ||| contains(l, "\\programdata\\"@)
}

pub(crate) fn registry_suspicious_words_exec(l: &[char]) -> (r: bool)
    ensures
        r == registry_suspicious_words(l@),
{
    contains_str(l, "powershell")
        || contains_str(l, "cmd.exe")
        || contains_str(l, "rundll32")
        || contains_str(l, "regsvr32")
        || contains_str(l, "mshta")
        || contains_str(l, "wscript")
        || contains_str(l, "cscript")
        || contains_str(l, "schtasks")
        || contains_str(l, "\\temp\\")
        || contains_str(l, "\\appdata\\")
        || contains_str(l, "\\programdata\\")
}

pub open spec fn class_if(b: bool, a: Seq<char>, s: Seq<char>) -> Seq<(Seq<char>, Seq<char>)> {
    if b {
        seq![(a, s)]
    } else {
        Seq::empty()
    }
}

/// The registry signals (action, severity) that a lower-cased context of
/// strings from a hive of type `t` shows, in a fixed order; a suspicious value
/// only when nothing else applies.
pub open spec fn registry_classes(h: Seq<char>, t: Seq<char>) -> Seq<(Seq<char>, Seq<char>)> {
    let found = class_if(
        (t == "amcache"@ || contains(h, "amcache"@) || contains(h, "\\programs\\"@))
            && amcache_file_words(h),
        "amcache_program_seen"@,
        "info"@,
    ) + class_if(run_key_words(h), "registry_run_key_persistence"@, "high"@) + class_if(
        contains(h, "\\services\\"@) && service_image_words(h),
        "registry_service_image"@,
        "high"@,
    ) + class_if(
        contains(h, "winlogon"@) && winlogon_words(h),
        "registry_winlogon_config"@,
        "high"@,
    ) + class_if(
        contains(h, "wdigest"@) || contains(h, "uselogoncredential"@),
        "registry_wdigest_config"@,
        "critical"@,
    ) + class_if(
        contains(h, "userassist"@) && (contains(h, ".exe"@) || contains(h, ".lnk"@)),
        "registry_userassist_execution"@,
        "medium"@,
    ) + class_if(
        shimcache_words(h) && binary_ext_words(h),
        "registry_shimcache_execution"@,
        "medium"@,
    ) + class_if(
        contains(h, "recentdocs"@) && recent_doc_ext_words(h),
        "registry_recentdocs_document"@,
        "info"@,
    ) + class_if(
        shellbag_words(h) && (shellbag_place_words(h) || shellbag_folder_words(h)),
        "registry_shellbag_folder"@,
        "info"@,
    ) + class_if(user_activity_words(h), "registry_user_activity"@, "info"@);
    if found.len() == 0 && registry_suspicious_words(h) {
        seq![("registry_suspicious_value"@, "high"@)]
    } else {
        found
    }
}

pub open spec fn pair_views(v: Seq<(&'static str, &'static str)>) -> Seq<(Seq<char>, Seq<char>)> {
    v.map_values(|p: (&'static str, &'static str)| (p.0@, p.1@))
}

fn push_class(out: &mut Vec<(&'static str, &'static str)>, b: bool, a: &'static str, s: &'static str)
    ensures
        pair_views(final(out)@) == pair_views(old(out)@) + class_if(b, a@, s@),
{
    let ghost prev = pair_views(out@);
    if b {
        out.push((a, s));
        assert(pair_views(out@) =~= prev + seq![(a@, s@)]);
    } else {
        assert(prev + class_if(b, a@, s@) =~= prev);
    }
}

pub fn classify_registry_context(hay: &str, artifact_type: &str) -> (r: Vec<(&'static str, &'static str)>)
    ensures
        pair_views(r@) == registry_classes(hay@, artifact_type@),
{
    let hv = chars_of(hay);
    let h = hv.as_slice();
    let tv = chars_of(artifact_type);
    let mut out: Vec<(&'static str, &'static str)> = Vec::new();
    assert(pair_views(out@) =~= Seq::<(Seq<char>, Seq<char>)>::empty());
    push_class(
        &mut out,
        (eq_str(tv.as_slice(), "amcache") || contains_str(h, "amcache") || contains_str(
            h,
            "\\programs\\",
        )) && amcache_file_words_exec(h),
        "amcache_program_seen",
        "info",
    );
    push_class(&mut out, run_key_words_exec(h), "registry_run_key_persistence", "high");
    push_class(
        &mut out,
        contains_str(h, "\\services\\") && service_image_words_exec(h),
        "registry_service_image",
        "high",
    );
    push_class(
        &mut out,
        contains_str(h, "winlogon") && winlogon_words_exec(h),
        "registry_winlogon_config",
        "high",
    );
    push_class(
        &mut out,
        contains_str(h, "wdigest") || contains_str(h, "uselogoncredential"),
        "registry_wdigest_config",
        "critical",
    );
    push_class(
        &mut out,
        contains_str(h, "userassist") && (contains_str(h, ".exe") || contains_str(h, ".lnk")),
        "registry_userassist_execution",
        "medium",
    );
    push_class(
        &mut out,
        shimcache_words_exec(h) && binary_ext_words_exec(h),
        "registry_shimcache_execution",
        "medium",
    );
    push_class(
        &mut out,
        contains_str(h, "recentdocs") && recent_doc_ext_words_exec(h),
        "registry_recentdocs_document",
        "info",
    );
    push_class(
        &mut out,
        shellbag_words_exec(h) && (shellbag_place_words_exec(h) || shellbag_folder_words_exec(h)),
        "registry_shellbag_folder",
        "info",
    );
    push_class(&mut out, user_activity_words_exec(h), "registry_user_activity", "info");
    if out.len() == 0 && registry_suspicious_words_exec(h) {
        let mut single: Vec<(&'static str, &'static str)> = Vec::new();
        single.push(("registry_suspicious_value", "high"));
        assert(pair_views(single@) =~= seq![("registry_suspicious_value"@, "high"@)]);
        return single;
    }
    out
}

// ---------------------------------------------------------------------------
// Prefetch and shortcut names
// ---------------------------------------------------------------------------
/// The file name of a shortcut without its `.lnk` suffixes.
pub open spec fn lnk_target(v: Seq<char>) -> Option<Seq<char>> {
    match file_name_of(v) {
        Some(n) => Some(strip_all_suffix(n, ".lnk"@)),
        None => None,
    }
}

/// `s` without every trailing copy of a non-empty `p`.
pub open spec fn strip_all_suffix(s: Seq<char>, p: Seq<char>) -> Seq<char>
    decreases s.len(),
{
    if p.len() > 0 && ends_with(s, p) {
        strip_all_suffix(s.subrange(0, s.len() - p.len()), p)
    } else {
        s
    }
}

pub fn lnk_target_from_name(value: &str) -> (r: Option<String>)
    ensures
        opt_view(r) == lnk_target(value@),
{
    let v = chars_of(value);
    match file_name_chars(v.as_slice()) {
        Some(n) => {
            let sfx = chars_of(".lnk");
            proof {
                reveal_strlit(".lnk");
            }
            let mut cur = n;
            while crate::text::ends_with_chars(cur.as_slice(), sfx.as_slice())
                invariant
                    sfx@ == ".lnk"@,
                    sfx@.len() == 4,
                    strip_all_suffix(cur@, ".lnk"@) == strip_all_suffix(
                        match file_name_of(v@) {
                            Some(x) => x,
                            None => cur@,
                        },
                        ".lnk"@,
                    ),
                    file_name_of(v@) is Some,
                decreases cur@.len(),
            {
                cur = slice_to_vec(cur.as_slice(), 0, cur.len() - sfx.len());
            }
            Some(string_from(cur.as_slice()))
        },
        None => None,
    }
}

/// The stem of a prefetch file name, upper-cased, without `.PF`.
pub open spec fn prefetch_stem(name: Seq<char>) -> Seq<char> {
    let u = upper(name);
    if ends_with(u, ".PF"@) {
        u.subrange(0, u.len() - ".PF"@.len())
    } else {
        u
    }
}

/// The executable a prefetch file is named after, lower-cased.
pub open spec fn prefetch_executable(v: Seq<char>) -> Option<Seq<char>> {
    match file_name_of(v) {
        Some(n) => {
            let stem = prefetch_stem(n);
            let k = rfind_sep(stem, seq!['-'], stem.len() as int);
            let exe = if k >= 0 {
                stem.subrange(0, k)
            } else {
                stem
            };
            if ends_with(exe, ".EXE"@) {
                Some(lower(exe))
            } else {
                None
            }
        },
        None => None,
    }
}

fn prefetch_stem_chars(name: &[char]) -> (r: Vec<char>)
    ensures
        r@ == prefetch_stem(name@),
{
    let u = upper_chars(name);
    let pf = chars_of(".PF");
    if ends_with_str(u.as_slice(), ".PF") {
        slice_to_vec(u.as_slice(), 0, u.len() - pf.len())
    } else {
        assert(u@.subrange(0, u@.len() as int) =~= u@);
        slice_to_vec(u.as_slice(), 0, u.len())
    }
}

pub fn prefetch_executable_from_path(value: &str) -> (r: Option<String>)
    ensures
        opt_view(r) == prefetch_executable(value@),
{
    let v = chars_of(value);
    let n = match file_name_chars(v.as_slice()) {
        Some(n) => n,
        None => {
            return None;
        },
    };
    let stem = prefetch_stem_chars(n.as_slice());
    let dash = ['-'];
    assert(dash@ =~= seq!['-']);
    let exe = match rfind_sep_exec(stem.as_slice(), &dash, stem.len()) {
        Some(k) => slice_to_vec(stem.as_slice(), 0, k),
        None => {
            assert(stem@.subrange(0, stem@.len() as int) =~= stem@);
            slice_to_vec(stem.as_slice(), 0, stem.len())
        },
    };
    if ends_with_str(exe.as_slice(), ".EXE") {
        let l = lower_chars(exe.as_slice());
        Some(string_from(l.as_slice()))
    } else {
        None
    }
}

/// The hash part of a prefetch file name: 6 to 16 hexadecimal digits after
/// the last `-`, lower-cased.
pub open spec fn prefetch_hash(v: Seq<char>) -> Option<Seq<char>> {
    let name = match file_name_of(v) {
        Some(n) => n,
        None => v,
    };
    let stem = prefetch_stem(name);
    let k = rfind_sep(stem, seq!['-'], stem.len() as int);
    if k < 0 {
        None
    } else {
        let h = stem.subrange(k + 1, stem.len() as int);
        if 6 <= h.len() <= 16 && all_hex(h) {
            Some(lower(h))
        } else {
            None
        }
    }
}

pub fn prefetch_hash_from_filename(value: &str) -> (r: Option<String>)
    ensures
        opt_view(r) == prefetch_hash(value@),
{
    let v = chars_of(value);
    let name = match file_name_chars(v.as_slice()) {
        Some(n) => n,
        None => v,
    };
    let stem = prefetch_stem_chars(name.as_slice());
    let dash = ['-'];
    assert(dash@ =~= seq!['-']);
    match rfind_sep_exec(stem.as_slice(), &dash, stem.len()) {
        Some(k) => {
            let h = slice_to_vec(stem.as_slice(), k + 1, stem.len());
            if h.len() >= 6 && h.len() <= 16 && all_hex_chars(h.as_slice()) {
                let l = lower_chars(h.as_slice());
                Some(string_from(l.as_slice()))
            } else {
                None
            }
        },
        None => None,
    }
}

pub open spec fn any_suspicious_path(fs: Seq<Seq<char>>) -> bool {
    exists|k: int| 0 <= k < fs.len() && suspicious_path_text(#[trigger] fs[k])
}

/// Why a prefetch entry is suspicious, if it is: its program, or a file it
/// loaded from a user-writable path.
pub open spec fn prefetch_suspicion_of(process: Seq<char>, refs: Seq<Seq<char>>) -> Option<Seq<char>> {
    if suspicious_execution_text(lower(process)) {
        Some("lolbin_or_script_interpreter_execution"@)
    } else if any_suspicious_path(refs) {
        Some("referenced_file_in_user_writable_path"@)
    } else {
        None
    }
}

pub fn prefetch_suspicion(process_name: &str, referenced_files: &[String]) -> (r: Option<String>)
    ensures
        opt_view(r) == prefetch_suspicion_of(process_name@, crate::row::vec_strings(referenced_files@)),
{
    let lv = lower_of(process_name);
    let ls = string_from(lv.as_slice());
    if crate::extract::is_suspicious_execution_name(ls.as_str()) {
        assert(lower(lower(process_name@)) =~= lower(process_name@));
        return Some(string_of("lolbin_or_script_interpreter_execution"));
    }
    assert(lower(lower(process_name@)) =~= lower(process_name@));
    let ghost fs = crate::row::vec_strings(referenced_files@);
    let mut i: usize = 0;
    while i < referenced_files.len()
        invariant
            i <= referenced_files.len(),
            fs == crate::row::vec_strings(referenced_files@),
            !suspicious_execution_text(lower(process_name@)),
            forall|k: int| 0 <= k < i ==> !suspicious_path_text(#[trigger] fs[k]),
        decreases referenced_files.len() - i,
    {
        assert(fs[i as int] == referenced_files@[i as int]@);
        if crate::extract::suspicious_path(referenced_files[i].as_str()) {
            return Some(string_of("referenced_file_in_user_writable_path"));
        }
        i = i + 1;
    }
    None
}

/// The severity of a prefetch suspicion.
pub open spec fn prefetch_severity_of(s: Option<Seq<char>>) -> Seq<char> {
    match s {
        Some(x) => if x == "referenced_file_in_user_writable_path"@ || x
            == "lolbin_or_script_interpreter_execution"@ {
            "medium"@
        } else {
            "low"@
        },
        None => "info"@,
    }
}

pub fn prefetch_severity(suspicion: Option<&str>) -> (r: &'static str)
    ensures
        r@ == prefetch_severity_of(str_view(suspicion)),
{
    match suspicion {
        Some(s) => {
            let sv = chars_of(s);
            if eq_str(sv.as_slice(), "referenced_file_in_user_writable_path") || eq_str(
                sv.as_slice(),
                "lolbin_or_script_interpreter_execution",
            ) {
                "medium"
            } else {
                "low"
            }
        },
        None => "info",
    }
}


pub open spec fn script_tail(l: Seq<char>) -> bool {
    ||| ends_with(l, ".exe"@)
    ||| ends_with(l, ".ps1"@)
    ||| ends_with(l, ".bat"@)
    ||| ends_with(l, ".cmd"@)
    ||| ends_with(l, ".vbs"@)
    ||| ends_with(l, ".js"@)
    ||| ends_with(l, ".scr"@)
}

pub(crate) fn script_tail_exec(l: &[char]) -> (r: bool)
    ensures
        r == script_tail(l@),
{
    ends_with_str(l, ".exe")
        || ends_with_str(l, ".ps1")
        || ends_with_str(l, ".bat")
        || ends_with_str(l, ".cmd")
        || ends_with_str(l, ".vbs")
        || ends_with_str(l, ".js")
        || ends_with_str(l, ".scr")
}

/// How interesting a file loaded by a prefetched program is: 4 for a
/// user-writable path, 3 under a user profile, 2 for an executable or script,
/// 1 under Program Files, else 0.
pub open spec fn reference_priority(p: Seq<char>) -> int {
    let l = lower(p);
    if suspicious_path_text(p) {
        4
    } else if contains(l, "\\users\\"@) || contains(l, "/users/"@) {
        3
    } else if script_tail(l) {
        2
    } else if contains(l, "\\program files"@) || contains(l, "/program files"@) {
        1
    } else {
        0
    }
}

pub fn prefetch_reference_priority(file_path: &str) -> (r: u8)
    ensures
        r == reference_priority(file_path@),
{
    let lv = lower_of(file_path);
    let l = lv.as_slice();
    if crate::extract::suspicious_path(file_path) {
        4
    } else if contains_str(l, "\\users\\") || contains_str(l, "/users/") {
        3
    } else if script_tail_exec(l) {
        2
    } else if contains_str(l, "\\program files") || contains_str(l, "/program files") {
        1
    } else {
        0
    }
}

/// The action of a file loaded by a prefetched program.
pub open spec fn reference_action(p: Seq<char>) -> Seq<char> {
    if ends_with(lower(p), ".dll"@) {
        "prefetch_referenced_module"@
    } else if reference_priority(p) >= 2 {
        "prefetch_referenced_executable"@
    } else {
        "prefetch_referenced_file"@
    }
}

pub fn prefetch_reference_action(file_path: &str) -> (r: &'static str)
    ensures
        r@ == reference_action(file_path@),
{
    let lv = lower_of(file_path);
    if ends_with_str(lv.as_slice(), ".dll") {
        "prefetch_referenced_module"
    } else if prefetch_reference_priority(file_path) >= 2 {
        "prefetch_referenced_executable"
    } else {
        "prefetch_referenced_file"
    }
}

pub open spec fn reference_severity(p: Seq<char>) -> Seq<char> {
    if reference_priority(p) >= 3 {
        "medium"@
    } else {
        "info"@
    }
}

pub fn prefetch_reference_severity(file_path: &str) -> (r: &'static str)
    ensures
        r@ == reference_severity(file_path@),
{
    if prefetch_reference_priority(file_path) >= 3 {
        "medium"
    } else {
        "info"
    }
}

/// The loaded files worth their own event: those of some priority, without
/// repeats, at most sixteen, in order.
pub open spec fn reference_candidates(fs: Seq<Seq<char>>, i: int, acc: Seq<Seq<char>>) -> Seq<Seq<char>>
    decreases fs.len() - i,
{
    if i < 0 || i >= fs.len() || acc.len() >= 16 {
        acc
    } else if reference_priority(fs[i]) == 0 || acc.contains(fs[i]) {
        reference_candidates(fs, i + 1, acc)
    } else {
        reference_candidates(fs, i + 1, acc.push(fs[i]))
    }
}

pub fn prefetch_reference_event_candidates(referenced_files: &[String]) -> (r: Vec<String>)
    ensures
        crate::row::vec_strings(r@) == reference_candidates(
            crate::row::vec_strings(referenced_files@),
            0,
            Seq::empty(),
        ),
{
    let ghost fs = crate::row::vec_strings(referenced_files@);
    let mut out: Vec<String> = Vec::new();
    assert(crate::row::vec_strings(out@) =~= Seq::<Seq<char>>::empty());
    let mut i: usize = 0;
    while i < referenced_files.len()
        invariant
            i <= referenced_files.len(),
            fs == crate::row::vec_strings(referenced_files@),
            out@.len() < 16,
            reference_candidates(fs, 0, Seq::empty()) == reference_candidates(
                fs,
                i as int,
                crate::row::vec_strings(out@),
            ),
        decreases referenced_files.len() - i,
    {
        assert(fs[i as int] == referenced_files@[i as int]@);
        let p = &referenced_files[i];
        if prefetch_reference_priority(p.as_str()) != 0 && !crate::row::contains_string_pub(&out, p) {
            let ghost prev = crate::row::vec_strings(out@);
            out.push(p.clone());
            assert(crate::row::vec_strings(out@) =~= prev.push(p@));
            if out.len() >= 16 {
                assert(reference_candidates(fs, i + 1, crate::row::vec_strings(out@))
                    == crate::row::vec_strings(out@));
                return out;
            }
        }
        i = i + 1;
    }
    out
}

/// The files a prefetched program loaded that are kept: paths under Windows,
/// Program Files or a user profile, or DLLs and executables; those not seen
/// before, cut to 260 characters, at most 64.
pub open spec fn referenced_files_from(fs: Seq<Seq<char>>, i: int, acc: Seq<Seq<char>>) -> Seq<Seq<char>>
    decreases fs.len() - i,
{
    if i < 0 || i >= fs.len() || acc.len() >= 64 {
        acc
    } else {
        let v = fs[i];
        let l = lower(v);
        let kept = path_text(v) && (contains(l, "\\windows\\"@) || contains(l, "\\program files"@)
            || contains(l, "\\users\\"@) || ends_with(l, ".dll"@) || ends_with(l, ".exe"@))
            && !acc.contains(v);
        if kept {
            referenced_files_from(fs, i + 1, acc.push(truncated(v, 260)))
        } else {
            referenced_files_from(fs, i + 1, acc)
        }
    }
}

pub fn prefetch_referenced_files(strings: &[String]) -> (r: Vec<String>)
    ensures
        crate::row::vec_strings(r@) == referenced_files_from(
            crate::row::vec_strings(strings@),
            0,
            Seq::empty(),
        ),
{
    let ghost fs = crate::row::vec_strings(strings@);
    let mut out: Vec<String> = Vec::new();
    assert(crate::row::vec_strings(out@) =~= Seq::<Seq<char>>::empty());
    let mut i: usize = 0;
    while i < strings.len()
        invariant
            i <= strings.len(),
            fs == crate::row::vec_strings(strings@),
            out@.len() < 64,
            referenced_files_from(fs, 0, Seq::empty()) == referenced_files_from(
                fs,
                i as int,
                crate::row::vec_strings(out@),
            ),
        decreases strings.len() - i,
    {
        assert(fs[i as int] == strings@[i as int]@);
        let v = &strings[i];
        let vv = chars_of(v.as_str());
        let lv = lower_chars(vv.as_slice());
        let l = lv.as_slice();
        let kept = path_text_chars(vv.as_slice()) && (contains_str(l, "\\windows\\")
            || contains_str(l, "\\program files") || contains_str(l, "\\users\\")
            || ends_with_str(l, ".dll") || ends_with_str(l, ".exe"))
            && !crate::row::contains_string_pub(&out, v);
        if kept {
            let t = truncated_chars(vv.as_slice(), 260);
            let ghost prev = crate::row::vec_strings(out@);
            out.push(string_from(t.as_slice()));
            assert(crate::row::vec_strings(out@) =~= prev.push(truncated(v@, 260)));
            if out.len() >= 64 {
                assert(referenced_files_from(fs, i + 1, crate::row::vec_strings(out@))
                    == crate::row::vec_strings(out@));
                return out;
            }
        }
        i = i + 1;
    }
    out
}

// ---------------------------------------------------------------------------
// Paths of users and servers
// ---------------------------------------------------------------------------
/// The index of the first non-empty part at or after `i`.
pub open spec fn next_nonempty(ps: Seq<Seq<char>>, i: int) -> Option<int>
    decreases ps.len() - i,
{
    if i < 0 || i >= ps.len() {
        None
    } else if ps[i].len() > 0 {
        Some(i)
    } else {
        next_nonempty(ps, i + 1)
    }
}

/// A user-profile component worth naming a user by.
pub open spec fn user_component(u: Seq<char>) -> Option<Seq<char>> {
    let l = lower(u);
    if l == "default"@ || l == "public"@ || l == "default user"@ || l == "all users"@ {
        None
    } else {
        clean(u)
    }
}

/// The user after the first `Users` component at or after `i`.
pub open spec fn user_scan(ps: Seq<Seq<char>>, i: int) -> Option<Seq<char>>
    decreases ps.len() - i,
{
    if i < 0 || i >= ps.len() {
        None
    } else if ps[i].len() > 0 && eq_ignore_case(ps[i], "users"@) {
        match next_nonempty(ps, i + 1) {
            Some(j) => user_component(ps[j]),
            None => None,
        }
    } else {
        user_scan(ps, i + 1)
    }
}

/// The user whose profile a path lies in.
pub open spec fn user_of_path(v: Seq<char>) -> Option<Seq<char>> {
    user_scan(fields(v, false, seq!['\\', '/']), 0)
}

pub fn user_from_path(value: &str) -> (r: Option<String>)
    ensures
        opt_view(r) == user_of_path(value@),
{
    let v = chars_of(value);
    let seps = ['\\', '/'];
    assert(seps@ =~= seq!['\\', '/']);
    let parts = crate::text::fields_of(v.as_slice(), false, &seps);
    let ghost ps = vviews(parts@);
    let users = chars_of("users");
    let mut i: usize = 0;
    while i < parts.len()
        invariant
            i <= parts.len(),
            ps == vviews(parts@),
            ps == fields(v@, false, seq!['\\', '/']),
            users@ == "users"@,
            v@ == value@,
            user_of_path(v@) == user_scan(ps, i as int),
        decreases parts.len() - i,
    {
        assert(ps[i as int] == parts@[i as int]@);
        if parts[i].len() > 0 && crate::text::eq_ignore_case_chars(parts[i].as_slice(), users.as_slice()) {
            let mut j = i + 1;
            while j < parts.len() && parts[j].len() == 0
                invariant
                    i < j <= parts.len(),
                    ps == vviews(parts@),
                    ps == fields(v@, false, seq!['\\', '/']),
                    v@ == value@,
                    user_of_path(v@) == user_scan(ps, i as int),
                    ps[i as int].len() > 0 && eq_ignore_case(ps[i as int], "users"@),
                    next_nonempty(ps, i + 1) == next_nonempty(ps, j as int),
                decreases parts.len() - j,
            {
                assert(ps[j as int] == parts@[j as int]@);
                j = j + 1;
            }
            if j >= parts.len() {
                return None;
            }
            assert(ps[j as int] == parts@[j as int]@);
            let u = parts[j].as_slice();
            let lu = lower_chars(u);
            let l = lu.as_slice();
            if eq_str(l, "default") || eq_str(l, "public") || eq_str(l, "default user") || eq_str(
                l,
                "all users",
            ) {
                return None;
            }
            return match clean_chars(u) {
                Some(c) => Some(string_from(c.as_slice())),
                None => None,
            };
        }
        i = i + 1;
    }
    None
}

/// No host name can be read from a path.
pub fn host_from_path(_value: &str) -> (r: Option<String>)
    ensures
        r is None,
{
    None
}

/// The FTP URL of a FileZilla server: the host trimmed, with the port when it
/// holds a meaningful value.
pub open spec fn filezilla_url(host: Seq<char>, port: Option<Seq<char>>) -> Seq<char> {
    match (match port {
        Some(p) => clean(p),
        None => None,
    }) {
        Some(p) => "ftp://"@ + trim(host) + ":"@ + p,
        None => "ftp://"@ + trim(host),
    }
}

pub fn filezilla_server_url(host: &str, port: Option<&str>) -> (r: String)
    ensures
        r@ == filezilla_url(host@, str_view(port)),
{
    let hv = chars_of(host);
    let h = trim_chars(hv.as_slice());
    let scheme = chars_of("ftp://");
    let base = crate::text::concat_chars(scheme.as_slice(), h.as_slice());
    let cleaned = match port {
        Some(p) => {
            let pv = chars_of(p);
            clean_chars(pv.as_slice())
        },
        None => None,
    };
    match cleaned {
        Some(c) => {
            let colon = chars_of(":");
            let a = crate::text::concat_chars(base.as_slice(), colon.as_slice());
            let b = crate::text::concat_chars(a.as_slice(), c.as_slice());
            string_from(b.as_slice())
        },
        None => string_from(base.as_slice()),
    }
}

} // verus!
