//! Recognising what an artifact is: from its path, the type it was declared
//! with, and a sample of its text.
use vstd::prelude::*;
use crate::binary::{bytes_start, file_magic, file_magic_bytes, starts_with_bytes};
use crate::decode::{clean, clean_chars, lines, lines_of, opt_view};
use crate::external::{rfc3339_of_timestamp, utc_rfc3339, utf8_error_text, utf8_text};
use vstd::utf8::{decode_utf8, valid_utf8};
use crate::text::{
    chars_of, concat_str, contains, contains_char, contains_char_exec, contains_str, ends_with, ends_with_str,
    eq_str, first_segment, first_segment_of, is_ascii_alnum, last_segment, last_segment_of,
    lower, lower_chars, lower_char, lower_of, rfind_sep, rfind_sep_exec, slice_to_vec,
    starts_with, starts_with_str, string_from, string_of, trim, trim_chars, upper, upper_chars,
    vviews, char_is_ascii_alnum, char_lower, lemma_rfind_sep_range,
};
use crate::{FakeParser, ParserError, ParserInput, StructuredArtifactParser};

verus! {

// ---------------------------------------------------------------------------
// Path components
// ---------------------------------------------------------------------------
/// The characters that separate path components.
pub open spec fn path_seps() -> Seq<char> {
    seq!['\\', '/']
}

/// The last component of a path, cleaned.
pub open spec fn file_name_of(s: Seq<char>) -> Option<Seq<char>> {
    clean(last_segment(s, path_seps()))
}

/// The lower-cased text after the last `.` of the last path component, cleaned;
/// none when that component holds no `.`.
pub open spec fn extension_of(s: Seq<char>) -> Option<Seq<char>> {
    let name = last_segment(s, path_seps());
    let k = rfind_sep(name, seq!['.'], name.len() as int);
    if k < 0 {
        None
    } else {
        clean(lower(name.subrange(k + 1, name.len() as int)))
    }
}

/// The file name of a URL: its path without fragment and query, kept only when
/// it holds a `.`.
pub open spec fn url_file_name_of(s: Seq<char>) -> Option<Seq<char>> {
    let no_fragment = first_segment(s, seq!['#']);
    let no_query = first_segment(no_fragment, seq!['?']);
    match file_name_of(no_query) {
        Some(n) => if n.contains('.') {
            Some(n)
        } else {
            None
        },
        None => None,
    }
}

fn path_sep_chars() -> (r: [char; 2])
    ensures
        r@ == path_seps(),
{
    let r = ['\\', '/'];
    assert(r@ =~= path_seps());
    r
}

pub(crate) fn file_name_chars(s: &[char]) -> (r: Option<Vec<char>>)
    ensures
        match r {
            Some(v) => file_name_of(s@) == Some(v@),
            None => file_name_of(s@) is None,
        },
{
    let seps = path_sep_chars();
    let name = last_segment_of(s, &seps);
    clean_chars(name.as_slice())
}

pub(crate) fn extension_chars(s: &[char]) -> (r: Option<Vec<char>>)
    ensures
        match r {
            Some(v) => extension_of(s@) == Some(v@),
            None => extension_of(s@) is None,
        },
{
    let seps = path_sep_chars();
    let name = last_segment_of(s, &seps);
    let dot = ['.'];
    assert(dot@ =~= seq!['.']);
    match rfind_sep_exec(name.as_slice(), &dot, name.len()) {
        None => None,
        Some(k) => {
            let ext = slice_to_vec(name.as_slice(), k + 1, name.len());
            let le = lower_chars(ext.as_slice());
            clean_chars(le.as_slice())
        },
    }
}

/// The last component of a path (after `\` or `/`), cleaned.
pub fn file_name_from_path(value: &str) -> (r: Option<String>)
    ensures
        opt_view(r) == file_name_of(value@),
{
    let v = chars_of(value);
    match file_name_chars(v.as_slice()) {
        Some(n) => Some(string_from(n.as_slice())),
        None => None,
    }
}

/// The lower-cased extension of the last component of a path, cleaned.
pub fn extension_from_path(value: &str) -> (r: Option<String>)
    ensures
        opt_view(r) == extension_of(value@),
{
    let v = chars_of(value);
    match extension_chars(v.as_slice()) {
        Some(e) => Some(string_from(e.as_slice())),
        None => None,
    }
}

/// The file name that a URL points at, when it has an extension.
pub fn file_name_from_url(value: &str) -> (r: Option<String>)
    ensures
        opt_view(r) == url_file_name_of(value@),
{
    let v = chars_of(value);
    let hash = ['#'];
    assert(hash@ =~= seq!['#']);
    let q = ['?'];
    assert(q@ =~= seq!['?']);
    let a = first_segment_of(v.as_slice(), &hash);
    let b = first_segment_of(a.as_slice(), &q);
    match file_name_chars(b.as_slice()) {
        Some(n) => {
            if contains_char_exec(n.as_slice(), '.') {
                Some(string_from(n.as_slice()))
            } else {
                None
            }
        },
        None => None,
    }
}

// ---------------------------------------------------------------------------
// Header normalisation
// ---------------------------------------------------------------------------
/// The ASCII letters and digits of a text, lower-cased, in order.
pub open spec fn normalized(s: Seq<char>) -> Seq<char>
    decreases s.len(),
{
    if s.len() == 0 {
        Seq::empty()
    } else if is_ascii_alnum(s.last()) {
        normalized(s.drop_last()).push(lower_char(s.last()))
    } else {
        normalized(s.drop_last())
    }
}

pub fn normalize_chars(s: &[char]) -> (r: Vec<char>)
    ensures
        r@ == normalized(s@),
{
    let mut out: Vec<char> = Vec::new();
    let mut i: usize = 0;
    while i < s.len()
        invariant
            i <= s.len(),
            out@ == normalized(s@.subrange(0, i as int)),
        decreases s.len() - i,
    {
        assert(s@.subrange(0, i + 1).drop_last() =~= s@.subrange(0, i as int));
        if char_is_ascii_alnum(s[i]) {
            out.push(char_lower(s[i]));
        }
        i = i + 1;
    }
    assert(s@.subrange(0, s@.len() as int) =~= s@);
    out
}

/// A header or key reduced to its lower-case ASCII letters and digits.
pub fn normalize_header(value: &str) -> (r: String)
    ensures
        r@ == normalized(value@),
{
    let v = chars_of(value);
    let n = normalize_chars(v.as_slice());
    string_from(n.as_slice())
}

// ---------------------------------------------------------------------------
// Character and type classes
// ---------------------------------------------------------------------------
/// Hiragana, katakana, CJK ideographs and half-width katakana.
pub open spec fn cjk_or_kana(c: char) -> bool {
    let v = c as u32;
    (0x3040 <= v <= 0x30ff) || (0x3400 <= v <= 0x9fff) || (0xf900 <= v <= 0xfaff) || (0xff66
        <= v <= 0xff9f)
}

pub fn is_cjk_or_kana(ch: char) -> (r: bool)
    ensures
        r == cjk_or_kana(ch),
{
    let v = ch as u32;
    (0x3040 <= v && v <= 0x30ff) || (0x3400 <= v && v <= 0x9fff) || (0xf900 <= v && v <= 0xfaff)
        || (0xff66 <= v && v <= 0xff9f)
}

/// Artifact types whose bytes are read for metadata and strings only.
pub open spec fn binary_metadata_type(t: Seq<char>) -> bool {
    ||| t == "registry_hive"@
    ||| t == "registry_log"@
    ||| t == "srum"@
    ||| t == "web_cache"@
    ||| t == "webcache"@
    ||| t == "jump_list"@
    ||| t == "thumbcache"@
    ||| t == "ese"@
    ||| t == "sqlite"@
    ||| t == "etl"@
    ||| t == "ntfs_logfile"@
    ||| t == "ntfs_boot"@
    ||| t == "ntfs_secure"@
    ||| t == "font"@
    ||| t == "image"@
    ||| t == "binary"@
}

pub fn is_binary_metadata_artifact(artifact_type: &str) -> (r: bool)
    ensures
        r == binary_metadata_type(artifact_type@),
{
    let t = chars_of(artifact_type);
    let t = t.as_slice();
    eq_str(t, "registry_hive") || eq_str(t, "registry_log") || eq_str(t, "srum") || eq_str(
        t,
        "web_cache",
    ) || eq_str(t, "webcache") || eq_str(t, "jump_list") || eq_str(t, "thumbcache") || eq_str(
        t,
        "ese",
    ) || eq_str(t, "sqlite") || eq_str(t, "etl") || eq_str(t, "ntfs_logfile") || eq_str(
        t,
        "ntfs_boot",
    ) || eq_str(t, "ntfs_secure") || eq_str(t, "font") || eq_str(t, "image") || eq_str(
        t,
        "binary",
    )
}

/// Artifact types read as lines of text.
pub open spec fn text_type(t: Seq<char>) -> bool {
    ||| t == "text_log"@
    ||| t == "generic_text"@
    ||| t == "config"@
    ||| t == "script"@
    ||| t == "stylesheet"@
    ||| t == "html"@
    ||| t == "xml"@
    ||| t == "onedrive_log"@
    ||| t == "windows_search_log"@
    ||| t == "kape_log"@
    ||| t == "cookie_text"@
}

pub fn is_text_artifact(artifact_type: &str) -> (r: bool)
    ensures
        r == text_type(artifact_type@),
{
    let t = chars_of(artifact_type);
    let t = t.as_slice();
    eq_str(t, "text_log") || eq_str(t, "generic_text") || eq_str(t, "config") || eq_str(
        t,
        "script",
    ) || eq_str(t, "stylesheet") || eq_str(t, "html") || eq_str(t, "xml") || eq_str(
        t,
        "onedrive_log",
    ) || eq_str(t, "windows_search_log") || eq_str(t, "kape_log") || eq_str(t, "cookie_text")
}

/// The extension of a path is one of two given ones.
pub open spec fn ext_is(p: Seq<char>, a: Seq<char>, b: Seq<char>) -> bool {
    extension_of(p) == Some(a) || extension_of(p) == Some(b)
}

/// A path (already lower-cased) of a Windows Search gather or crawl log.
pub open spec fn windows_search_log_path(p: Seq<char>) -> bool {
    if ext_is(p, "gthr"@, "crwl"@) {
        true
    } else {
        let in_tree = contains(p, "/programdata/microsoft/search/"@) || contains(
            p,
            "\\programdata\\microsoft\\search\\"@,
        ) || contains(p, "/microsoft/search/data/applications/windows/"@) || contains(
            p,
            "\\microsoft\\search\\data\\applications\\windows\\"@,
        );
        in_tree && (contains(p, "/gatherlogs/"@) || contains(p, "\\gatherlogs\\"@) || ext_is(
            p,
            "jtx"@,
            "jcp"@,
        ) || ext_is(p, "jfm"@, "log"@) || extension_of(p) == Some("txt"@))
    }
}

fn ext_eq(e: &Option<Vec<char>>, lit: &str) -> (r: bool)
    ensures
        r == (match e {
            Some(v) => v@ == lit@,
            None => false,
        }),
{
    match e {
        Some(v) => eq_str(v.as_slice(), lit),
        None => false,
    }
}

pub(crate) fn search_log_path_chars(p: &[char]) -> (r: bool)
    ensures
        r == windows_search_log_path(p@),
{
    let ext = extension_chars(p);
    if ext_eq(&ext, "gthr") || ext_eq(&ext, "crwl") {
        return true;
    }
    let in_tree = contains_str(p, "/programdata/microsoft/search/") || contains_str(
        p,
        "\\programdata\\microsoft\\search\\",
    ) || contains_str(p, "/microsoft/search/data/applications/windows/") || contains_str(
        p,
        "\\microsoft\\search\\data\\applications\\windows\\",
    );
    in_tree && (contains_str(p, "/gatherlogs/") || contains_str(p, "\\gatherlogs\\") || ext_eq(
        &ext,
        "jtx",
    ) || ext_eq(&ext, "jcp") || ext_eq(&ext, "jfm") || ext_eq(&ext, "log") || ext_eq(
        &ext,
        "txt",
    ))
}

/// Whether a lower-cased path is a Windows Search gather or crawl log.
pub fn is_windows_search_log_path(lower_path: &str) -> (r: bool)
    ensures
        r == windows_search_log_path(lower_path@),
{
    let p = chars_of(lower_path);
    search_log_path_chars(p.as_slice())
}

// ---------------------------------------------------------------------------
// Recognising raw artifacts
// ---------------------------------------------------------------------------
/// A raw `$MFT`: a path or type that says so, and bytes that start with `FILE`.
pub open spec fn mft_binary(path: Seq<char>, kind: Seq<char>, b: Seq<u8>) -> bool {
    let l = lower(path);
    (contains(l, "$mft"@) || contains(l, "mft"@) || kind == "mft"@) && bytes_start(
        b,
        file_magic(),
    )
}

/// A USN change journal, by type or path.
pub open spec fn usn_journal(path: Seq<char>, kind: Seq<char>) -> bool {
    let l = lower(path);
    kind == "usn_jrnl"@ || contains(l, "$j"@) || contains(l, "usnjrnl"@)
}

/// Gzip data, by its magic bytes or its file name.
pub open spec fn gzip_input(path: Seq<char>, b: Seq<u8>) -> bool {
    let l = lower(path);
    bytes_start(b, seq![0x1fu8, 0x8bu8]) || ends_with(l, ".gz"@) || ends_with(l, ".odlgz"@)
        || ends_with(l, ".loggz"@)
}

pub fn looks_like_mft_binary(input: &ParserInput) -> (r: bool)
    ensures
        r == mft_binary(input.original_path@, input.artifact_type@, input.bytes@),
{
    let l = lower_of(input.original_path.as_str());
    let kind = chars_of(input.artifact_type.as_str());
    let magic = file_magic_bytes();
    (contains_str(l.as_slice(), "$mft") || contains_str(l.as_slice(), "mft") || eq_str(
        kind.as_slice(),
        "mft",
    )) && starts_with_bytes(input.bytes.as_slice(), &magic)
}

pub fn looks_like_usn_journal(input: &ParserInput) -> (r: bool)
    ensures
        r == usn_journal(input.original_path@, input.artifact_type@),
{
    let l = lower_of(input.original_path.as_str());
    let kind = chars_of(input.artifact_type.as_str());
    eq_str(kind.as_slice(), "usn_jrnl") || contains_str(l.as_slice(), "$j") || contains_str(
        l.as_slice(),
        "usnjrnl",
    )
}

pub fn looks_like_gzip(input: &ParserInput) -> (r: bool)
    ensures
        r == gzip_input(input.original_path@, input.bytes@),
{
    let l = lower_of(input.original_path.as_str());
    let magic = [0x1fu8, 0x8bu8];
    assert(magic@ =~= seq![0x1fu8, 0x8bu8]);
    starts_with_bytes(input.bytes.as_slice(), &magic) || ends_with_str(l.as_slice(), ".gz")
        || ends_with_str(l.as_slice(), ".odlgz") || ends_with_str(l.as_slice(), ".loggz")
}

// ---------------------------------------------------------------------------
// Plain-text parser
// ---------------------------------------------------------------------------
/// The severity of a plain log line: errors and failures are high, warnings
/// medium, anything else informational.
pub open spec fn line_severity(line: Seq<char>) -> Seq<char> {
    let u = upper(line);
    if contains(u, "ERROR"@) || contains(u, "FAIL"@) {
        "high"@
    } else if contains(u, "WARN"@) {
        "medium"@
    } else {
        "info"@
    }
}

/// The files the plain-text parser accepts: `.txt`, `.log` and `.fake`.
pub open spec fn plain_text_path(path: Seq<char>) -> bool {
    let l = lower(path);
    ends_with(l, ".txt"@) || ends_with(l, ".log"@) || ends_with(l, ".fake"@)
}

impl FakeParser {
    pub fn severity_for(line: &str) -> (r: &'static str)
        ensures
            r@ == line_severity(line@),
    {
        let v = chars_of(line);
        let u = upper_chars(v.as_slice());
        if contains_str(u.as_slice(), "ERROR") || contains_str(u.as_slice(), "FAIL") {
            "high"
        } else if contains_str(u.as_slice(), "WARN") {
            "medium"
        } else {
            "info"
        }
    }

    pub fn supports(&self, input: &ParserInput) -> (r: bool)
        ensures
            r == plain_text_path(input.original_path@),
    {
        let l = lower_of(input.original_path.as_str());
        ends_with_str(l.as_slice(), ".txt") || ends_with_str(l.as_slice(), ".log")
            || ends_with_str(l.as_slice(), ".fake")
    }

    /// Parses a plain-text artifact: each line that is not blank becomes an
    /// event and a raw record. Other files are unsupported; bytes that are not
    /// UTF-8, or text without a line that is not blank, are a failure.
    pub fn parse(&self, input: ParserInput) -> (r: Result<ParserOutcome, ParserError>)
        ensures
            !plain_text_path(input.original_path@) ==> (r matches Ok(ParserOutcome::Unsupported { reason })
                && reason@ == "fake parser supports only .txt, .log, and .fake files"@),
            plain_text_path(input.original_path@) && !valid_utf8(input.bytes@) ==> (r matches Err(
                ParserError::Failed(m),
            ) && m@ == "input is not utf-8: "@ + utf8_error_text(input.bytes@)),
            plain_text_path(input.original_path@) && valid_utf8(input.bytes@) && plain_lines(
                decode_utf8(input.bytes@),
            ).len() == 0 ==> (r matches Err(ParserError::Failed(m)) && m@
                == "fake parser found no non-empty lines"@),
            plain_text_path(input.original_path@) && valid_utf8(input.bytes@) && plain_lines(
                decode_utf8(input.bytes@),
            ).len() > 0 ==> (r matches Ok(ParserOutcome::Parsed(p)) && parsed_lines_of(
                p,
                plain_lines(decode_utf8(input.bytes@)),
            )),
    {
        if !self.supports(&input) {
            return Ok(
                ParserOutcome::Unsupported {
                    reason: string_of("fake parser supports only .txt, .log, and .fake files"),
                },
            );
        }
        let text = match utf8_text(input.bytes.as_slice()) {
            Ok(t) => t,
            Err(e) => {
                return Err(ParserError::Failed(concat_str("input is not utf-8: ", e.as_str())));
            },
        };
        let tc = chars_of(text.as_str());
        let ls = lines_of(tc.as_slice());
        let ghost lv = vviews(ls@);
        let mut events: Vec<PlainLineEvent> = Vec::new();
        let mut raw_records: Vec<PlainRawLine> = Vec::new();
        let mut i: usize = 0;
        while i < ls.len()
            invariant
                i <= ls@.len(),
                lv == vviews(ls@),
                lv == lines(text@),
                ({
                    let nb = crate::csv::nonblank_lines(lv.take(i as int));
                    &&& events@.len() == nb.len()
                    &&& raw_records@.len() == nb.len()
                    &&& nb.len() <= i
                    &&& forall|k: int| 0 <= k < nb.len() ==> line_event_of(#[trigger] events@[k], k, nb[k])
                    &&& forall|k: int| 0 <= k < nb.len() ==> raw_line_of(#[trigger] raw_records@[k], k, nb[k])
                }),
            decreases ls@.len() - i,
        {
            let ghost before = crate::csv::nonblank_lines(lv.take(i as int));
            assert(lv.take(i + 1).drop_last() =~= lv.take(i as int));
            assert(lv.take(i + 1).last() == ls@[i as int]@);
            let t = trim_chars(ls[i].as_slice());
            if t.len() > 0 {
                let line = ls[i].as_slice();
                let n = events.len();
                let ghost ev0 = events@;
                let ghost rr0 = raw_records@;
                let text_line = string_from(line);
                let sev = FakeParser::severity_for(text_line.as_str());
                let short = if line.len() <= 120 {
                    string_from(line)
                } else {
                    let head = slice_to_vec(line, 0, 120);
                    assert(head@ =~= line@.take(120));
                    string_from(head.as_slice())
                };
                events.push(
                    PlainLineEvent {
                        line_number: n + 1,
                        severity: string_of(sev),
                        message_short: short,
                        message_full: string_from(line),
                    },
                );
                raw_records.push(PlainRawLine { line_number: n + 1, line: text_line });
                proof {
                    let nb = before.push(ls@[i as int]@);
                    assert(crate::csv::nonblank_lines(lv.take(i + 1)) == nb);
                    assert forall|k: int| 0 <= k < nb.len() implies line_event_of(#[trigger] events@[k], k, nb[k]) by {
                        if k < before.len() {
                            assert(events@[k] == ev0[k]);
                        }
                    }
                    assert forall|k: int| 0 <= k < nb.len() implies raw_line_of(#[trigger] raw_records@[k], k, nb[k]) by {
                        if k < before.len() {
                            assert(raw_records@[k] == rr0[k]);
                        }
                    }
                }
            } else {
                assert(crate::csv::nonblank_lines(lv.take(i + 1)) == before);
            }
            i = i + 1;
        }
        assert(lv.take(ls@.len() as int) =~= lv);
        if events.len() == 0 {
            return Err(ParserError::Failed(string_of("fake parser found no non-empty lines")));
        }
        Ok(ParserOutcome::Parsed(ParsedLines { events, raw_records }))
    }
}

/// The lines the plain-text parser reads: those of the text that are not blank.
pub open spec fn plain_lines(text: Seq<char>) -> Seq<Seq<char>> {
    crate::csv::nonblank_lines(lines(text))
}

/// The short message of a line: its first 120 characters.
pub open spec fn short_message(line: Seq<char>) -> Seq<char> {
    if line.len() <= 120 {
        line
    } else {
        line.take(120)
    }
}

/// The event of one line of plain text: its number (from one among the lines
/// that are not blank), its severity, and its text, whole and shortened.
pub struct PlainLineEvent {
    pub line_number: usize,
    pub severity: String,
    pub message_short: String,
    pub message_full: String,
}

/// The raw record of one line: its number and its text.
pub struct PlainRawLine {
    pub line_number: usize,
    pub line: String,
}

/// The events and raw records of a plain-text artifact, one of each per line.
pub struct ParsedLines {
    pub events: Vec<PlainLineEvent>,
    pub raw_records: Vec<PlainRawLine>,
}

/// What the plain-text parser makes of an input.
pub enum ParserOutcome {
    Parsed(ParsedLines),
    Unsupported { reason: String },
}

pub open spec fn line_event_of(e: PlainLineEvent, k: int, line: Seq<char>) -> bool {
    &&& e.line_number == k + 1
    &&& e.severity@ == line_severity(line)
    &&& e.message_short@ == short_message(line)
    &&& e.message_full@ == line
}

pub open spec fn raw_line_of(r: PlainRawLine, k: int, line: Seq<char>) -> bool {
    r.line_number == k + 1 && r.line@ == line
}

/// One event and one raw record for each of the lines `ls`, in order.
pub open spec fn parsed_lines_of(p: ParsedLines, ls: Seq<Seq<char>>) -> bool {
    &&& p.events@.len() == ls.len()
    &&& p.raw_records@.len() == ls.len()
    &&& forall|k: int| 0 <= k < ls.len() ==> line_event_of(#[trigger] p.events@[k], k, ls[k])
    &&& forall|k: int| 0 <= k < ls.len() ==> raw_line_of(#[trigger] p.raw_records@[k], k, ls[k])
}

/// The time of the `k`-th line of a parse that started at `secs` seconds and
/// `nanos` nanoseconds after the epoch: one second further per line.
pub open spec fn line_time_at(secs: i64, nanos: u32, k: int) -> Option<Seq<char>> {
    if secs + k <= i64::MAX {
        rfc3339_of_timestamp(secs + k, nanos as int)
    } else {
        None
    }
}

/// What ties the event of a line to its raw record: the line's number, the ids
/// the two share, and the time given to the line.
pub struct PlainLineLink {
    pub line_number: usize,
    pub event_id: String,
    pub raw_record_ref: String,
    pub event_time: String,
}

pub open spec fn line_link_of(l: PlainLineLink, e: PlainLineEvent, id: (String, String), t: Option<Seq<char>>) -> bool {
    &&& l.line_number == e.line_number
    &&& l.event_id@ == id.0@
    &&& l.raw_record_ref@ == id.1@
    &&& t == Some(l.event_time@)
}

/// Whether every line of `n` has a pair of ids among `m` and a time.
pub open spec fn links_possible(n: int, m: int, secs: i64, nanos: u32) -> bool {
    &&& n == m
    &&& forall|k: int| 0 <= k < n ==> #[trigger] line_time_at(secs, nanos, k) is Some
}

/// Links the events of a plain-text parse to their raw records: the `k`-th line
/// takes the `k`-th pair of ids (event id, raw record reference) and the time
/// `k` seconds after `secs` and `nanos`. None when the ids do not match the lines
/// one for one, or a time falls outside what can be rendered.
pub fn link_plain_lines(parsed: &ParsedLines, ids: &[(String, String)], secs: i64, nanos: u32) -> (r:
    Option<Vec<PlainLineLink>>)
    ensures
        r is Some <==> links_possible(parsed.events@.len() as int, ids@.len() as int, secs, nanos),
        r matches Some(v) ==> v@.len() == parsed.events@.len() && forall|k: int|
            0 <= k < v@.len() ==> line_link_of(
                #[trigger] v@[k],
                parsed.events@[k],
                ids@[k],
                line_time_at(secs, nanos, k),
            ),
{
    let n = parsed.events.len();
    if ids.len() != n {
        return None;
    }
    let mut out: Vec<PlainLineLink> = Vec::new();
    let mut k: usize = 0;
    while k < n
        invariant
            n == parsed.events@.len(),
            n == ids@.len(),
            k <= n,
            out@.len() == k,
            forall|j: int| 0 <= j < k ==> #[trigger] line_time_at(secs, nanos, j) is Some,
            forall|j: int|
                0 <= j < k ==> line_link_of(
                    #[trigger] out@[j],
                    parsed.events@[j],
                    ids@[j],
                    line_time_at(secs, nanos, j),
                ),
        decreases n - k,
    {
        let wide: i128 = secs as i128 + k as i128;
        if wide > i64::MAX as i128 {
            assert(line_time_at(secs, nanos, k as int) is None);
            return None;
        }
        let at = wide as i64;
        let time = match utc_rfc3339(at, nanos) {
            Some(t) => t,
            None => {
                assert(line_time_at(secs, nanos, k as int) is None);
                return None;
            },
        };
        let ghost before = out@;
        out.push(
            PlainLineLink {
                line_number: parsed.events[k].line_number,
                event_id: string_of(ids[k].0.as_str()),
                raw_record_ref: string_of(ids[k].1.as_str()),
                event_time: time,
            },
        );
        proof {
            assert forall|j: int| 0 <= j < k + 1 implies line_link_of(
                #[trigger] out@[j],
                parsed.events@[j],
                ids@[j],
                line_time_at(secs, nanos, j),
            ) by {
                if j < k {
                    assert(out@[j] == before[j]);
                }
            }
        }
        k = k + 1;
    }
    Some(out)
}

impl StructuredArtifactParser {
    /// Any input with an original evidence path that is not blank.
    pub fn supports(&self, input: &ParserInput) -> (r: bool)
        ensures
            r == (trim(input.original_path@).len() != 0),
    {
        let p = chars_of(input.original_path.as_str());
        let t = trim_chars(p.as_slice());
        t.len() != 0
    }
}

} // verus!
