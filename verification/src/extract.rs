//! Recognising indicators in free text: paths, URLs, domains, IPv4 addresses,
//! executables and hashes, and picking the first one out of a message.
use vstd::prelude::*;
use crate::artifact::{file_name_chars, file_name_of};
use crate::decode::{clean, clean_chars, opt_view};
use crate::text::{
    all_digits, chars_of, contains, contains_char, contains_char_exec, contains_str,
    decimal_value, ends_with, ends_with_str, eq_str, fields, fields_of, find, find_str,
    first_segment, first_segment_of, first_some, is_ascii_alnum, is_ascii_alpha, is_ascii_digit,
    is_ascii_hex, lemma_first_some_ends, lemma_first_some_step, lower, lower_chars, lower_of,
    rfind_sep, rfind_sep_exec, slice_to_vec, starts_with, starts_with_str, string_from, trim_outside,
    trim_outside_chars, trim_set, trim_set_chars, views, vviews, words, words_of,
    char_is_ascii_alnum, char_is_ascii_alpha, char_is_ascii_digit, char_is_ascii_hex, parse_int,
    parse_i64,
};
use crate::textlog::{first_label_value, first_label_value_exec};

verus! {

// ---------------------------------------------------------------------------
// Single values
// ---------------------------------------------------------------------------
/// A file name of an executable or script: `.exe`, `.dll`, `.ps1`, `.bat`,
/// `.cmd`, `.vbs` or `.js`, in any ASCII case.
pub open spec fn exec_name(v: Seq<char>) -> bool {
    let l = lower(v);
    ||| ends_with(l, ".exe"@)
    ||| ends_with(l, ".dll"@)
    ||| ends_with(l, ".ps1"@)
    ||| ends_with(l, ".bat"@)
    ||| ends_with(l, ".cmd"@)
    ||| ends_with(l, ".vbs"@)
    ||| ends_with(l, ".js"@)
}

/// A URL with an `http`, `https` or `ftp` scheme, in any ASCII case.
pub open spec fn url_text(v: Seq<char>) -> bool {
    let l = lower(v);
    starts_with(l, "http://"@) || starts_with(l, "https://"@) || starts_with(l, "ftp://"@)
}

/// A Windows or Unix path.
pub open spec fn path_text(v: Seq<char>) -> bool {
    let l = lower(v);
    ||| contains(v, ":\\"@)
    ||| starts_with(v, "\\\\"@)
    ||| starts_with(v, "/"@)
    ||| contains(l, "/users/"@)
    ||| contains(l, "\\users\\"@)
    ||| contains(l, "/windows/"@)
    ||| contains(l, "\\windows\\"@)
    ||| starts_with(l, "\\device\\"@)
}

pub open spec fn all_hex(v: Seq<char>) -> bool {
    forall|k: int| 0 <= k < v.len() ==> is_ascii_hex(#[trigger] v[k])
}

/// An MD5, SHA-1 or SHA-256 digest in hexadecimal.
pub open spec fn hex_digest(v: Seq<char>) -> bool {
    (v.len() == 32 || v.len() == 40 || v.len() == 64) && all_hex(v)
}

/// A string worth reporting from binary data: a path, URL, executable, a
/// digest, or a mention of a tool or threat.
pub open spec fn interesting_text(v: Seq<char>) -> bool {
    let l = lower(v);
    ||| path_text(v)
    ||| url_text(v)
    ||| exec_name(v)
    ||| contains(l, "powershell"@)
    ||| contains(l, "cmd.exe"@)
    ||| contains(l, "teamviewer"@)
    ||| contains(l, "onedrive"@)
    ||| contains(l, "defender"@)
    ||| contains(l, "malware"@)
    ||| contains(l, "threat"@)
    ||| hex_digest(v)
}

pub(crate) fn exec_name_chars(v: &[char]) -> (r: bool)
    ensures
        r == exec_name(v@),
{
    let l = lower_chars(v);
    let l = l.as_slice();
    ends_with_str(l, ".exe") || ends_with_str(l, ".dll") || ends_with_str(l, ".ps1")
        || ends_with_str(l, ".bat") || ends_with_str(l, ".cmd") || ends_with_str(l, ".vbs")
        || ends_with_str(l, ".js")
}

pub(crate) fn url_text_chars(v: &[char]) -> (r: bool)
    ensures
        r == url_text(v@),
{
    let l = lower_chars(v);
    let l = l.as_slice();
    starts_with_str(l, "http://") || starts_with_str(l, "https://") || starts_with_str(l, "ftp://")
}

pub(crate) fn path_text_chars(v: &[char]) -> (r: bool)
    ensures
        r == path_text(v@),
{
    let lv = lower_chars(v);
    let l = lv.as_slice();
    contains_str(v, ":\\") || starts_with_str(v, "\\\\") || starts_with_str(v, "/")
        || contains_str(l, "/users/") || contains_str(l, "\\users\\") || contains_str(
        l,
        "/windows/",
    ) || contains_str(l, "\\windows\\") || starts_with_str(l, "\\device\\")
}

pub(crate) fn all_hex_chars(v: &[char]) -> (r: bool)
    ensures
        r == all_hex(v@),
{
    let mut i: usize = 0;
    while i < v.len()
        invariant
            i <= v.len(),
            forall|k: int| 0 <= k < i ==> is_ascii_hex(#[trigger] v@[k]),
        decreases v.len() - i,
    {
        if !char_is_ascii_hex(v[i]) {
            return false;
        }
        i = i + 1;
    }
    true
}

pub(crate) fn hex_digest_chars(v: &[char]) -> (r: bool)
    ensures
        r == hex_digest(v@),
{
    (v.len() == 32 || v.len() == 40 || v.len() == 64) && all_hex_chars(v)
}

/// Whether a file name is an executable or script.
pub fn is_executable_name(value: &str) -> (r: bool)
    ensures
        r == exec_name(value@),
{
    let v = chars_of(value);
    exec_name_chars(v.as_slice())
}

/// Whether a value is an `http`, `https` or `ftp` URL.
pub fn looks_like_url(value: &str) -> (r: bool)
    ensures
        r == url_text(value@),
{
    let v = chars_of(value);
    url_text_chars(v.as_slice())
}

/// Whether a value is a Windows or Unix path.
pub fn looks_like_path(value: &str) -> (r: bool)
    ensures
        r == path_text(value@),
{
    let v = chars_of(value);
    path_text_chars(v.as_slice())
}

pub fn looks_interesting_string(value: &str) -> (r: bool)
    ensures
        r == interesting_text(value@),
{
    let v = chars_of(value);
    let v = v.as_slice();
    let lv = lower_chars(v);
    let l = lv.as_slice();
    path_text_chars(v) || url_text_chars(v) || exec_name_chars(v) || contains_str(l, "powershell")
        || contains_str(l, "cmd.exe") || contains_str(l, "teamviewer") || contains_str(
        l,
        "onedrive",
    ) || contains_str(l, "defender") || contains_str(l, "malware") || contains_str(l, "threat")
        || hex_digest_chars(v)
}

// ---------------------------------------------------------------------------
// Paths
// ---------------------------------------------------------------------------
/// A path under a temporary, user-data, download, shared or public folder.
pub open spec fn suspicious_path_text(v: Seq<char>) -> bool {
    let l = lower(v);
    ||| contains(l, "\\temp\\"@)
    ||| contains(l, "/temp/"@)
    ||| contains(l, "\\appdata\\"@)
    ||| contains(l, "/appdata/"@)
    ||| contains(l, "\\downloads\\"@)
    ||| contains(l, "/downloads/"@)
    ||| contains(l, "\\programdata\\"@)
    ||| contains(l, "/programdata/"@)
    ||| contains(l, "\\public\\"@)
    ||| contains(l, "/public/"@)
}

pub fn suspicious_path(value: &str) -> (r: bool)
    ensures
        r == suspicious_path_text(value@),
{
    let lv = lower_of(value);
    let l = lv.as_slice();
    contains_str(l, "\\temp\\") || contains_str(l, "/temp/") || contains_str(l, "\\appdata\\")
        || contains_str(l, "/appdata/") || contains_str(l, "\\downloads\\") || contains_str(
        l,
        "/downloads/",
    ) || contains_str(l, "\\programdata\\") || contains_str(l, "/programdata/") || contains_str(
        l,
        "\\public\\",
    ) || contains_str(l, "/public/")
}

/// A program name that attackers run to execute code.
pub open spec fn suspicious_execution_text(v: Seq<char>) -> bool {
    let l = lower(v);
    ||| l == "powershell.exe"@
    ||| l == "pwsh.exe"@
    ||| l == "cmd.exe"@
    ||| l == "wscript.exe"@
    ||| l == "cscript.exe"@
    ||| l == "mshta.exe"@
    ||| l == "rundll32.exe"@
    ||| l == "regsvr32.exe"@
    ||| l == "wmic.exe"@
    ||| l == "msiexec.exe"@
    ||| l == "schtasks.exe"@
    ||| l == "bitsadmin.exe"@
    ||| l == "certutil.exe"@
    ||| l == "forfiles.exe"@
    ||| l == "installutil.exe"@
}

pub fn is_suspicious_execution_name(value: &str) -> (r: bool)
    ensures
        r == suspicious_execution_text(value@),
{
    let lv = lower_of(value);
    let l = lv.as_slice();
    eq_str(l, "powershell.exe") || eq_str(l, "pwsh.exe") || eq_str(l, "cmd.exe") || eq_str(
        l,
        "wscript.exe",
    ) || eq_str(l, "cscript.exe") || eq_str(l, "mshta.exe") || eq_str(l, "rundll32.exe")
        || eq_str(l, "regsvr32.exe") || eq_str(l, "wmic.exe") || eq_str(l, "msiexec.exe")
        || eq_str(l, "schtasks.exe") || eq_str(l, "bitsadmin.exe") || eq_str(l, "certutil.exe")
        || eq_str(l, "forfiles.exe") || eq_str(l, "installutil.exe")
}

/// The application id of a jump list: its file name, lower-cased, without the
/// jump-list suffix.
pub open spec fn jump_list_id(v: Seq<char>) -> Option<Seq<char>> {
    match file_name_of(v) {
        Some(n) => {
            let l = lower(n);
            let a = ".automaticdestinations-ms"@;
            let c = ".customdestinations-ms"@;
            if ends_with(l, a) {
                Some(l.subrange(0, l.len() - a.len()))
            } else if ends_with(l, c) {
                Some(l.subrange(0, l.len() - c.len()))
            } else {
                None
            }
        },
        None => None,
    }
}

pub fn jump_list_app_id(value: &str) -> (r: Option<String>)
    ensures
        opt_view(r) == jump_list_id(value@),
{
    let v = chars_of(value);
    let n = match file_name_chars(v.as_slice()) {
        Some(n) => n,
        None => {
            return None;
        },
    };
    let l = lower_chars(n.as_slice());
    let a = chars_of(".automaticdestinations-ms");
    let c = chars_of(".customdestinations-ms");
    if ends_with_str(l.as_slice(), ".automaticdestinations-ms") {
        let head = slice_to_vec(l.as_slice(), 0, l.len() - a.len());
        Some(string_from(head.as_slice()))
    } else if ends_with_str(l.as_slice(), ".customdestinations-ms") {
        let head = slice_to_vec(l.as_slice(), 0, l.len() - c.len());
        Some(string_from(head.as_slice()))
    } else {
        None
    }
}

// ---------------------------------------------------------------------------
// Addresses
// ---------------------------------------------------------------------------
/// One to three decimal digits worth at most 255.
pub open spec fn octet_text(p: Seq<char>) -> bool {
    p.len() > 0 && p.len() <= 3 && all_digits(p) && decimal_value(p) <= 255
}

/// Four octets separated by dots.
pub open spec fn ipv4_text(v: Seq<char>) -> bool {
    let ps = fields(v, false, seq!['.']);
    ps.len() == 4 && (forall|k: int| 0 <= k < 4 ==> octet_text(#[trigger] ps[k]))
}

fn octet_chars(p: &[char]) -> (r: bool)
    ensures
        r == octet_text(p@),
{
    if p.len() == 0 || p.len() > 3 {
        return false;
    }
    match parse_i64(p) {
        Some(v) => {
            let d = all_digits_chars(p);
            proof {
                if d {
                    assert(p@[0] != '+' && p@[0] != '-');
                }
            }
            d && v <= 255
        },
        None => {
            proof {
                if all_digits(p@) {
                    assert(p@[0] != '+' && p@[0] != '-');
                    crate::text::lemma_decimal_value_nonneg(p@);
                    lemma_small_decimal(p@);
                }
            }
            false
        },
    }
}

proof fn lemma_small_decimal(p: Seq<char>)
    requires
        p.len() <= 3,
        all_digits(p),
    ensures
        decimal_value(p) <= (if p.len() == 0 {
            0int
        } else if p.len() == 1 {
            9int
        } else if p.len() == 2 {
            99int
        } else {
            999int
        }),
    decreases p.len(),
{
    if p.len() > 0 {
        assert(all_digits(p.drop_last())) by {
            assert forall|k: int| 0 <= k < p.drop_last().len() implies crate::text::is_ascii_digit(
                #[trigger] p.drop_last()[k],
            ) by {
                assert(p.drop_last()[k] == p[k]);
            }
        }
        lemma_small_decimal(p.drop_last());
        assert(crate::text::is_ascii_digit(p[p.len() - 1]));
    }
}

pub(crate) fn all_digits_chars(p: &[char]) -> (r: bool)
    ensures
        r == all_digits(p@),
{
    let mut i: usize = 0;
    while i < p.len()
        invariant
            i <= p.len(),
            forall|k: int| 0 <= k < i ==> crate::text::is_ascii_digit(#[trigger] p@[k]),
        decreases p.len() - i,
    {
        if !char_is_ascii_digit(p[i]) {
            return false;
        }
        i = i + 1;
    }
    true
}

pub(crate) fn ipv4_chars(v: &[char]) -> (r: bool)
    ensures
        r == ipv4_text(v@),
{
    let dot = ['.'];
    assert(dot@ =~= seq!['.']);
    let parts = fields_of(v, false, &dot);
    if parts.len() != 4 {
        return false;
    }
    let ghost ps = vviews(parts@);
    let mut i: usize = 0;
    while i < 4
        invariant
            i <= 4,
            parts@.len() == 4,
            ps == vviews(parts@),
            ps == fields(v@, false, seq!['.']),
            forall|k: int| 0 <= k < i ==> octet_text(#[trigger] ps[k]),
        decreases 4 - i,
    {
        assert(ps[i as int] == parts@[i as int]@);
        if !octet_chars(parts[i].as_slice()) {
            return false;
        }
        i = i + 1;
    }
    true
}

pub fn looks_like_ipv4(value: &str) -> (r: bool)
    ensures
        r == ipv4_text(value@),
{
    let v = chars_of(value);
    ipv4_chars(v.as_slice())
}

/// A label of a host name: letters, digits and hyphens, not empty.
pub open spec fn host_label(p: Seq<char>) -> bool {
    p.len() > 0 && (forall|k: int| 0 <= k < p.len() ==> (is_ascii_alnum(#[trigger] p[k]) || p[k]
        == '-'))
}

pub open spec fn all_alpha(p: Seq<char>) -> bool {
    forall|k: int| 0 <= k < p.len() ==> is_ascii_alpha(#[trigger] p[k])
}

/// The text after the last `.`, or none.
pub open spec fn last_label(l: Seq<char>) -> Option<Seq<char>> {
    let k = rfind_sep(l, seq!['.'], l.len() as int);
    if k < 0 {
        None
    } else {
        Some(l.subrange(k + 1, l.len() as int))
    }
}

/// The shape of a lower-cased host name apart from its labels: at least four
/// characters, no `\\`, no `.` at either end, not an executable name, and a
/// top-level label of two to 24 letters.
pub open spec fn domain_shape(l: Seq<char>) -> bool {
    &&& l.len() >= 4
    &&& !l.contains('\\')
    &&& !starts_with(l, "."@)
    &&& !ends_with(l, "."@)
    &&& !exec_name(l)
    &&& match last_label(l) {
        Some(tld) => 2 <= tld.len() <= 24 && all_alpha(tld),
        None => false,
    }
}

/// A host name: the shape above, and labels of letters, digits and hyphens.
pub open spec fn domain_text(v: Seq<char>) -> bool {
    let l = lower(v);
    &&& domain_shape(l)
    &&& forall|k: int|
        0 <= k < fields(l, false, seq!['.']).len() ==> host_label(
            #[trigger] fields(l, false, seq!['.'])[k],
        )
}

pub(crate) fn host_label_chars(p: &[char]) -> (r: bool)
    ensures
        r == host_label(p@),
{
    if p.len() == 0 {
        return false;
    }
    let mut i: usize = 0;
    while i < p.len()
        invariant
            i <= p.len(),
            forall|k: int| 0 <= k < i ==> (is_ascii_alnum(#[trigger] p@[k]) || p@[k] == '-'),
        decreases p.len() - i,
    {
        if !(char_is_ascii_alnum(p[i]) || p[i] == '-') {
            return false;
        }
        i = i + 1;
    }
    true
}

fn all_alpha_chars(p: &[char]) -> (r: bool)
    ensures
        r == all_alpha(p@),
{
    let mut i: usize = 0;
    while i < p.len()
        invariant
            i <= p.len(),
            forall|k: int| 0 <= k < i ==> is_ascii_alpha(#[trigger] p@[k]),
        decreases p.len() - i,
    {
        if !char_is_ascii_alpha(p[i]) {
            return false;
        }
        i = i + 1;
    }
    true
}

pub(crate) fn domain_chars(v: &[char]) -> (r: bool)
    ensures
        r == domain_text(v@),
{
    let lv = lower_chars(v);
    let l = lv.as_slice();
    if l.len() < 4 || contains_char_exec(l, '\\') || starts_with_str(l, ".") || ends_with_str(
        l,
        ".",
    ) || exec_name_chars(l) {
        return false;
    }
    let dot = ['.'];
    assert(dot@ =~= seq!['.']);
    match rfind_sep_exec(l, &dot, l.len()) {
        None => {
            return false;
        },
        Some(k) => {
            let tld = slice_to_vec(l, k + 1, l.len());
            if tld.len() < 2 || tld.len() > 24 || !all_alpha_chars(tld.as_slice()) {
                return false;
            }
        },
    }
    let parts = fields_of(l, false, &dot);
    let ghost ps = vviews(parts@);
    let mut i: usize = 0;
    while i < parts.len()
        invariant
            i <= parts.len(),
            ps == vviews(parts@),
            ps == fields(l@, false, seq!['.']),
            l@ == lower(v@),
            domain_shape(l@),
            forall|k: int| 0 <= k < i ==> host_label(#[trigger] ps[k]),
        decreases parts.len() - i,
    {
        assert(ps[i as int] == parts@[i as int]@);
        if !host_label_chars(parts[i].as_slice()) {
            return false;
        }
        i = i + 1;
    }
    true
}

/// Whether a value is a host name. (A dotted-decimal address is never one: its
/// last label is not alphabetic.)
pub fn looks_like_domain(value: &str) -> (r: bool)
    ensures
        r == domain_text(value@),
{
    let v = chars_of(value);
    domain_chars(v.as_slice())
}

/// A domain that says nothing about an incident.
pub open spec fn network_noise(d: Seq<char>) -> bool {
    let l = lower(d);
    l == "w3.org"@ || l == "example.com"@ || l == "example.net"@ || l == "example.org"@
}

pub fn is_common_network_noise(domain: &str) -> (r: bool)
    ensures
        r == network_noise(domain@),
{
    let lv = lower_of(domain);
    let l = lv.as_slice();
    eq_str(l, "w3.org") || eq_str(l, "example.com") || eq_str(l, "example.net") || eq_str(
        l,
        "example.org",
    )
}

// ---------------------------------------------------------------------------
// Picking indicators out of a message
// ---------------------------------------------------------------------------
/// Quotes and brackets around a token.
pub open spec fn token_punct() -> Seq<char> {
    seq!['"', '\'', '<', '>', '(', ')', '[', ']', ',', ';']
}

/// Where a message is cut into tokens, besides white space.
pub open spec fn token_breaks() -> Seq<char> {
    seq!['"', '\'', '<', '>', '(', ')', '[', ']', ',', ';', '\0']
}

fn token_punct_chars() -> (r: [char; 10])
    ensures
        r@ == token_punct(),
{
    let r = ['"', '\'', '<', '>', '(', ')', '[', ']', ',', ';'];
    assert(r@ =~= token_punct());
    r
}

pub(crate) fn token_break_chars() -> (r: [char; 11])
    ensures
        r@ == token_breaks(),
{
    let r = ['"', '\'', '<', '>', '(', ')', '[', ']', ',', ';', '\0'];
    assert(r@ =~= token_breaks());
    r
}

/// The tokens of a message: cut at white space, quotes, brackets, `,`, `;`
/// and NUL, empty ones included.
pub open spec fn tokens(s: Seq<char>) -> Seq<Seq<char>> {
    fields(s, true, token_breaks())
}

pub open spec fn url_of_word(w: Seq<char>) -> Option<Seq<char>> {
    let t = trim_set(w, token_punct());
    if url_text(t) {
        Some(t)
    } else {
        None
    }
}

pub open spec fn url_of_word_fn() -> spec_fn(Seq<char>) -> Option<Seq<char>> {
    |w: Seq<char>| url_of_word(w)
}

/// The first white-space separated word that, stripped of quotes and
/// brackets, is a URL.
pub open spec fn url_like(text: Seq<char>) -> Option<Seq<char>> {
    first_some(words(text), url_of_word_fn())
}

pub(crate) fn url_like_chars(text: &[char]) -> (r: Option<Vec<char>>)
    ensures
        match r {
            Some(v) => url_like(text@) == Some(v@),
            None => url_like(text@) is None,
        },
{
    let parts = words_of(text);
    let punct = token_punct_chars();
    let ghost ps = vviews(parts@);
    proof {
        lemma_first_some_ends(ps, url_of_word_fn());
    }
    let mut i: usize = 0;
    while i < parts.len()
        invariant
            i <= parts.len(),
            ps == vviews(parts@),
            ps == words(text@),
            punct@ == token_punct(),
            url_like(text@) == first_some(ps.subrange(i as int, ps.len() as int), url_of_word_fn()),
        decreases parts.len() - i,
    {
        proof {
            lemma_first_some_step(ps, url_of_word_fn(), i as int);
        }
        assert(ps[i as int] == parts@[i as int]@);
        let t = trim_set_chars(parts[i].as_slice(), &punct);
        if url_text_chars(t.as_slice()) {
            return Some(t);
        }
        i = i + 1;
    }
    proof {
        lemma_first_some_ends(ps, url_of_word_fn());
    }
    None
}

/// The first URL in a text.
pub fn extract_url_like(text: &str) -> (r: Option<String>)
    ensures
        opt_view(r) == url_like(text@),
{
    let v = chars_of(text);
    match url_like_chars(v.as_slice()) {
        Some(u) => Some(string_from(u.as_slice())),
        None => None,
    }
}

/// What is trimmed off a token before it is read as a host.
pub open spec fn host_punct() -> Seq<char> {
    seq!['"', '\'', '<', '>', '(', ')', '[', ']', ',', ';', ':', '/']
}

/// A token without an `http://`, `https://` or `ftp://` prefix, up to the first
/// `/`, `:`, `?` or `#`.
pub open spec fn host_part(p: Seq<char>) -> Seq<char> {
    let rest = if starts_with(p, "http://"@) {
        p.subrange("http://"@.len() as int, p.len() as int)
    } else if starts_with(p, "https://"@) {
        p.subrange("https://"@.len() as int, p.len() as int)
    } else if starts_with(p, "ftp://"@) {
        p.subrange("ftp://"@.len() as int, p.len() as int)
    } else {
        p
    };
    first_segment(rest, seq!['/', ':', '?', '#'])
}

pub open spec fn domain_of_token(tok: Seq<char>) -> Option<Seq<char>> {
    let p = trim_set(tok, host_punct());
    let h = host_part(p);
    if domain_text(h) {
        Some(h)
    } else if domain_text(p) {
        Some(p)
    } else {
        None
    }
}

pub open spec fn domain_of_token_fn() -> spec_fn(Seq<char>) -> Option<Seq<char>> {
    |w: Seq<char>| domain_of_token(w)
}

/// The first token that names a host, with any URL scheme and path removed.
pub open spec fn domain_like(text: Seq<char>) -> Option<Seq<char>> {
    first_some(tokens(text), domain_of_token_fn())
}

fn host_part_chars(p: &[char]) -> (r: Vec<char>)
    ensures
        r@ == host_part(p@),
{
    let http = chars_of("http://");
    let https = chars_of("https://");
    let ftp = chars_of("ftp://");
    let rest = if starts_with_str(p, "http://") {
        slice_to_vec(p, http.len(), p.len())
    } else if starts_with_str(p, "https://") {
        slice_to_vec(p, https.len(), p.len())
    } else if starts_with_str(p, "ftp://") {
        slice_to_vec(p, ftp.len(), p.len())
    } else {
        slice_to_vec(p, 0, p.len())
    };
    assert(p@.subrange(0, p@.len() as int) =~= p@);
    let stops = ['/', ':', '?', '#'];
    assert(stops@ =~= seq!['/', ':', '?', '#']);
    first_segment_of(rest.as_slice(), &stops)
}

fn host_punct_chars() -> (r: [char; 12])
    ensures
        r@ == host_punct(),
{
    let r = ['"', '\'', '<', '>', '(', ')', '[', ']', ',', ';', ':', '/'];
    assert(r@ =~= host_punct());
    r
}

pub(crate) fn domain_like_chars(text: &[char]) -> (r: Option<Vec<char>>)
    ensures
        match r {
            Some(v) => domain_like(text@) == Some(v@),
            None => domain_like(text@) is None,
        },
{
    let breaks = token_break_chars();
    let parts = fields_of(text, true, &breaks);
    let punct = host_punct_chars();
    let ghost ps = vviews(parts@);
    proof {
        lemma_first_some_ends(ps, domain_of_token_fn());
    }
    let mut i: usize = 0;
    while i < parts.len()
        invariant
            i <= parts.len(),
            ps == vviews(parts@),
            ps == tokens(text@),
            punct@ == host_punct(),
            domain_like(text@) == first_some(
                ps.subrange(i as int, ps.len() as int),
                domain_of_token_fn(),
            ),
        decreases parts.len() - i,
    {
        proof {
            lemma_first_some_step(ps, domain_of_token_fn(), i as int);
        }
        assert(ps[i as int] == parts@[i as int]@);
        let p = trim_set_chars(parts[i].as_slice(), &punct);
        let h = host_part_chars(p.as_slice());
        if domain_chars(h.as_slice()) {
            return Some(h);
        }
        if domain_chars(p.as_slice()) {
            return Some(p);
        }
        i = i + 1;
    }
    proof {
        lemma_first_some_ends(ps, domain_of_token_fn());
    }
    None
}

/// The first host name in a text.
pub fn extract_domain_like(text: &str) -> (r: Option<String>)
    ensures
        opt_view(r) == domain_like(text@),
{
    let v = chars_of(text);
    match domain_like_chars(v.as_slice()) {
        Some(d) => Some(string_from(d.as_slice())),
        None => None,
    }
}

pub open spec fn ipv4_chars_set() -> Seq<char> {
    seq!['0', '1', '2', '3', '4', '5', '6', '7', '8', '9', '.']
}

pub open spec fn ipv4_of_token(tok: Seq<char>) -> Option<Seq<char>> {
    let p = trim_outside(tok, ipv4_chars_set());
    if ipv4_text(p) {
        Some(p)
    } else {
        None
    }
}

pub open spec fn ipv4_of_token_fn() -> spec_fn(Seq<char>) -> Option<Seq<char>> {
    |w: Seq<char>| ipv4_of_token(w)
}

/// The first token that, stripped of what is not a digit or a dot, is an
/// IPv4 address.
pub open spec fn ipv4_like(text: Seq<char>) -> Option<Seq<char>> {
    first_some(tokens(text), ipv4_of_token_fn())
}

pub(crate) fn ipv4_like_chars(text: &[char]) -> (r: Option<Vec<char>>)
    ensures
        match r {
            Some(v) => ipv4_like(text@) == Some(v@),
            None => ipv4_like(text@) is None,
        },
{
    let breaks = token_break_chars();
    let parts = fields_of(text, true, &breaks);
    let keep = ['0', '1', '2', '3', '4', '5', '6', '7', '8', '9', '.'];
    assert(keep@ =~= ipv4_chars_set());
    let ghost ps = vviews(parts@);
    proof {
        lemma_first_some_ends(ps, ipv4_of_token_fn());
    }
    let mut i: usize = 0;
    while i < parts.len()
        invariant
            i <= parts.len(),
            ps == vviews(parts@),
            ps == tokens(text@),
            keep@ == ipv4_chars_set(),
            ipv4_like(text@) == first_some(ps.subrange(i as int, ps.len() as int), ipv4_of_token_fn()),
        decreases parts.len() - i,
    {
        proof {
            lemma_first_some_step(ps, ipv4_of_token_fn(), i as int);
        }
        assert(ps[i as int] == parts@[i as int]@);
        let p = trim_outside_chars(parts[i].as_slice(), &keep);
        if ipv4_chars(p.as_slice()) {
            return Some(p);
        }
        i = i + 1;
    }
    proof {
        lemma_first_some_ends(ps, ipv4_of_token_fn());
    }
    None
}

/// The first IPv4 address in a text.
pub fn extract_ipv4_like(text: &str) -> (r: Option<String>)
    ensures
        opt_view(r) == ipv4_like(text@),
{
    let v = chars_of(text);
    match ipv4_like_chars(v.as_slice()) {
        Some(d) => Some(string_from(d.as_slice())),
        None => None,
    }
}

// ---------------------------------------------------------------------------
// Hashes, processes and paths in a message
// ---------------------------------------------------------------------------
pub open spec fn hex_set() -> Seq<char> {
    seq![
        '0',
        '1',
        '2',
        '3',
        '4',
        '5',
        '6',
        '7',
        '8',
        '9',
        'a',
        'b',
        'c',
        'd',
        'e',
        'f',
        'A',
        'B',
        'C',
        'D',
        'E',
        'F',
    ]
}

pub open spec fn hash_of_word(w: Seq<char>) -> Option<Seq<char>> {
    let t = trim_outside(w, hex_set());
    if hex_digest(t) {
        Some(t)
    } else {
        None
    }
}

pub open spec fn hash_of_word_fn() -> spec_fn(Seq<char>) -> Option<Seq<char>> {
    |w: Seq<char>| hash_of_word(w)
}

pub open spec fn hash_labels() -> Seq<Seq<char>> {
    seq!["SHA256"@, "SHA1"@, "MD5"@, "Hash"@]
}

/// A labelled hash, or the first word that, stripped of what is not
/// hexadecimal, is a digest.
pub open spec fn hash_like(m: Seq<char>) -> Option<Seq<char>> {
    match first_label_value(m, hash_labels()) {
        Some(v) => Some(v),
        None => first_some(words(m), hash_of_word_fn()),
    }
}

fn hex_set_chars() -> (r: [char; 22])
    ensures
        r@ == hex_set(),
{
    let r = [
        '0',
        '1',
        '2',
        '3',
        '4',
        '5',
        '6',
        '7',
        '8',
        '9',
        'a',
        'b',
        'c',
        'd',
        'e',
        'f',
        'A',
        'B',
        'C',
        'D',
        'E',
        'F',
    ];
    assert(r@ =~= hex_set());
    r
}

pub(crate) fn hash_like_chars(m: &[char]) -> (r: Option<Vec<char>>)
    ensures
        match r {
            Some(v) => hash_like(m@) == Some(v@),
            None => hash_like(m@) is None,
        },
{
    let labels = ["SHA256", "SHA1", "MD5", "Hash"];
    assert(views(labels@) =~= hash_labels());
    match first_label_value_exec(m, &labels) {
        Some(v) => {
            return Some(v);
        },
        None => {},
    }
    let parts = words_of(m);
    let keep = hex_set_chars();
    let ghost ps = vviews(parts@);
    proof {
        lemma_first_some_ends(ps, hash_of_word_fn());
    }
    let mut i: usize = 0;
    while i < parts.len()
        invariant
            i <= parts.len(),
            ps == vviews(parts@),
            ps == words(m@),
            keep@ == hex_set(),
            first_label_value(m@, hash_labels()) is None,
            first_some(words(m@), hash_of_word_fn()) == first_some(
                ps.subrange(i as int, ps.len() as int),
                hash_of_word_fn(),
            ),
        decreases parts.len() - i,
    {
        proof {
            lemma_first_some_step(ps, hash_of_word_fn(), i as int);
        }
        assert(ps[i as int] == parts@[i as int]@);
        let t = trim_outside_chars(parts[i].as_slice(), &keep);
        if hex_digest_chars(t.as_slice()) {
            return Some(t);
        }
        i = i + 1;
    }
    proof {
        lemma_first_some_ends(ps, hash_of_word_fn());
    }
    None
}

/// The first hash in a message: labelled, or a bare MD5, SHA-1 or SHA-256.
pub fn extract_hash_like(message: &str) -> (r: Option<String>)
    ensures
        opt_view(r) == hash_like(message@),
{
    let v = chars_of(message);
    match hash_like_chars(v.as_slice()) {
        Some(h) => Some(string_from(h.as_slice())),
        None => None,
    }
}

pub open spec fn process_labels() -> Seq<Seq<char>> {
    seq![
        "Process Name"@,
        "ProcessName"@,
        "Image"@,
        "Executable"@,
        "ExecutableName"@,
        "ProgramName"@,
    ]
}

/// The file name of a path, or the value itself when it has none.
pub open spec fn name_or_self(v: Seq<char>) -> Seq<char> {
    match file_name_of(v) {
        Some(n) => n,
        None => v,
    }
}

pub open spec fn process_of_token(t: Seq<char>) -> Option<Seq<char>> {
    if exec_name(t) {
        Some(name_or_self(t))
    } else {
        None
    }
}

pub open spec fn process_of_token_fn() -> spec_fn(Seq<char>) -> Option<Seq<char>> {
    |w: Seq<char>| process_of_token(w)
}

/// A labelled process, or the first executable token, as a file name.
pub open spec fn process_like(m: Seq<char>) -> Option<Seq<char>> {
    match first_label_value(m, process_labels()) {
        Some(v) => Some(name_or_self(v)),
        None => first_some(tokens(m), process_of_token_fn()),
    }
}

fn name_or_self_chars(v: Vec<char>) -> (r: Vec<char>)
    ensures
        r@ == name_or_self(v@),
{
    match file_name_chars(v.as_slice()) {
        Some(n) => n,
        None => v,
    }
}

pub(crate) fn process_like_chars(m: &[char]) -> (r: Option<Vec<char>>)
    ensures
        match r {
            Some(v) => process_like(m@) == Some(v@),
            None => process_like(m@) is None,
        },
{
    let labels = ["Process Name", "ProcessName", "Image", "Executable", "ExecutableName", "ProgramName"];
    assert(views(labels@) =~= process_labels());
    match first_label_value_exec(m, &labels) {
        Some(v) => {
            return Some(name_or_self_chars(v));
        },
        None => {},
    }
    let breaks = token_break_chars();
    let parts = fields_of(m, true, &breaks);
    let ghost ps = vviews(parts@);
    proof {
        lemma_first_some_ends(ps, process_of_token_fn());
    }
    let mut i: usize = 0;
    while i < parts.len()
        invariant
            i <= parts.len(),
            ps == vviews(parts@),
            ps == tokens(m@),
            first_label_value(m@, process_labels()) is None,
            first_some(tokens(m@), process_of_token_fn()) == first_some(
                ps.subrange(i as int, ps.len() as int),
                process_of_token_fn(),
            ),
        decreases parts.len() - i,
    {
        proof {
            lemma_first_some_step(ps, process_of_token_fn(), i as int);
        }
        assert(ps[i as int] == parts@[i as int]@);
        if exec_name_chars(parts[i].as_slice()) {
            let t = slice_to_vec(parts[i].as_slice(), 0, parts[i].len());
            assert(t@ =~= parts@[i as int]@);
            return Some(name_or_self_chars(t));
        }
        i = i + 1;
    }
    proof {
        lemma_first_some_ends(ps, process_of_token_fn());
    }
    None
}

/// The first process named in a message, as a file name.
pub fn extract_process_name_like(message: &str) -> (r: Option<String>)
    ensures
        opt_view(r) == process_like(message@),
{
    let v = chars_of(message);
    match process_like_chars(v.as_slice()) {
        Some(p) => Some(string_from(p.as_slice())),
        None => None,
    }
}

/// What is trimmed off a token before it is read as a path.
pub open spec fn path_trim_set() -> Seq<char> {
    seq!['"', '\'', ',', ';', ':', ')', ']']
}

pub open spec fn executable_suffixes() -> Seq<Seq<char>> {
    seq![
        ".exe"@,
        ".dll"@,
        ".sys"@,
        ".ps1"@,
        ".bat"@,
        ".cmd"@,
        ".vbs"@,
        ".js"@,
        ".scr"@,
        ".lnk"@,
    ]
}

/// `t` cut after the first suffix of `sfx` (in the order given) that occurs in
/// `l`, cleaned.
pub open spec fn cut_at_suffix(t: Seq<char>, l: Seq<char>, sfx: Seq<Seq<char>>) -> Option<Seq<char>>
    decreases sfx.len(),
{
    if sfx.len() == 0 {
        clean(t)
    } else {
        match find(l, sfx[0]) {
            Some(off) => clean(t.subrange(0, off + sfx[0].len())),
            None => cut_at_suffix(t, l, sfx.drop_first()),
        }
    }
}

/// A token read as a path: trimmed, and cut after an executable suffix.
pub open spec fn path_candidate(v: Seq<char>) -> Option<Seq<char>> {
    let t = trim_set(v, path_trim_set());
    if !path_text(t) {
        None
    } else {
        cut_at_suffix(t, lower(t), executable_suffixes())
    }
}

pub open spec fn path_candidate_fn() -> spec_fn(Seq<char>) -> Option<Seq<char>> {
    |w: Seq<char>| path_candidate(w)
}

/// The first token of a message that reads as a path.
pub open spec fn first_path(m: Seq<char>) -> Option<Seq<char>> {
    first_some(tokens(m), path_candidate_fn())
}

pub open spec fn path_labels() -> Seq<Seq<char>> {
    seq!["Path"@, "File"@, "Resource"@, "Resources"@]
}

/// The first path in a labelled value, else the first path in the message.
pub open spec fn path_like(m: Seq<char>) -> Option<Seq<char>> {
    match first_label_value(m, path_labels()) {
        Some(v) => match first_path(v) {
            Some(p) => Some(p),
            None => first_path(m),
        },
        None => first_path(m),
    }
}

pub(crate) fn path_candidate_chars(v: &[char]) -> (r: Option<Vec<char>>)
    ensures
        match r {
            Some(p) => path_candidate(v@) == Some(p@),
            None => path_candidate(v@) is None,
        },
{
    let trims = [
        '"',
        '\'',
        ',',
        ';',
        ':',
        ')',
        ']',
    ];
    assert(trims@ =~= path_trim_set());
    let t = trim_set_chars(v, &trims);
    if !path_text_chars(t.as_slice()) {
        return None;
    }
    let l = lower_chars(t.as_slice());
    let sfx = [".exe", ".dll", ".sys", ".ps1", ".bat", ".cmd", ".vbs", ".js", ".scr", ".lnk"];
    assert(views(sfx@) =~= executable_suffixes());
    let mut i: usize = 0;
    assert(views(sfx@).subrange(0, 10) =~= views(sfx@));
    while i < 10
        invariant
            i <= 10,
            views(sfx@) == executable_suffixes(),
            l@ == lower(t@),
            t@ == trim_set(v@, path_trim_set()),
            path_text(t@),
            cut_at_suffix(t@, l@, executable_suffixes()) == cut_at_suffix(
                t@,
                l@,
                views(sfx@).subrange(i as int, 10),
            ),
        decreases 10 - i,
    {
        let ghost rest = views(sfx@).subrange(i as int, 10);
        assert(rest[0] == sfx@[i as int]@);
        assert(rest.drop_first() =~= views(sfx@).subrange(i + 1, 10));
        match find_str(l.as_slice(), sfx[i]) {
            Some(off) => {
                let sv = chars_of(sfx[i]);
                assert(lower(t@).len() == t@.len());
                let head = slice_to_vec(t.as_slice(), 0, off + sv.len());
                return crate::decode::clean_chars(head.as_slice());
            },
            None => {},
        }
        i = i + 1;
    }
    assert(views(sfx@).subrange(10, 10).len() == 0);
    clean_chars(t.as_slice())
}

pub(crate) fn first_path_chars(m: &[char]) -> (r: Option<Vec<char>>)
    ensures
        match r {
            Some(v) => first_path(m@) == Some(v@),
            None => first_path(m@) is None,
        },
{
    let breaks = token_break_chars();
    let parts = fields_of(m, true, &breaks);
    let ghost ps = vviews(parts@);
    proof {
        lemma_first_some_ends(ps, path_candidate_fn());
    }
    let mut i: usize = 0;
    while i < parts.len()
        invariant
            i <= parts.len(),
            ps == vviews(parts@),
            ps == tokens(m@),
            first_path(m@) == first_some(ps.subrange(i as int, ps.len() as int), path_candidate_fn()),
        decreases parts.len() - i,
    {
        proof {
            lemma_first_some_step(ps, path_candidate_fn(), i as int);
        }
        assert(ps[i as int] == parts@[i as int]@);
        match path_candidate_chars(parts[i].as_slice()) {
            Some(p) => {
                return Some(p);
            },
            None => {},
        }
        i = i + 1;
    }
    proof {
        lemma_first_some_ends(ps, path_candidate_fn());
    }
    None
}

pub(crate) fn path_like_chars(m: &[char]) -> (r: Option<Vec<char>>)
    ensures
        match r {
            Some(v) => path_like(m@) == Some(v@),
            None => path_like(m@) is None,
        },
{
    let labels = ["Path", "File", "Resource", "Resources"];
    assert(views(labels@) =~= path_labels());
    match first_label_value_exec(m, &labels) {
        Some(v) => match first_path_chars(v.as_slice()) {
            Some(p) => Some(p),
            None => first_path_chars(m),
        },
        None => first_path_chars(m),
    }
}

/// The first path in a message, preferring the value of a path label.
pub fn extract_path_like(message: &str) -> (r: Option<String>)
    ensures
        opt_view(r) == path_like(message@),
{
    let v = chars_of(message);
    match path_like_chars(v.as_slice()) {
        Some(p) => Some(string_from(p.as_slice())),
        None => None,
    }
}

} // verus!
