//! Signals in strings carved from network captures: request lines, host
//! headers, paths, domains, and the summary of one string as a signal.
use vstd::prelude::*;
use crate::artifact::{file_name_chars, file_name_of};
use crate::decode::{opt_view, split_once, split_once_exec};
use crate::extract::{
    domain_chars, domain_like, domain_like_chars, domain_text, exec_name, exec_name_chars,
    hash_like, hash_like_chars, ipv4_like, ipv4_like_chars, last_label, network_noise, path_like,
    path_like_chars, process_like, process_like_chars, url_like, url_like_chars,
};
use crate::text::{
    chars_of, contains, contains_str, eq_str, lower, lower_chars, rfind_sep_exec, slice_to_vec,
    starts_with, starts_with_str, string_from, trim, trim_chars, trim_set, trim_set_chars, upper,
    upper_chars, utf8_len, utf8_len_of, vviews, words, words_of,
};

verus! {

// ---------------------------------------------------------------------------
// Request lines and headers
// ---------------------------------------------------------------------------
/// The host of a `Host:` header line, when it is a host name.
pub open spec fn http_host(v: Seq<char>) -> Option<Seq<char>> {
    if !starts_with(lower(v), "host:"@) {
        None
    } else {
        match split_once(v, ':') {
            Some((_, h)) => {
                let t = trim_set(trim(h), seq!['/']);
                if domain_text(t) {
                    Some(t)
                } else {
                    None
                }
            },
            None => None,
        }
    }
}

pub(crate) fn http_host_chars(v: &[char]) -> (r: Option<Vec<char>>)
    ensures
        match r {
            Some(h) => http_host(v@) == Some(h@),
            None => http_host(v@) is None,
        },
{
    let l = lower_chars(v);
    if !starts_with_str(l.as_slice(), "host:") {
        return None;
    }
    match split_once_exec(v, ':') {
        Some((_, h)) => {
            let t0 = trim_chars(h.as_slice());
            let slash = ['/'];
            assert(slash@ =~= seq!['/']);
            let t = trim_set_chars(t0.as_slice(), &slash);
            if domain_chars(t.as_slice()) {
                Some(t)
            } else {
                None
            }
        },
        None => None,
    }
}

/// The host named by a `Host:` header line.
pub fn extract_http_host(value: &str) -> (r: Option<String>)
    ensures
        opt_view(r) == http_host(value@),
{
    let v = chars_of(value);
    match http_host_chars(v.as_slice()) {
        Some(h) => Some(string_from(h.as_slice())),
        None => None,
    }
}

/// A request method that starts an HTTP request line.
pub open spec fn request_method(w: Seq<char>) -> bool {
    let u = upper(w);
    ||| u == "GET"@
    ||| u == "POST"@
    ||| u == "PUT"@
    ||| u == "DELETE"@
    ||| u == "HEAD"@
    ||| u == "OPTIONS"@
    ||| u == "CONNECT"@
}

/// The path of an HTTP request line: the word after the method, when it is
/// between two and 699 bytes long.
pub open spec fn request_path(v: Seq<char>) -> Option<Seq<char>> {
    let ws = words(v);
    if ws.len() == 0 || !request_method(ws[0]) || ws.len() < 2 {
        None
    } else {
        let p = trim(ws[1]);
        if utf8_len(p) > 1 && utf8_len(p) < 700 {
            Some(p)
        } else {
            None
        }
    }
}

pub(crate) fn request_path_chars(v: &[char]) -> (r: Option<Vec<char>>)
    ensures
        match r {
            Some(p) => request_path(v@) == Some(p@),
            None => request_path(v@) is None,
        },
{
    let ws = words_of(v);
    if ws.len() == 0 {
        return None;
    }
    assert(vviews(ws@)[0] == ws@[0]@);
    let u = upper_chars(ws[0].as_slice());
    let u = u.as_slice();
    if !(eq_str(u, "GET") || eq_str(u, "POST") || eq_str(u, "PUT") || eq_str(u, "DELETE")
        || eq_str(u, "HEAD") || eq_str(u, "OPTIONS") || eq_str(u, "CONNECT")) {
        return None;
    }
    if ws.len() < 2 {
        return None;
    }
    assert(vviews(ws@)[1] == ws@[1]@);
    let p = trim_chars(ws[1].as_slice());
    let n = utf8_len_of(p.as_slice());
    if n > 1 && n < 700 {
        Some(p)
    } else {
        None
    }
}

/// The path requested by an HTTP request line.
pub fn extract_http_request_path(value: &str) -> (r: Option<String>)
    ensures
        opt_view(r) == request_path(value@),
{
    let v = chars_of(value);
    match request_path_chars(v.as_slice()) {
        Some(p) => Some(string_from(p.as_slice())),
        None => None,
    }
}

// ---------------------------------------------------------------------------
// Which findings count
// ---------------------------------------------------------------------------
/// A path in a capture string (`l` is the string lower-cased) that is worth a
/// signal: a share, or a payload or user folder; never a capture device.
pub open spec fn capture_path_signal(path: Seq<char>, l: Seq<char>) -> bool {
    if contains(l, "\\device\\npf_"@) || contains(l, "/device/npf_"@) {
        false
    } else {
        ||| starts_with(path, "\\\\"@)
        ||| contains(l, ".exe"@)
        ||| contains(l, ".dll"@)
        ||| contains(l, ".ps1"@)
        ||| contains(l, ".zip"@)
        ||| contains(l, ".rar"@)
        ||| contains(l, ".7z"@)
        ||| contains(l, "\\users\\"@)
        ||| contains(l, "/users/"@)
        ||| contains(l, "\\downloads\\"@)
        ||| contains(l, "/downloads/"@)
        ||| contains(l, "\\temp\\"@)
        ||| contains(l, "/temp/"@)
        ||| contains(l, "\\appdata\\"@)
        ||| contains(l, "/appdata/"@)
        ||| contains(l, "\\programdata\\"@)
        ||| contains(l, "/programdata/"@)
    }
}

pub(crate) fn capture_path_signal_chars(path: &[char], l: &[char]) -> (r: bool)
    ensures
        r == capture_path_signal(path@, l@),
{
    if contains_str(l, "\\device\\npf_") || contains_str(l, "/device/npf_") {
        return false;
    }
    starts_with_str(path, "\\\\") || contains_str(l, ".exe") || contains_str(l, ".dll")
        || contains_str(l, ".ps1") || contains_str(l, ".zip") || contains_str(l, ".rar")
        || contains_str(l, ".7z") || contains_str(l, "\\users\\") || contains_str(l, "/users/")
        || contains_str(l, "\\downloads\\") || contains_str(l, "/downloads/") || contains_str(
        l,
        "\\temp\\",
    ) || contains_str(l, "/temp/") || contains_str(l, "\\appdata\\") || contains_str(
        l,
        "/appdata/",
    ) || contains_str(l, "\\programdata\\") || contains_str(l, "/programdata/")
}

pub fn network_capture_path_is_signal(path: &str, lower: &str) -> (r: bool)
    ensures
        r == capture_path_signal(path@, lower@),
{
    let p = chars_of(path);
    let l = chars_of(lower);
    capture_path_signal_chars(p.as_slice(), l.as_slice())
}

/// A top-level label that marks a real-looking domain.
pub open spec fn signal_tld(t: Seq<char>) -> bool {
    ||| t == "com"@
    ||| t == "net"@
    ||| t == "org"@
    ||| t == "io"@
    ||| t == "co"@
    ||| t == "biz"@
    ||| t == "info"@
    ||| t == "dev"@
    ||| t == "app"@
    ||| t == "cloud"@
    ||| t == "site"@
    ||| t == "xyz"@
    ||| t == "top"@
    ||| t == "online"@
    ||| t == "store"@
    ||| t == "ru"@
    ||| t == "cn"@
    ||| t == "uk"@
    ||| t == "de"@
    ||| t == "jp"@
    ||| t == "us"@
    ||| t == "test"@
    ||| t == "local"@
}

/// A domain in a capture string (`l` is the string lower-cased) that is worth a
/// signal: not noise, and either in a URL or host header, or at least seven
/// bytes long with a known top-level label.
pub open spec fn capture_domain_signal(d: Seq<char>, l: Seq<char>) -> bool {
    if network_noise(d) {
        false
    } else if starts_with(l, "host:"@) || contains(l, "http://"@) || contains(l, "https://"@)
        || contains(l, "ftp://"@) {
        true
    } else if utf8_len(d) < 7 {
        false
    } else {
        match last_label(lower(d)) {
            Some(tld) => signal_tld(tld),
            None => false,
        }
    }
}

fn signal_tld_chars(t: &[char]) -> (r: bool)
    ensures
        r == signal_tld(t@),
{
    eq_str(t, "com") || eq_str(t, "net") || eq_str(t, "org") || eq_str(t, "io") || eq_str(t, "co")
        || eq_str(t, "biz") || eq_str(t, "info") || eq_str(t, "dev") || eq_str(t, "app") || eq_str(
        t,
        "cloud",
    ) || eq_str(t, "site") || eq_str(t, "xyz") || eq_str(t, "top") || eq_str(t, "online")
        || eq_str(t, "store") || eq_str(t, "ru") || eq_str(t, "cn") || eq_str(t, "uk") || eq_str(
        t,
        "de",
    ) || eq_str(t, "jp") || eq_str(t, "us") || eq_str(t, "test") || eq_str(t, "local")
}

pub(crate) fn capture_domain_signal_chars(d: &[char], l: &[char]) -> (r: bool)
    ensures
        r == capture_domain_signal(d@, l@),
{
    let dl = lower_chars(d);
    let dls = dl.as_slice();
    if eq_str(dls, "w3.org") || eq_str(dls, "example.com") || eq_str(dls, "example.net") || eq_str(
        dls,
        "example.org",
    ) {
        return false;
    }
    if starts_with_str(l, "host:") || contains_str(l, "http://") || contains_str(l, "https://")
        || contains_str(l, "ftp://") {
        return true;
    }
    if utf8_len_of(d) < 7 {
        return false;
    }
    let dot = ['.'];
    assert(dot@ =~= seq!['.']);
    match rfind_sep_exec(dls, &dot, dls.len()) {
        Some(k) => {
            let tld = slice_to_vec(dls, k + 1, dls.len());
            signal_tld_chars(tld.as_slice())
        },
        None => false,
    }
}

pub fn network_capture_domain_is_signal(domain: &str, lower: &str) -> (r: bool)
    ensures
        r == capture_domain_signal(domain@, lower@),
{
    let d = chars_of(domain);
    let l = chars_of(lower);
    capture_domain_signal_chars(d.as_slice(), l.as_slice())
}

// ---------------------------------------------------------------------------
// One capture string as a signal
// ---------------------------------------------------------------------------
/// What a string carved from a network capture says.
#[derive(Debug, Clone)]
pub struct NetworkCaptureSignal {
    pub action: String,
    pub severity: String,
    pub target: String,
    pub url: Option<String>,
    pub domain: Option<String>,
    pub ip: Option<String>,
    pub file_path: Option<String>,
    pub process_name: Option<String>,
    pub hash: Option<String>,
}

/// Action, severity, target, URL, domain, IP, file path, process and hash.
pub type CaptureSignalView = (
    Seq<char>,
    Seq<char>,
    Seq<char>,
    Option<Seq<char>>,
    Option<Seq<char>>,
    Option<Seq<char>>,
    Option<Seq<char>>,
    Option<Seq<char>>,
    Option<Seq<char>>,
);

impl View for NetworkCaptureSignal {
    type V = CaptureSignalView;

    open spec fn view(&self) -> CaptureSignalView {
        (
            self.action@,
            self.severity@,
            self.target@,
            opt_view(self.url),
            opt_view(self.domain),
            opt_view(self.ip),
            opt_view(self.file_path),
            opt_view(self.process_name),
            opt_view(self.hash),
        )
    }
}

/// Words that make a capture string interesting on their own.
pub open spec fn capture_keywords(l: Seq<char>) -> bool {
    ||| contains(l, "host:"@)
    ||| contains(l, "user-agent:"@)
    ||| contains(l, "cookie:"@)
    ||| contains(l, "authorization:"@)
    ||| contains(l, "content-disposition:"@)
    ||| contains(l, "filename="@)
    ||| contains(l, "download"@)
    ||| contains(l, ".exe"@)
    ||| contains(l, ".dll"@)
    ||| contains(l, ".ps1"@)
    ||| contains(l, ".zip"@)
    ||| contains(l, ".rar"@)
    ||| contains(l, ".7z"@)
    ||| contains(l, "powershell"@)
    ||| contains(l, "cmd.exe"@)
    ||| contains(l, "mimikatz"@)
    ||| contains(l, "lsass"@)
    ||| contains(l, "ftp://"@)
    ||| contains(l, "smtp"@)
    ||| contains(l, "imap"@)
    ||| contains(l, "dns"@)
}

/// Words that make a capture signal high severity.
pub open spec fn capture_high_keywords(l: Seq<char>) -> bool {
    ||| contains(l, "powershell"@)
    ||| contains(l, "cmd.exe"@)
    ||| contains(l, "rundll32"@)
    ||| contains(l, "regsvr32"@)
    ||| contains(l, "mshta"@)
    ||| contains(l, "mimikatz"@)
    ||| contains(l, "lsass"@)
    ||| contains(l, "authorization:"@)
}

pub open spec fn or_else(a: Option<Seq<char>>, b: Option<Seq<char>>) -> Option<Seq<char>> {
    match a {
        Some(x) => Some(x),
        None => b,
    }
}

/// The domain of a capture string: a host header, else the first host name,
/// kept only when it is a signal.
pub open spec fn capture_domain(t: Seq<char>, l: Seq<char>) -> Option<Seq<char>> {
    match or_else(http_host(t), domain_like(t)) {
        Some(d) => if capture_domain_signal(d, l) {
            Some(d)
        } else {
            None
        },
        None => None,
    }
}

/// The process of a capture string: the file name of its path when that is an
/// executable, else the first process named.
pub open spec fn capture_process(t: Seq<char>) -> Option<Seq<char>> {
    let from_path = match path_like(t) {
        Some(p) => match file_name_of(p) {
            Some(n) => if exec_name(n) {
                Some(n)
            } else {
                None
            },
            None => None,
        },
        None => None,
    };
    or_else(from_path, process_like(t))
}

/// The action of a capture signal.
pub open spec fn capture_action(
    l: Seq<char>,
    has_url: bool,
    has_http_path: bool,
    has_domain: bool,
    has_ip: bool,
) -> Seq<char> {
    if contains(l, "cookie:"@) || contains(l, "authorization:"@) {
        "network_credential_header_observed"@
    } else if contains(l, "user-agent:"@) {
        "network_user_agent_observed"@
    } else if contains(l, "content-disposition:"@) || contains(l, "filename="@) || (has_url && (
    contains(l, "download"@) || contains(l, ".exe"@) || contains(l, ".ps1"@) || contains(
        l,
        ".zip"@,
    ))) {
        "network_download_observed"@
    } else if has_http_path || starts_with(l, "http/"@) {
        "network_http_observed"@
    } else if has_domain {
        "network_domain_observed"@
    } else if has_ip {
        "network_ip_observed"@
    } else {
        "network_string_signal"@
    }
}

/// The signal a string carved from a network capture gives, if any: it is
/// trimmed, must be 4 to 1500 bytes long, and must hold an indicator or a
/// telling word.
pub open spec fn capture_signal(v: Seq<char>) -> Option<CaptureSignalView> {
    let t = trim(v);
    if utf8_len(t) < 4 || utf8_len(t) > 1500 {
        None
    } else {
        let l = lower(t);
        let url = url_like(t);
        let domain = capture_domain(t, l);
        let ip = ipv4_like(t);
        let path = path_like(t);
        let path_signal = match path {
            Some(p) => capture_path_signal(p, l),
            None => false,
        };
        let file_path = if path_signal {
            path
        } else {
            None
        };
        let process = capture_process(t);
        let hash = hash_like(t);
        let http_path = request_path(t);
        let interesting = url is Some || domain is Some || ip is Some || path_signal || process is Some
            || hash is Some || http_path is Some || capture_keywords(l);
        if !interesting {
            None
        } else {
            let action = capture_action(
                l,
                url is Some,
                http_path is Some,
                domain is Some,
                ip is Some,
            );
            let severity = if capture_high_keywords(l) {
                "high"@
            } else if action == "network_download_observed"@ || action
                == "network_credential_header_observed"@ {
                "medium"@
            } else {
                "info"@
            };
            let target = match or_else(
                url,
                or_else(
                    http_path,
                    or_else(domain, or_else(ip, or_else(file_path, or_else(process, hash)))),
                ),
            ) {
                Some(x) => x,
                None => t,
            };
            Some((action, severity, target, url, domain, ip, file_path, process, hash))
        }
    }
}

fn capture_keywords_chars(l: &[char]) -> (r: bool)
    ensures
        r == capture_keywords(l@),
{
    contains_str(l, "host:") || contains_str(l, "user-agent:") || contains_str(l, "cookie:")
        || contains_str(l, "authorization:") || contains_str(l, "content-disposition:")
        || contains_str(l, "filename=") || contains_str(l, "download") || contains_str(l, ".exe")
        || contains_str(l, ".dll") || contains_str(l, ".ps1") || contains_str(l, ".zip")
        || contains_str(l, ".rar") || contains_str(l, ".7z") || contains_str(l, "powershell")
        || contains_str(l, "cmd.exe") || contains_str(l, "mimikatz") || contains_str(l, "lsass")
        || contains_str(l, "ftp://") || contains_str(l, "smtp") || contains_str(l, "imap")
        || contains_str(l, "dns")
}

fn capture_high_keywords_chars(l: &[char]) -> (r: bool)
    ensures
        r == capture_high_keywords(l@),
{
    contains_str(l, "powershell") || contains_str(l, "cmd.exe") || contains_str(l, "rundll32")
        || contains_str(l, "regsvr32") || contains_str(l, "mshta") || contains_str(l, "mimikatz")
        || contains_str(l, "lsass") || contains_str(l, "authorization:")
}

fn capture_action_str(
    l: &[char],
    has_url: bool,
    has_http_path: bool,
    has_domain: bool,
    has_ip: bool,
) -> (r: &'static str)
    ensures
        r@ == capture_action(l@, has_url, has_http_path, has_domain, has_ip),
{
    if contains_str(l, "cookie:") || contains_str(l, "authorization:") {
        "network_credential_header_observed"
    } else if contains_str(l, "user-agent:") {
        "network_user_agent_observed"
    } else if contains_str(l, "content-disposition:") || contains_str(l, "filename=") || (has_url
        && (contains_str(l, "download") || contains_str(l, ".exe") || contains_str(l, ".ps1")
        || contains_str(l, ".zip"))) {
        "network_download_observed"
    } else if has_http_path || starts_with_str(l, "http/") {
        "network_http_observed"
    } else if has_domain {
        "network_domain_observed"
    } else if has_ip {
        "network_ip_observed"
    } else {
        "network_string_signal"
    }
}

fn capture_domain_chars(t: &[char], l: &[char]) -> (r: Option<Vec<char>>)
    ensures
        match r {
            Some(d) => capture_domain(t@, l@) == Some(d@),
            None => capture_domain(t@, l@) is None,
        },
{
    let found = match http_host_chars(t) {
        Some(h) => Some(h),
        None => domain_like_chars(t),
    };
    match found {
        Some(d) => if capture_domain_signal_chars(d.as_slice(), l) {
            Some(d)
        } else {
            None
        },
        None => None,
    }
}

fn capture_process_chars(t: &[char], path: &Option<Vec<char>>) -> (r: Option<Vec<char>>)
    requires
        match path {
            Some(p) => path_like(t@) == Some(p@),
            None => path_like(t@) is None,
        },
    ensures
        match r {
            Some(p) => capture_process(t@) == Some(p@),
            None => capture_process(t@) is None,
        },
{
    let from_path = match path {
        Some(p) => match file_name_chars(p.as_slice()) {
            Some(n) => if exec_name_chars(n.as_slice()) {
                Some(n)
            } else {
                None
            },
            None => None,
        },
        None => None,
    };
    match from_path {
        Some(n) => Some(n),
        None => process_like_chars(t),
    }
}

fn opt_string(v: &Option<Vec<char>>) -> (r: Option<String>)
    ensures
        opt_view(r) == (match v {
            Some(x) => Some(x@),
            None => None::<Seq<char>>,
        }),
{
    match v {
        Some(x) => Some(string_from(x.as_slice())),
        None => None,
    }
}

/// The signal that a string carved from a network capture gives, if any.
pub fn network_capture_signal(value: &str) -> (r: Option<NetworkCaptureSignal>)
    ensures
        match r {
            Some(s) => capture_signal(value@) == Some(s@),
            None => capture_signal(value@) is None,
        },
{
    let v = chars_of(value);
    let tv = trim_chars(v.as_slice());
    let t = tv.as_slice();
    let n = utf8_len_of(t);
    if n < 4 || n > 1500 {
        return None;
    }
    let lv = lower_chars(t);
    let l = lv.as_slice();
    let url = url_like_chars(t);
    let domain = capture_domain_chars(t, l);
    let ip = ipv4_like_chars(t);
    let path = path_like_chars(t);
    let path_signal = match &path {
        Some(p) => capture_path_signal_chars(p.as_slice(), l),
        None => false,
    };
    let file_path: Option<Vec<char>> = if path_signal {
        match &path {
            Some(p) => Some(slice_to_vec(p.as_slice(), 0, p.len())),
            None => None,
        }
    } else {
        None
    };
    proof {
        if path is Some {
            let p = path->0;
            assert(p@.subrange(0, p@.len() as int) =~= p@);
        }
    }
    let process = capture_process_chars(t, &path);
    let hash = hash_like_chars(t);
    let http_path = request_path_chars(t);
    let interesting = url.is_some() || domain.is_some() || ip.is_some() || path_signal
        || process.is_some() || hash.is_some() || http_path.is_some() || capture_keywords_chars(l);
    if !interesting {
        return None;
    }
    let action = capture_action_str(
        l,
        url.is_some(),
        http_path.is_some(),
        domain.is_some(),
        ip.is_some(),
    );
    let av = chars_of(action);
    let severity = if capture_high_keywords_chars(l) {
        "high"
    } else if eq_str(av.as_slice(), "network_download_observed") || eq_str(
        av.as_slice(),
        "network_credential_header_observed",
    ) {
        "medium"
    } else {
        "info"
    };
    let target_src: &Vec<char> = if url.is_some() {
        url.as_ref().unwrap()
    } else if http_path.is_some() {
        http_path.as_ref().unwrap()
    } else if domain.is_some() {
        domain.as_ref().unwrap()
    } else if ip.is_some() {
        ip.as_ref().unwrap()
    } else if file_path.is_some() {
        file_path.as_ref().unwrap()
    } else if process.is_some() {
        process.as_ref().unwrap()
    } else if hash.is_some() {
        hash.as_ref().unwrap()
    } else {
        &tv
    };
    let target = string_from(target_src.as_slice());
    Some(
        NetworkCaptureSignal {
            action: crate::text::string_of(action),
            severity: crate::text::string_of(severity),
            target,
            url: opt_string(&url),
            domain: opt_string(&domain),
            ip: opt_string(&ip),
            file_path: opt_string(&file_path),
            process_name: opt_string(&process),
            hash: opt_string(&hash),
        },
    )
}

} // verus!
