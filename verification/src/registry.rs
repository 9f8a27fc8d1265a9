//! Signals read from the strings of a registry hive: what each string and its
//! neighbours say, as actions with the key, path, process, URL and hash involved.
use vstd::prelude::*;
use vstd::utf8::is_ascii_chars;
use crate::artifact::{file_name_from_path, file_name_of};
use crate::classify::{classify_registry_context, pair_views, registry_classes};
use crate::decode::opt_view;
use crate::extract::{
    extract_hash_like, extract_path_like, extract_process_name_like, extract_url_like, hash_like,
    path_like, process_like, url_like,
};
use crate::paths::{
    extract_path_near_label, extract_recent_document_candidate, extract_shellbag_folder_candidate,
    path_candidates, path_candidates_chars, path_near_label, recent_document_candidate,
    shellbag_folder,
};
use crate::row::{join_strings, vec_strings};
use crate::strings::string_views;
use crate::text::{
    chars_of, eq_str, find, find_chars, joined, lower, lower_chars, push_all, slice_to_vec,
    string_from, views,
};
use crate::textlog::{truncate, truncated, truncated_chars};

verus! {

// ---------------------------------------------------------------------------
// Key hints
// ---------------------------------------------------------------------------
pub open spec fn key_markers() -> Seq<Seq<char>> {
    seq![
        "CurrentVersion\\Run"@, "CurrentVersion\\RunOnce"@, "\\Services\\"@, "ImagePath"@,
        "Winlogon"@, "Userinit"@, "Shell"@, "WDigest"@, "UseLogonCredential"@, "UserAssist"@,
        "ShimCache"@, "AppCompatCache"@, "TypedURLs"@, "TypedPaths"@, "RecentDocs"@,
        "ShellBags"@, "BagMRU"@, "Amcache"@,
    ]
}

/// The text around the first of `ms[i..]` found in the context ignoring ASCII
/// case: from 80 characters before it to 160 after it, cut to 220 characters.
pub open spec fn key_hint_from(ctx: Seq<char>, ms: Seq<Seq<char>>, i: int) -> Option<Seq<char>>
    decreases ms.len() - i,
{
    if i < 0 || i >= ms.len() {
        None
    } else {
        match find(lower(ctx), lower(ms[i])) {
            Some(k) => {
                let start = if k >= 80 {
                    k - 80
                } else {
                    0
                };
                let end = if k + ms[i].len() + 160 < ctx.len() {
                    k + ms[i].len() + 160
                } else {
                    ctx.len() as int
                };
                Some(truncated(ctx.subrange(start, end), 220))
            },
            None => key_hint_from(ctx, ms, i + 1),
        }
    }
}

pub open spec fn key_hint(ctx: Seq<char>) -> Option<Seq<char>> {
    key_hint_from(ctx, key_markers(), 0)
}

fn key_hint_chars(c: &[char]) -> (r: Option<Vec<char>>)
    ensures
        match r {
            Some(v) => key_hint(c@) == Some(v@),
            None => key_hint(c@) is None,
        },
{
    let ms = [
        "CurrentVersion\\Run",
        "CurrentVersion\\RunOnce",
        "\\Services\\",
        "ImagePath",
        "Winlogon",
        "Userinit",
        "Shell",
        "WDigest",
        "UseLogonCredential",
        "UserAssist",
        "ShimCache",
        "AppCompatCache",
        "TypedURLs",
        "TypedPaths",
        "RecentDocs",
        "ShellBags",
        "BagMRU",
        "Amcache",
    ];
    assert(views(ms@) =~= key_markers());
    let lc = lower_chars(c);
    let mut i: usize = 0;
    while i < 18
        invariant
            i <= 18,
            views(ms@) == key_markers(),
            lc@ == lower(c@),
            key_hint(c@) == key_hint_from(c@, key_markers(), i as int),
        decreases 18 - i,
    {
        let mc = chars_of(ms[i]);
        assert(key_markers()[i as int] == mc@);
        let ml = lower_chars(mc.as_slice());
        match find_chars(lc.as_slice(), ml.as_slice()) {
            Some(k) => {
                assert(lower(c@).len() == c@.len());
                assert(lower(mc@).len() == mc@.len());
                let start = if k >= 80 {
                    k - 80
                } else {
                    0
                };
                let room = c.len() - k - mc.len();
                let end = if room > 160 {
                    k + mc.len() + 160
                } else {
                    c.len()
                };
                let window = slice_to_vec(c, start, end);
                return Some(truncated_chars(window.as_slice(), 220));
            },
            None => {},
        }
        i = i + 1;
    }
    None
}

/// The registry key mentioned in a context, with what surrounds it. The context
/// is ASCII, as the strings of a hive are: offsets then count bytes and
/// characters alike.
pub fn registry_key_hint(context: &str) -> (r: Option<String>)
    requires
        is_ascii_chars(context@),
    ensures
        opt_view(r) == key_hint(context@),
{
    let c = chars_of(context);
    match key_hint_chars(c.as_slice()) {
        Some(v) => Some(string_from(v.as_slice())),
        None => None,
    }
}

// ---------------------------------------------------------------------------
// Signals
// ---------------------------------------------------------------------------
/// One finding in a registry hive.
#[derive(Debug, Clone)]
pub struct RegistrySignal {
    pub action: &'static str,
    pub severity: &'static str,
    pub key_hint: String,
    pub value_hint: String,
    pub process_name: Option<String>,
    pub file_path: Option<String>,
    pub url: Option<String>,
    pub hash: Option<String>,
}

/// A signal as plain values: action, severity, key hint, value hint, process
/// name, file path, URL and hash.
pub open spec fn signal_view(s: RegistrySignal) -> (
    Seq<char>,
    Seq<char>,
    Seq<char>,
    Seq<char>,
    Option<Seq<char>>,
    Option<Seq<char>>,
    Option<Seq<char>>,
    Option<Seq<char>>,
) {
    (
        s.action@,
        s.severity@,
        s.key_hint@,
        s.value_hint@,
        opt_view(s.process_name),
        opt_view(s.file_path),
        opt_view(s.url),
        opt_view(s.hash),
    )
}

pub open spec fn signal_views(v: Seq<RegistrySignal>) -> Seq<
    (
        Seq<char>,
        Seq<char>,
        Seq<char>,
        Seq<char>,
        Option<Seq<char>>,
        Option<Seq<char>>,
        Option<Seq<char>>,
        Option<Seq<char>>,
    ),
> {
    v.map_values(|s: RegistrySignal| signal_view(s))
}

pub open spec fn or_else(a: Option<Seq<char>>, b: Option<Seq<char>>) -> Option<Seq<char>> {
    match a {
        Some(x) => Some(x),
        None => b,
    }
}

pub open spec fn first_of(cs: Seq<Seq<char>>) -> Option<Seq<char>> {
    if cs.len() > 0 {
        Some(cs[0])
    } else {
        None
    }
}

pub open spec fn last_of(cs: Seq<Seq<char>>) -> Option<Seq<char>> {
    if cs.len() > 0 {
        Some(cs.last())
    } else {
        None
    }
}

/// The file a signal points at, by the kind of signal.
pub open spec fn signal_file(ctx: Seq<char>, action: Seq<char>) -> Option<Seq<char>> {
    if action == "registry_service_image"@ {
        or_else(
            path_near_label(ctx, seq!["ImagePath"@, "ServiceDll"@], 0),
            last_of(path_candidates(ctx)),
        )
    } else if action == "amcache_program_seen"@ {
        or_else(last_of(path_candidates(ctx)), path_like(ctx))
    } else if action == "registry_recentdocs_document"@ {
        or_else(recent_document_candidate(ctx), first_of(path_candidates(ctx)))
    } else if action == "registry_shellbag_folder"@ {
        or_else(shellbag_folder(ctx), path_like(ctx))
    } else {
        or_else(first_of(path_candidates(ctx)), path_like(ctx))
    }
}

/// The process of a signal: none for documents and folders, else the file name
/// of its file, else a process named in the context.
pub open spec fn signal_process(ctx: Seq<char>, action: Seq<char>, file: Option<Seq<char>>) -> Option<
    Seq<char>,
> {
    if action == "registry_recentdocs_document"@ || action == "registry_shellbag_folder"@ {
        None
    } else {
        match file {
            Some(f) => or_else(file_name_of(f), process_like(ctx)),
            None => process_like(ctx),
        }
    }
}

/// The signal of one class found in the context of a string.
#[verifier::opaque]
pub open spec fn signal_of(ctx: Seq<char>, value: Seq<char>, action: Seq<char>, severity: Seq<char>) -> (
    Seq<char>,
    Seq<char>,
    Seq<char>,
    Seq<char>,
    Option<Seq<char>>,
    Option<Seq<char>>,
    Option<Seq<char>>,
    Option<Seq<char>>,
) {
    let file = signal_file(ctx, action);
    (
        action,
        severity,
        match key_hint(ctx) {
            Some(k) => k,
            None => truncated(value, 180),
        },
        truncated(ctx, 300),
        signal_process(ctx, action, file),
        file,
        url_like(ctx),
        hash_like(ctx),
    )
}

pub open spec fn opt_or_empty(o: Option<Seq<char>>) -> Seq<char> {
    match o {
        Some(v) => v,
        None => Seq::empty(),
    }
}

/// What tells two signals apart: the action, the key hint and the file (or
/// process) ignoring ASCII case, and the hash.
pub open spec fn signal_key(
    s: (
        Seq<char>,
        Seq<char>,
        Seq<char>,
        Seq<char>,
        Option<Seq<char>>,
        Option<Seq<char>>,
        Option<Seq<char>>,
        Option<Seq<char>>,
    ),
) -> Seq<char> {
    s.0 + "|"@ + lower(s.2) + "|"@ + lower(opt_or_empty(or_else(s.5, s.4))) + "|"@ + opt_or_empty(
        s.7,
    )
}

/// The strings around string `idx`, three on each side, joined by spaces.
pub open spec fn context_at(ss: Seq<Seq<char>>, idx: int) -> Seq<char> {
    let start = if idx >= 3 {
        idx - 3
    } else {
        0
    };
    let end = if idx + 4 < ss.len() {
        idx + 4
    } else {
        ss.len() as int
    };
    joined(ss.subrange(start, end), " "@)
}

/// The signals of the classes found in the context of string `idx`.
#[verifier::opaque]
pub open spec fn signals_at(ss: Seq<Seq<char>>, idx: int, t: Seq<char>) -> Seq<
    (
        Seq<char>,
        Seq<char>,
        Seq<char>,
        Seq<char>,
        Option<Seq<char>>,
        Option<Seq<char>>,
        Option<Seq<char>>,
        Option<Seq<char>>,
    ),
> {
    let ctx = context_at(ss, idx);
    registry_classes(lower(ctx), t).map_values(
        |c: (Seq<char>, Seq<char>)| signal_of(ctx, ss[idx], c.0, c.1),
    )
}

/// The signals of the first `n` strings, in order, repeats included.
pub open spec fn candidate_signals(ss: Seq<Seq<char>>, t: Seq<char>, n: int) -> Seq<
    (
        Seq<char>,
        Seq<char>,
        Seq<char>,
        Seq<char>,
        Option<Seq<char>>,
        Option<Seq<char>>,
        Option<Seq<char>>,
        Option<Seq<char>>,
    ),
>
    decreases n,
{
    if n <= 0 {
        Seq::empty()
    } else {
        candidate_signals(ss, t, n - 1) + signals_at(ss, n - 1, t)
    }
}

/// Each signal whose key came before is dropped.
pub open spec fn dedup_signals(
    cs: Seq<
        (
            Seq<char>,
            Seq<char>,
            Seq<char>,
            Seq<char>,
            Option<Seq<char>>,
            Option<Seq<char>>,
            Option<Seq<char>>,
            Option<Seq<char>>,
        ),
    >,
) -> Seq<
    (
        Seq<char>,
        Seq<char>,
        Seq<char>,
        Seq<char>,
        Option<Seq<char>>,
        Option<Seq<char>>,
        Option<Seq<char>>,
        Option<Seq<char>>,
    ),
>
    decreases cs.len(),
{
    if cs.len() == 0 {
        Seq::empty()
    } else {
        let d = dedup_signals(cs.drop_last());
        if d.map_values(|s| signal_key(s)).contains(signal_key(cs.last())) {
            d
        } else {
            d.push(cs.last())
        }
    }
}

/// The signals of a hive's strings, without repeats.
pub open spec fn registry_signals(ss: Seq<Seq<char>>, t: Seq<char>) -> Seq<
    (
        Seq<char>,
        Seq<char>,
        Seq<char>,
        Seq<char>,
        Option<Seq<char>>,
        Option<Seq<char>>,
        Option<Seq<char>>,
        Option<Seq<char>>,
    ),
> {
    dedup_signals(candidate_signals(ss, t, ss.len() as int))
}

fn or_else_exec(a: Option<String>, b: Option<String>) -> (r: Option<String>)
    ensures
        opt_view(r) == or_else(opt_view(a), opt_view(b)),
{
    match a {
        Some(x) => Some(x),
        None => b,
    }
}

fn first_string(v: Vec<String>) -> (r: Option<String>)
    ensures
        opt_view(r) == first_of(string_views(v@)),
{
    if v.len() > 0 {
        let mut v = v;
        let x = v.swap_remove(0);
        Some(x)
    } else {
        None
    }
}

fn last_string(v: Vec<String>) -> (r: Option<String>)
    ensures
        opt_view(r) == last_of(string_views(v@)),
{
    let mut v = v;
    v.pop()
}

fn signal_file_exec(ctx: &str, action: &str) -> (r: Option<String>)
    ensures
        opt_view(r) == signal_file(ctx@, action@),
{
    let a = chars_of(action);
    let cc = chars_of(ctx);
    if eq_str(a.as_slice(), "registry_service_image") {
        let labels = ["ImagePath", "ServiceDll"];
        assert(views(labels@) =~= seq!["ImagePath"@, "ServiceDll"@]);
        or_else_exec(
            extract_path_near_label(ctx, &labels),
            last_string(path_candidates_chars(cc.as_slice())),
        )
    } else if eq_str(a.as_slice(), "amcache_program_seen") {
        or_else_exec(last_string(path_candidates_chars(cc.as_slice())), extract_path_like(ctx))
    } else if eq_str(a.as_slice(), "registry_recentdocs_document") {
        or_else_exec(
            extract_recent_document_candidate(ctx),
            first_string(path_candidates_chars(cc.as_slice())),
        )
    } else if eq_str(a.as_slice(), "registry_shellbag_folder") {
        or_else_exec(extract_shellbag_folder_candidate(ctx), extract_path_like(ctx))
    } else {
        or_else_exec(first_string(path_candidates_chars(cc.as_slice())), extract_path_like(ctx))
    }
}

fn signal_process_exec(ctx: &str, action: &str, file: &Option<String>) -> (r: Option<String>)
    ensures
        opt_view(r) == signal_process(ctx@, action@, opt_view(*file)),
{
    let a = chars_of(action);
    if eq_str(a.as_slice(), "registry_recentdocs_document") || eq_str(
        a.as_slice(),
        "registry_shellbag_folder",
    ) {
        None
    } else {
        match file {
            Some(f) => or_else_exec(file_name_from_path(f.as_str()), extract_process_name_like(ctx)),
            None => extract_process_name_like(ctx),
        }
    }
}

fn opt_chars(o: &Option<String>) -> (r: Vec<char>)
    ensures
        r@ == opt_or_empty(opt_view(*o)),
{
    match o {
        Some(s) => chars_of(s.as_str()),
        None => Vec::new(),
    }
}

fn signal_key_exec(s: &RegistrySignal) -> (r: String)
    ensures
        r@ == signal_key(signal_view(*s)),
{
    let mut out: Vec<char> = Vec::new();
    let a = chars_of(s.action);
    push_all(&mut out, a.as_slice());
    out.push('|');
    let k = chars_of(s.key_hint.as_str());
    let kl = lower_chars(k.as_slice());
    push_all(&mut out, kl.as_slice());
    out.push('|');
    let f = match &s.file_path {
        Some(p) => chars_of(p.as_str()),
        None => opt_chars(&s.process_name),
    };
    let fl = lower_chars(f.as_slice());
    push_all(&mut out, fl.as_slice());
    out.push('|');
    let h = opt_chars(&s.hash);
    push_all(&mut out, h.as_slice());
    proof {
        reveal_strlit("|");
        assert("|"@ =~= seq!['|']);
    }
    assert(out@ =~= signal_key(signal_view(*s)));
    string_from(out.as_slice())
}

fn context_exec(strings: &[String], idx: usize) -> (r: String)
    requires
        idx < strings.len(),
    ensures
        r@ == context_at(string_views(strings@), idx as int),
{
    let start = if idx >= 3 {
        idx - 3
    } else {
        0
    };
    let end = if strings.len() - idx > 4 {
        idx + 4
    } else {
        strings.len()
    };
    let mut window: Vec<String> = Vec::new();
    let mut j: usize = start;
    while j < end
        invariant
            start <= j <= end <= strings.len(),
            vec_strings(window@) == string_views(strings@).subrange(start as int, j as int),
        decreases end - j,
    {
        let ghost prev = vec_strings(window@);
        window.push(strings[j].clone());
        assert(vec_strings(window@) =~= prev.push(string_views(strings@)[j as int]));
        assert(string_views(strings@).subrange(start as int, j + 1) =~= prev.push(
            string_views(strings@)[j as int],
        ));
        j = j + 1;
    }
    let c = join_strings(&window, " ");
    string_from(c.as_slice())
}

fn signal_exec(ctx: &String, value: &String, action: &'static str, severity: &'static str) -> (r: RegistrySignal)
    requires
        is_ascii_chars(ctx@),
    ensures
        signal_view(r) == signal_of(ctx@, value@, action@, severity@),
{
    reveal(signal_of);
    let file = signal_file_exec(ctx.as_str(), action);
    let process = signal_process_exec(ctx.as_str(), action, &file);
    let key = match registry_key_hint(ctx.as_str()) {
        Some(k) => k,
        None => truncate(value.as_str(), 180),
    };
    RegistrySignal {
        action,
        severity,
        key_hint: key,
        value_hint: truncate(ctx.as_str(), 300),
        process_name: process,
        file_path: file,
        url: extract_url_like(ctx.as_str()),
        hash: extract_hash_like(ctx.as_str()),
    }
}

proof fn lemma_joined_ascii(ps: Seq<Seq<char>>, sep: Seq<char>)
    requires
        forall|i: int| 0 <= i < ps.len() ==> is_ascii_chars(#[trigger] ps[i]),
        is_ascii_chars(sep),
    ensures
        is_ascii_chars(joined(ps, sep)),
    decreases ps.len(),
{
    if ps.len() > 1 {
        lemma_joined_ascii(ps.drop_last(), sep);
        let a = joined(ps.drop_last(), sep);
        let l = ps.last();
        assert(is_ascii_chars(l));
        assert forall|i: int| 0 <= i < (a + sep + l).len() implies '\0' <= #[trigger] (a + sep
            + l)[i] <= '\u{7f}' by {
            if i < a.len() {
                assert((a + sep + l)[i] == a[i]);
            } else if i < a.len() + sep.len() {
                assert((a + sep + l)[i] == sep[i - a.len()]);
            } else {
                assert((a + sep + l)[i] == l[i - a.len() - sep.len()]);
            }
        }
    }
}

proof fn lemma_context_ascii(ss: Seq<Seq<char>>, idx: int)
    requires
        0 <= idx < ss.len(),
        forall|i: int| 0 <= i < ss.len() ==> is_ascii_chars(#[trigger] ss[i]),
    ensures
        is_ascii_chars(context_at(ss, idx)),
{
    let start = if idx >= 3 {
        idx - 3
    } else {
        0
    };
    let end = if idx + 4 < ss.len() {
        idx + 4
    } else {
        ss.len() as int
    };
    assert(" "@ =~= seq![' ']) by {
        reveal_strlit(" ");
    }
    assert forall|i: int| 0 <= i < ss.subrange(start, end).len() implies is_ascii_chars(
        #[trigger] ss.subrange(start, end)[i],
    ) by {
        assert(ss.subrange(start, end)[i] == ss[start + i]);
    }
    lemma_joined_ascii(ss.subrange(start, end), " "@);
}

proof fn lemma_signals_at(ss: Seq<Seq<char>>, idx: int, t: Seq<char>)
    ensures
        signals_at(ss, idx, t).len() == registry_classes(lower(context_at(ss, idx)), t).len(),
        forall|i: int|
            0 <= i < signals_at(ss, idx, t).len() ==> #[trigger] signals_at(ss, idx, t)[i]
                == signal_of(
                context_at(ss, idx),
                ss[idx],
                registry_classes(lower(context_at(ss, idx)), t)[i].0,
                registry_classes(lower(context_at(ss, idx)), t)[i].1,
            ),
{
    reveal(signals_at);
}

#[verifier::rlimit(100)]
#[verifier::spinoff_prover]
fn add_signals_at(
    strings: &[String],
    idx: usize,
    artifact_type: &str,
    out: &mut Vec<RegistrySignal>,
    seen: &mut Vec<String>,
    Ghost(before): Ghost<
        Seq<
            (
                Seq<char>,
                Seq<char>,
                Seq<char>,
                Seq<char>,
                Option<Seq<char>>,
                Option<Seq<char>>,
                Option<Seq<char>>,
                Option<Seq<char>>,
            ),
        >,
    >,
)
    requires
        idx < strings.len(),
        forall|i: int| 0 <= i < strings@.len() ==> is_ascii_chars(#[trigger] strings@[i]@),
        signal_views(old(out)@) == dedup_signals(before),
        string_views(old(seen)@) == signal_views(old(out)@).map_values(|s| signal_key(s)),
    ensures
        signal_views(final(out)@) == dedup_signals(
            before + signals_at(string_views(strings@), idx as int, artifact_type@),
        ),
        string_views(final(seen)@) == signal_views(final(out)@).map_values(|s| signal_key(s)),
{
    let ghost ss = string_views(strings@);
    let context = context_exec(strings, idx);
    proof {
        assert forall|i: int| 0 <= i < ss.len() implies is_ascii_chars(#[trigger] ss[i]) by {
            assert(ss[i] == strings@[i]@);
        }
        lemma_context_ascii(ss, idx as int);
    }
    let hay = lower_chars(chars_of(context.as_str()).as_slice());
    let hay_s = string_from(hay.as_slice());
    let classes = classify_registry_context(hay_s.as_str(), artifact_type);
    let ghost cs = signals_at(ss, idx as int, artifact_type@);
    proof {
        lemma_signals_at(ss, idx as int, artifact_type@);
    }
    assert(ss[idx as int] == strings@[idx as int]@);
    let mut ci: usize = 0;
    assert(before + cs.take(0) =~= before);
    while ci < classes.len()
        invariant
            ci <= classes.len(),
            ss == string_views(strings@),
            is_ascii_chars(context@),
            context@ == context_at(ss, idx as int),
            idx < strings.len(),
            ss[idx as int] == strings@[idx as int]@,
            pair_views(classes@) == registry_classes(lower(context@), artifact_type@),
            cs == signals_at(ss, idx as int, artifact_type@),
            cs.len() == classes@.len(),
            signal_views(out@) == dedup_signals(before + cs.take(ci as int)),
            string_views(seen@) == signal_views(out@).map_values(|s| signal_key(s)),
        decreases classes.len() - ci,
    {
        let (action, severity) = classes[ci];
        let sig = signal_exec(&context, &strings[idx], action, severity);
        proof {
            lemma_signals_at(ss, idx as int, artifact_type@);
        }
        assert(pair_views(classes@)[ci as int] == (action@, severity@));
        assert(signal_view(sig) == cs[ci as int]);
        let ghost prefix = before + cs.take(ci as int);
        assert((before + cs.take(ci + 1)).drop_last() =~= prefix);
        assert((before + cs.take(ci + 1)).last() == cs[ci as int]);
        let key = signal_key_exec(&sig);
        let kc = chars_of(key.as_str());
        if !crate::strings::contains_chars_vec_pub(seen, kc.as_slice()) {
            let ghost prev_out = signal_views(out@);
            let ghost prev_seen = string_views(seen@);
            out.push(sig);
            seen.push(key);
            assert(signal_views(out@) =~= prev_out.push(signal_view(sig)));
            assert(string_views(seen@) =~= prev_seen.push(kc@));
            assert(signal_views(out@).map_values(|s| signal_key(s)) =~= prev_seen.push(kc@));
        }
        ci = ci + 1;
    }
    assert(cs.take(cs.len() as int) =~= cs);
}

pub fn registry_signals_from_strings(strings: &[String], artifact_type: &str) -> (r: Vec<
    RegistrySignal,
>)
    requires
        forall|i: int| 0 <= i < strings@.len() ==> is_ascii_chars(#[trigger] strings@[i]@),
    ensures
        signal_views(r@) == registry_signals(string_views(strings@), artifact_type@),
{
    let ghost ss = string_views(strings@);
    let mut out: Vec<RegistrySignal> = Vec::new();
    let mut seen: Vec<String> = Vec::new();
    let mut idx: usize = 0;
    assert(signal_views(out@) =~= dedup_signals(candidate_signals(ss, artifact_type@, 0)));
    assert(string_views(seen@) =~= signal_views(out@).map_values(|s| signal_key(s)));
    while idx < strings.len()
        invariant
            idx <= strings.len(),
            ss == string_views(strings@),
            forall|i: int| 0 <= i < strings@.len() ==> is_ascii_chars(#[trigger] strings@[i]@),
            signal_views(out@) == dedup_signals(candidate_signals(ss, artifact_type@, idx as int)),
            string_views(seen@) == signal_views(out@).map_values(|s| signal_key(s)),
        decreases strings.len() - idx,
    {
        let ghost before = candidate_signals(ss, artifact_type@, idx as int);
        add_signals_at(strings, idx, artifact_type, &mut out, &mut seen, Ghost(before));
        assert(candidate_signals(ss, artifact_type@, idx + 1) == before + signals_at(
            ss,
            idx as int,
            artifact_type@,
        ));
        idx = idx + 1;
    }
    out
}

} // verus!
