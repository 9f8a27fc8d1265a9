//! OneDrive sync logs: the lines of the log and the strings of its binary
//! form, each turned into a signal once, at most twelve thousand in all.
use vstd::prelude::*;
use crate::classify::{lnk_target, user_of_path};
use crate::csv::nonblank_lines;
use crate::datetime::{datetime_text, leading_timestamp, normalize_datetime, split_leading_timestamp};
use crate::decode::{lines, lines_of, opt_view};
use crate::extract::{
    extract_hash_like, extract_path_like, extract_process_name_like, extract_url_like, hash_like,
    path_like, process_like, url_like,
};
use crate::signals::{
    onedrive_action, onedrive_action_of, onedrive_interesting, onedrive_line_interesting,
    onedrive_severity, onedrive_severity_of,
};
use crate::strings::{
    all_strings, contains_chars_vec_pub, display_text, extract_forensic_strings, forensic_from,
    sanitize_display_text, string_views,
};
use crate::text::{
    chars_of, concat_str, contains, contains_str, lower, lower_chars, lower_of, string_from,
    string_of, trim, trim_chars, vviews,
};
use crate::textlog::{truncate, truncated};

verus! {

/// The most signals a log gives.
pub open spec fn signal_cap() -> int {
    12000
}

/// The lines of a log, display-cleaned, without the blank ones.
pub open spec fn clean_lines(text: Seq<char>) -> Seq<Seq<char>> {
    nonblank_lines(lines(text).map_values(|l: Seq<char>| display_text(l)))
}

/// What the scan looks at, in order: each clean line of the text with its
/// position, then each forensic string of the bytes, display-cleaned, with its
/// position.
pub open spec fn scan_items(text: Option<Seq<char>>, b: Seq<u8>) -> Seq<(bool, int, Seq<char>)> {
    let ls = match text {
        Some(t) => clean_lines(t),
        None => Seq::empty(),
    };
    let ss = forensic_from(all_strings(b), 0, Seq::empty(), 80000);
    Seq::new(ls.len(), |i: int| (true, i, ls[i])) + Seq::new(
        ss.len(),
        |i: int| (false, i, display_text(ss[i])),
    )
}

/// An item is considered when it looks like OneDrive activity, or when it is
/// one of the first 2001 lines.
pub open spec fn considered(it: (bool, int, Seq<char>)) -> bool {
    onedrive_interesting(lower(it.2)) || (it.0 && it.1 <= 2000)
}

/// The key under which an item is seen once.
pub open spec fn item_key(it: (bool, int, Seq<char>)) -> Seq<char> {
    lower(
        (if it.0 {
            "line|"@
        } else {
            "string|"@
        }) + truncated(it.2, 240),
    )
}

/// The keys seen and the items picked, scanning `items` in order: an item is
/// picked when it is considered and its key was not seen.
pub open spec fn picked(items: Seq<(bool, int, Seq<char>)>) -> (Seq<Seq<char>>, Seq<(bool, int, Seq<char>)>)
    decreases items.len(),
{
    if items.len() == 0 {
        (Seq::empty(), Seq::empty())
    } else {
        let (seen, out) = picked(items.drop_last());
        let it = items.last();
        if !considered(it) || seen.contains(item_key(it)) {
            (seen, out)
        } else {
            (seen.push(item_key(it)), out.push(it))
        }
    }
}

/// The first `signal_cap()` of some items.
pub open spec fn capped(p: Seq<(bool, int, Seq<char>)>) -> Seq<(bool, int, Seq<char>)> {
    if p.len() > signal_cap() {
        p.take(signal_cap())
    } else {
        p
    }
}

/// One OneDrive signal.
#[derive(Debug, Clone)]
pub struct OnedriveSignal {
    /// Whether it comes from a line of the text (else from a string of the bytes).
    pub from_line: bool,
    /// Its position among the lines or among the strings.
    pub index: usize,
    /// The cleaned line or string.
    pub text: String,
    pub time_original: Option<String>,
    pub event_time: Option<String>,
    pub message: String,
    pub url: Option<String>,
    pub file_path: Option<String>,
    pub process_name: Option<String>,
    pub hash: Option<String>,
    pub action: String,
    pub severity: &'static str,
    /// Whether the line starts with a time stamp.
    pub timestamp_confident: bool,
}

pub open spec fn signal_item(s: OnedriveSignal) -> (bool, int, Seq<char>) {
    (s.from_line, s.index as int, s.text@)
}

/// What the signal of a line or string says, for a log found at `path`.
pub open spec fn signal_ok(path: Seq<char>, s: OnedriveSignal) -> bool {
    let t = s.text@;
    let l = lower(t);
    let file_path = match path_like(t) {
        Some(p) => Some(p),
        None => if s.from_line || contains(l, "onedrive"@) || contains(l, "sync"@) {
            Some(path)
        } else {
            None
        },
    };
    let action = onedrive_action_of(l, url_like(t) is Some, file_path is Some);
    &&& opt_view(s.url) == url_like(t)
    &&& opt_view(s.file_path) == file_path
    &&& opt_view(s.process_name) == process_like(t)
    &&& opt_view(s.hash) == hash_like(t)
    &&& s.action@ == action
    &&& s.severity@ == onedrive_severity_of(l, action)
    &&& if s.from_line {
        let (time, message) = leading_timestamp(t);
        &&& opt_view(s.time_original) == time
        &&& s.message@ == message
        &&& opt_view(s.event_time) == (match time {
            Some(x) => datetime_text(x),
            None => None,
        })
        &&& s.timestamp_confident == time is Some
    } else {
        &&& s.time_original is None
        &&& s.event_time is None
        &&& s.message@ == "OneDrive signal: "@ + truncated(t, 300)
        &&& !s.timestamp_confident
    }
}

fn signal_of(path: &str, from_line: bool, index: usize, text: String) -> (r: OnedriveSignal)
    ensures
        signal_item(r) == (from_line, index as int, text@),
        signal_ok(path@, r),
{
    let t = text.as_str();
    let l = lower_of(t);
    let url = extract_url_like(t);
    let file_path = match extract_path_like(t) {
        Some(p) => Some(p),
        None => if from_line || contains_str(l.as_slice(), "onedrive") || contains_str(
            l.as_slice(),
            "sync",
        ) {
            Some(string_of(path))
        } else {
            None
        },
    };
    let process_name = extract_process_name_like(t);
    let hash = extract_hash_like(t);
    let ls = string_from(l.as_slice());
    let action = onedrive_action(
        ls.as_str(),
        match &url {
            Some(u) => Some(u.as_str()),
            None => None,
        },
        match &file_path {
            Some(p) => Some(p.as_str()),
            None => None,
        },
    );
    let severity = onedrive_severity(ls.as_str(), action.as_str());
    let (time_original, message, event_time, timestamp_confident) = if from_line {
        let (time, message) = split_leading_timestamp(t);
        let event_time = match &time {
            Some(x) => normalize_datetime(x.as_str()),
            None => None,
        };
        let confident = time.is_some();
        (time, message, event_time, confident)
    } else {
        let shown = truncate(t, 300);
        (None, concat_str("OneDrive signal: ", shown.as_str()), None, false)
    };
    OnedriveSignal {
        from_line,
        index,
        text,
        time_original,
        event_time,
        message,
        url,
        file_path,
        process_name,
        hash,
        action,
        severity,
        timestamp_confident,
    }
}

fn key_of(from_line: bool, text: &str) -> (r: Vec<char>)
    ensures
        r@ == item_key((from_line, 0, text@)),
{
    let shown = truncate(text, 240);
    let keyed = if from_line {
        concat_str("line|", shown.as_str())
    } else {
        concat_str("string|", shown.as_str())
    };
    lower_of(keyed.as_str())
}

/// The clean lines of a text, as strings.
fn clean_line_list(text: &str) -> (r: Vec<String>)
    ensures
        string_views(r@) == clean_lines(text@),
{
    let tc = chars_of(text);
    let ls = lines_of(tc.as_slice());
    let ghost lv = vviews(ls@);
    let ghost cleaned = lv.map_values(|l: Seq<char>| display_text(l));
    let mut out: Vec<String> = Vec::new();
    let mut i: usize = 0;
    while i < ls.len()
        invariant
            i <= ls@.len(),
            lv == vviews(ls@),
            lv == lines(text@),
            cleaned == lv.map_values(|l: Seq<char>| display_text(l)),
            string_views(out@) == nonblank_lines(cleaned.take(i as int)),
        decreases ls@.len() - i,
    {
        let raw = string_from(ls[i].as_slice());
        let clean = sanitize_display_text(raw.as_str());
        assert(cleaned.take(i + 1).drop_last() =~= cleaned.take(i as int));
        assert(cleaned.take(i + 1).last() == clean@);
        let tr = trim_chars(chars_of(clean.as_str()).as_slice());
        if tr.len() > 0 {
            let ghost prev = string_views(out@);
            out.push(clean);
            assert(string_views(out@) =~= prev.push(out@.last()@));
        }
        i = i + 1;
    }
    assert(cleaned.take(ls@.len() as int) =~= cleaned);
    out
}

/// Scans some items, numbered from zero, extending the seen keys and the
/// signals; an item is picked as `picked` says, and becomes a signal while
/// fewer than `signal_cap()` were made.
#[verifier::rlimit(60)]
#[verifier::spinoff_prover]
fn scan(
    path: &str,
    from_line: bool,
    texts: &Vec<String>,
    seen: &mut Vec<String>,
    out: &mut Vec<OnedriveSignal>,
    Ghost(before): Ghost<Seq<(bool, int, Seq<char>)>>,
)
    requires
        string_views(old(seen)@) == picked(before).0,
        old(out)@.map_values(|s: OnedriveSignal| signal_item(s)) == capped(picked(before).1),
        forall|k: int| 0 <= k < old(out)@.len() ==> signal_ok(path@, #[trigger] old(out)@[k]),
    ensures
        ({
            let all = before + Seq::new(texts@.len(), |i: int| (from_line, i, texts@[i]@));
            &&& string_views(final(seen)@) == picked(all).0
            &&& final(out)@.map_values(|s: OnedriveSignal| signal_item(s)) == capped(picked(all).1)
            &&& forall|k: int| 0 <= k < final(out)@.len() ==> signal_ok(path@, #[trigger] final(out)@[k])
        }),
{
    let ghost items = Seq::new(texts@.len(), |i: int| (from_line, i, texts@[i]@));
    let mut i: usize = 0;
    assert(before + items.take(0) =~= before);
    while i < texts.len()
        invariant
            i <= texts@.len(),
            items == Seq::new(texts@.len(), |i: int| (from_line, i, texts@[i]@)),
            string_views(seen@) == picked(before + items.take(i as int)).0,
            out@.map_values(|s: OnedriveSignal| signal_item(s)) == capped(
                picked(before + items.take(i as int)).1,
            ),
            forall|k: int| 0 <= k < out@.len() ==> signal_ok(path@, #[trigger] out@[k]),
        decreases texts@.len() - i,
    {
        let ghost prefix = before + items.take(i as int);
        let ghost next = before + items.take(i + 1);
        assert(next.drop_last() =~= prefix);
        assert(next.last() == (from_line, i as int, texts@[i as int]@));
        let t = texts[i].as_str();
        let l = lower_of(t);
        let ls = string_from(l.as_slice());
        let keep = onedrive_line_interesting(ls.as_str()) || (from_line && i <= 2000);
        if keep {
            let key = key_of(from_line, t);
            if !contains_chars_vec_pub(seen, key.as_slice()) {
                let ghost prev_seen = string_views(seen@);
                seen.push(string_from(key.as_slice()));
                assert(string_views(seen@) =~= prev_seen.push(key@));
                if out.len() < 12000 {
                    let s = signal_of(path, from_line, i, texts[i].clone());
                    let ghost prev_out = out@.map_values(|s: OnedriveSignal| signal_item(s));
                    out.push(s);
                    assert(out@.map_values(|s: OnedriveSignal| signal_item(s)) =~= prev_out.push(
                        signal_item(s),
                    ));
                    assert(capped(picked(next).1) =~= capped(picked(prefix).1).push(
                        (from_line, i as int, texts@[i as int]@),
                    ));
                } else {
                    assert(capped(picked(next).1) =~= capped(picked(prefix).1));
                }
            }
        }
        i = i + 1;
    }
    assert(items.take(texts@.len() as int) =~= items);
}

/// The signals of a OneDrive log found at `original_path`, from its text (when
/// it has one) and the strings of its bytes: each line or string once, at most
/// twelve thousand, in order.
pub fn onedrive_signals(original_path: &str, bytes: &[u8], text: Option<&str>) -> (r: Vec<
    OnedriveSignal,
>)
    ensures
        r@.map_values(|s: OnedriveSignal| signal_item(s)) == capped(
            picked(
                scan_items(
                    match text {
                        Some(t) => Some(t@),
                        None => None,
                    },
                    bytes@,
                ),
            ).1,
        ),
        forall|k: int| 0 <= k < r@.len() ==> signal_ok(original_path@, #[trigger] r@[k]),
{
    let mut seen: Vec<String> = Vec::new();
    let mut out: Vec<OnedriveSignal> = Vec::new();
    let lines = match text {
        Some(t) => clean_line_list(t),
        None => Vec::new(),
    };
    let ghost empty: Seq<(bool, int, Seq<char>)> = Seq::empty();
    assert(string_views(seen@) =~= picked(empty).0);
    assert(out@.map_values(|s: OnedriveSignal| signal_item(s)) =~= capped(picked(empty).1));
    scan(original_path, true, &lines, &mut seen, &mut out, Ghost(empty));
    let ghost after_lines = empty + Seq::new(lines@.len(), |i: int| (true, i, lines@[i]@));
    let raw = extract_forensic_strings(bytes, 80000);
    let mut strings: Vec<String> = Vec::new();
    let mut j: usize = 0;
    while j < raw.len()
        invariant
            j <= raw@.len(),
            strings@.len() == j,
            forall|k: int| 0 <= k < j ==> #[trigger] strings@[k]@ == display_text(raw@[k]@),
        decreases raw@.len() - j,
    {
        strings.push(sanitize_display_text(raw[j].as_str()));
        j = j + 1;
    }
    scan(original_path, false, &strings, &mut seen, &mut out, Ghost(after_lines));
    proof {
        let tv = match text {
            Some(t) => Some(t@),
            None => None,
        };
        let ls = match tv {
            Some(t) => clean_lines(t),
            None => Seq::empty(),
        };
        let ss = forensic_from(all_strings(bytes@), 0, Seq::empty(), 80000);
        assert(string_views(raw@) == ss);
        assert(after_lines =~= Seq::new(ls.len(), |i: int| (true, i, ls[i])));
        assert(Seq::new(strings@.len(), |i: int| (false, i, strings@[i]@)) =~= Seq::new(
            ss.len(),
            |i: int| (false, i, display_text(ss[i])),
        ));
        assert(after_lines + Seq::new(strings@.len(), |i: int| (false, i, strings@[i]@)) =~= scan_items(
            tv,
            bytes@,
        ));
    }
    out
}

} // verus!
