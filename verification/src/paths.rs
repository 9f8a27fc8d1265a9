//! Paths found in free text: the candidates of a message, the path after a label,
//! recently used documents and shell folders.
use vstd::prelude::*;
use crate::decode::opt_view;
use crate::extract::{
    first_path, first_path_chars, path_candidate, path_candidate_chars, token_break_chars,
    tokens,
};
use crate::strings::string_views;
use crate::text::{
    chars_of, contains, contains_str, ends_with, ends_with_any, ends_with_any_str, fields,
    fields_of, find, find_chars, lower, lower_chars, rfind_sep, rfind_sep_exec, seq_eq,
    starts_with, starts_with_str, string_from, trim_set, trim_set_chars, views, vviews,
};

verus! {

// ---------------------------------------------------------------------------
// Candidates
// ---------------------------------------------------------------------------
/// The distinct paths read from `ts[i..]`, after `acc`, in order.
pub open spec fn path_candidates_from(ts: Seq<Seq<char>>, i: int, acc: Seq<Seq<char>>) -> Seq<
    Seq<char>,
>
    decreases ts.len() - i,
{
    if i < 0 || i >= ts.len() {
        acc
    } else {
        match path_candidate(ts[i]) {
            Some(c) => if acc.contains(c) {
                path_candidates_from(ts, i + 1, acc)
            } else {
                path_candidates_from(ts, i + 1, acc.push(c))
            },
            None => path_candidates_from(ts, i + 1, acc),
        }
    }
}

/// The distinct paths among the tokens of a message, in order of appearance.
pub open spec fn path_candidates(m: Seq<char>) -> Seq<Seq<char>> {
    path_candidates_from(tokens(m), 0, Seq::empty())
}

fn contains_view(v: &Vec<String>, x: &[char]) -> (r: bool)
    ensures
        r == string_views(v@).contains(x@),
{
    crate::strings::contains_chars_vec_pub(v, x)
}

pub(crate) fn path_candidates_chars(m: &[char]) -> (r: Vec<String>)
    ensures
        string_views(r@) == path_candidates(m@),
{
    let breaks = token_break_chars();
    let parts = fields_of(m, true, &breaks);
    let ghost ps = vviews(parts@);
    let mut out: Vec<String> = Vec::new();
    assert(string_views(out@) =~= Seq::<Seq<char>>::empty());
    let mut i: usize = 0;
    while i < parts.len()
        invariant
            i <= parts.len(),
            ps == vviews(parts@),
            ps == tokens(m@),
            path_candidates(m@) == path_candidates_from(ps, i as int, string_views(out@)),
        decreases parts.len() - i,
    {
        assert(ps[i as int] == parts@[i as int]@);
        match path_candidate_chars(parts[i].as_slice()) {
            Some(c) => {
                if !contains_view(&out, c.as_slice()) {
                    let ghost prev = string_views(out@);
                    out.push(string_from(c.as_slice()));
                    assert(string_views(out@) =~= prev.push(c@));
                }
            },
            None => {},
        }
        i = i + 1;
    }
    out
}

pub fn extract_path_like_candidates(message: &str) -> (r: Vec<String>)
    ensures
        string_views(r@) == path_candidates(message@),
{
    let m = chars_of(message);
    path_candidates_chars(m.as_slice())
}

pub fn sanitize_path_candidate(value: &str) -> (r: Option<String>)
    ensures
        opt_view(r) == path_candidate(value@),
{
    let v = chars_of(value);
    match path_candidate_chars(v.as_slice()) {
        Some(c) => Some(string_from(c.as_slice())),
        None => None,
    }
}

/// The first path that follows one of the labels, tried in order, where each
/// label is found ignoring ASCII case.
pub open spec fn path_near_label(m: Seq<char>, labels: Seq<Seq<char>>, i: int) -> Option<Seq<char>>
    decreases labels.len() - i,
{
    if i < 0 || i >= labels.len() {
        None
    } else {
        match find(lower(m), lower(labels[i])) {
            None => path_near_label(m, labels, i + 1),
            Some(k) => match first_path(m.subrange(k + labels[i].len(), m.len() as int)) {
                Some(p) => Some(p),
                None => path_near_label(m, labels, i + 1),
            },
        }
    }
}

pub fn extract_path_near_label(message: &str, labels: &[&str]) -> (r: Option<String>)
    ensures
        opt_view(r) == path_near_label(message@, views(labels@), 0),
{
    let m = chars_of(message);
    let lm = lower_chars(m.as_slice());
    let ghost ls = views(labels@);
    let mut i: usize = 0;
    while i < labels.len()
        invariant
            i <= labels.len(),
            ls == views(labels@),
            m@ == message@,
            lm@ == lower(m@),
            path_near_label(message@, ls, 0) == path_near_label(message@, ls, i as int),
        decreases labels.len() - i,
    {
        let lc = chars_of(labels[i]);
        let ll = lower_chars(lc.as_slice());
        assert(ls[i as int] == lc@);
        match find_chars(lm.as_slice(), ll.as_slice()) {
            Some(k) => {
                assert(lower(m@).len() == m@.len());
                assert(lower(lc@).len() == lc@.len());
                let after = crate::text::slice_to_vec(m.as_slice(), k + lc.len(), m.len());
                match first_path_chars(after.as_slice()) {
                    Some(p) => {
                        return Some(string_from(p.as_slice()));
                    },
                    None => {},
                }
            },
            None => {},
        }
        i = i + 1;
    }
    None
}

// ---------------------------------------------------------------------------
// Documents and folders
// ---------------------------------------------------------------------------
pub open spec fn recent_suffixes() -> Seq<Seq<char>> {
    seq![
        ".doc"@, ".docx"@, ".xls"@, ".xlsx"@, ".ppt"@, ".pptx"@, ".pdf"@, ".txt"@, ".rtf"@,
        ".csv"@, ".zip"@, ".7z"@, ".rar"@, ".jpg"@, ".jpeg"@, ".png"@, ".bmp"@, ".lnk"@,
        ".exe"@, ".ps1"@, ".bat"@, ".cmd"@, ".js"@, ".vbs"@,
    ]
}

/// A file name of a kind that recent-document lists record: a non-empty stem
/// before its last dot, and a known extension.
pub open spec fn recent_document_name(v: Seq<char>) -> bool {
    let l = lower(v);
    rfind_sep(l, seq!['.'], l.len() as int) >= 1 && ends_with_any(l, recent_suffixes())
}

fn recent_document_chars(v: &[char]) -> (r: bool)
    ensures
        r == recent_document_name(v@),
{
    let l = lower_chars(v);
    let dot = ['.'];
    assert(dot@ =~= seq!['.']);
    match rfind_sep_exec(l.as_slice(), &dot, l.len()) {
        None => false,
        Some(p) => {
            if p < 1 {
                return false;
            }
            let sfx = [
                ".doc",
                ".docx",
                ".xls",
                ".xlsx",
                ".ppt",
                ".pptx",
                ".pdf",
                ".txt",
                ".rtf",
                ".csv",
                ".zip",
                ".7z",
                ".rar",
                ".jpg",
                ".jpeg",
                ".png",
                ".bmp",
                ".lnk",
                ".exe",
                ".ps1",
                ".bat",
                ".cmd",
                ".js",
                ".vbs",
            ];
            assert(views(sfx@) =~= recent_suffixes());
            ends_with_any_str(l.as_slice(), &sfx)
        },
    }
}

pub fn is_recent_document_name(value: &str) -> (r: bool)
    ensures
        r == recent_document_name(value@),
{
    let v = chars_of(value);
    recent_document_chars(v.as_slice())
}

/// Where a text is cut into words when looking for document names.
pub open spec fn document_breaks() -> Seq<char> {
    seq!['"', '\'', ',', ';', '<', '>', '(', ')', '[', ']', '{', '}', '\0']
}

pub open spec fn document_trims() -> Seq<char> {
    seq![':', '.', ',', ';']
}

/// The first word of a text, trimmed of `:`, `.`, `,` and `;`, that names a
/// recent document.
pub open spec fn recent_document_from(ws: Seq<Seq<char>>, i: int) -> Option<Seq<char>>
    decreases ws.len() - i,
{
    if i < 0 || i >= ws.len() {
        None
    } else if recent_document_name(trim_set(ws[i], document_trims())) {
        Some(trim_set(ws[i], document_trims()))
    } else {
        recent_document_from(ws, i + 1)
    }
}

pub open spec fn recent_document_candidate(v: Seq<char>) -> Option<Seq<char>> {
    recent_document_from(fields(v, true, document_breaks()), 0)
}

pub fn extract_recent_document_candidate(value: &str) -> (r: Option<String>)
    ensures
        opt_view(r) == recent_document_candidate(value@),
{
    let v = chars_of(value);
    let breaks = ['"', '\'', ',', ';', '<', '>', '(', ')', '[', ']', '{', '}', '\0'];
    assert(breaks@ =~= document_breaks());
    let trims = [':', '.', ',', ';'];
    assert(trims@ =~= document_trims());
    let parts = fields_of(v.as_slice(), true, &breaks);
    let ghost ws = vviews(parts@);
    let mut i: usize = 0;
    while i < parts.len()
        invariant
            i <= parts.len(),
            ws == vviews(parts@),
            ws == fields(value@, true, document_breaks()),
            trims@ == document_trims(),
            recent_document_candidate(value@) == recent_document_from(ws, i as int),
        decreases parts.len() - i,
    {
        assert(ws[i as int] == parts@[i as int]@);
        let t = trim_set_chars(parts[i].as_slice(), &trims);
        if recent_document_chars(t.as_slice()) {
            return Some(string_from(t.as_slice()));
        }
        i = i + 1;
    }
    None
}

/// A candidate that looks like a folder a user browsed: not a registry path, and
/// on a drive, a share or under a user profile.
pub open spec fn shell_folder(c: Seq<char>) -> bool {
    let l = lower(c);
    !starts_with(l, "software\\"@) && !starts_with(l, "system\\"@) && (contains(l, ":\\"@)
        || starts_with(l, "\\\\"@) || contains(l, "\\users\\"@) || contains(l, "/users/"@))
}

/// A candidate under a desktop or downloads folder.
pub open spec fn user_folder(c: Seq<char>) -> bool {
    let l = lower(c);
    contains(l, "\\desktop"@) || contains(l, "\\downloads"@) || contains(l, "/desktop"@)
        || contains(l, "/downloads"@)
}

pub open spec fn first_where(cs: Seq<Seq<char>>, p: spec_fn(Seq<char>) -> bool, i: int) -> Option<
    Seq<char>,
>
    decreases cs.len() - i,
{
    if i < 0 || i >= cs.len() {
        None
    } else if p(cs[i]) {
        Some(cs[i])
    } else {
        first_where(cs, p, i + 1)
    }
}

/// The first path candidate that is a browsed folder, else the first under a
/// desktop or downloads folder.
pub open spec fn shellbag_folder(m: Seq<char>) -> Option<Seq<char>> {
    let cs = path_candidates(m);
    match first_where(cs, |c: Seq<char>| shell_folder(c), 0) {
        Some(c) => Some(c),
        None => first_where(cs, |c: Seq<char>| user_folder(c), 0),
    }
}

fn shell_folder_chars(c: &[char]) -> (r: bool)
    ensures
        r == shell_folder(c@),
{
    let l = lower_chars(c);
    let s = l.as_slice();
    !starts_with_str(s, "software\\") && !starts_with_str(s, "system\\") && (contains_str(s, ":\\")
        || starts_with_str(s, "\\\\") || contains_str(s, "\\users\\") || contains_str(s, "/users/"))
}

fn user_folder_chars(c: &[char]) -> (r: bool)
    ensures
        r == user_folder(c@),
{
    let l = lower_chars(c);
    let s = l.as_slice();
    contains_str(s, "\\desktop") || contains_str(s, "\\downloads") || contains_str(s, "/desktop")
        || contains_str(s, "/downloads")
}

pub fn extract_shellbag_folder_candidate(message: &str) -> (r: Option<String>)
    ensures
        opt_view(r) == shellbag_folder(message@),
{
    let cs = extract_path_like_candidates(message);
    let ghost all = string_views(cs@);
    let ghost p1 = |c: Seq<char>| shell_folder(c);
    let ghost p2 = |c: Seq<char>| user_folder(c);
    let mut i: usize = 0;
    while i < cs.len()
        invariant
            i <= cs.len(),
            all == string_views(cs@),
            all == path_candidates(message@),
            p1 == (|c: Seq<char>| shell_folder(c)),
            first_where(all, p1, 0) == first_where(all, p1, i as int),
        decreases cs.len() - i,
    {
        assert(all[i as int] == cs@[i as int]@);
        let c = chars_of(cs[i].as_str());
        if shell_folder_chars(c.as_slice()) {
            return Some(cs[i].clone());
        }
        i = i + 1;
    }
    let mut j: usize = 0;
    while j < cs.len()
        invariant
            j <= cs.len(),
            all == string_views(cs@),
            all == path_candidates(message@),
            first_where(all, p1, 0) is None,
            p1 == (|c: Seq<char>| shell_folder(c)),
            p2 == (|c: Seq<char>| user_folder(c)),
            first_where(all, p2, 0) == first_where(all, p2, j as int),
        decreases cs.len() - j,
    {
        assert(all[j as int] == cs@[j as int]@);
        let c = chars_of(cs[j].as_str());
        if user_folder_chars(c.as_slice()) {
            return Some(cs[j].clone());
        }
        j = j + 1;
    }
    None
}

} // verus!
