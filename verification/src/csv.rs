//! Comma-separated exports: the first non-blank line names the columns, each
//! later non-blank line is a row of the cells that hold a value.
use vstd::prelude::*;
use crate::artifact::{normalize_header, normalized};
use crate::decode::{lines, lines_of};
use crate::row::{entries, row_map, row_of, vec_strings};
use crate::text::{string_from, trim, trim_chars, vviews, chars_of};
use crate::xml::{csv_fields, split_csv_line};

verus! {

/// The lines that hold more than white space.
pub open spec fn nonblank_lines(ls: Seq<Seq<char>>) -> Seq<Seq<char>>
    decreases ls.len(),
{
    if ls.len() == 0 {
        Seq::empty()
    } else {
        let prev = nonblank_lines(ls.drop_last());
        if trim(ls.last()).len() > 0 {
            prev.push(ls.last())
        } else {
            prev
        }
    }
}

/// The column names of a header line, normalised.
pub open spec fn csv_headers(line: Seq<char>) -> Seq<Seq<char>> {
    csv_fields(line).map_values(|h: Seq<char>| normalized(h))
}

/// The rows after the header line `ls[0]`, each mapping the columns to the
/// cells of its line that hold a value.
pub open spec fn csv_rows_after(ls: Seq<Seq<char>>) -> Seq<Seq<(Seq<char>, Seq<char>)>> {
    let hs = csv_headers(ls[0]);
    Seq::new(
        (ls.len() - 1) as nat,
        |i: int| row_of(hs, csv_fields(ls[i + 1]), hs.len() as int),
    )
}

/// The rows of a comma-separated text: none without a header line.
pub open spec fn csv_rows_of(text: Seq<char>) -> Seq<Seq<(Seq<char>, Seq<char>)>> {
    let ls = nonblank_lines(lines(text));
    if ls.len() == 0 {
        Seq::empty()
    } else {
        csv_rows_after(ls)
    }
}

pub open spec fn row_views(rows: Seq<Vec<(String, String)>>) -> Seq<Seq<(Seq<char>, Seq<char>)>> {
    rows.map_values(|r: Vec<(String, String)>| entries(r@))
}

fn header_names(line: &str) -> (r: Vec<String>)
    ensures
        vec_strings(r@) == csv_headers(line@),
{
    let fields = split_csv_line(line);
    let mut out: Vec<String> = Vec::new();
    let mut i: usize = 0;
    while i < fields.len()
        invariant
            i <= fields@.len(),
            vec_strings(fields@) == csv_fields(line@),
            vec_strings(out@) == csv_fields(line@).take(i as int).map_values(
                |h: Seq<char>| normalized(h),
            ),
        decreases fields@.len() - i,
    {
        let h = normalize_header(fields[i].as_str());
        let ghost prev = vec_strings(out@);
        out.push(h);
        assert(vec_strings(out@) =~= prev.push(normalized(fields@[i as int]@)));
        assert(csv_fields(line@).take(i + 1).map_values(|h: Seq<char>| normalized(h))
            =~= csv_fields(line@).take(i as int).map_values(|h: Seq<char>| normalized(h)).push(
            normalized(csv_fields(line@)[i as int]),
        ));
        i = i + 1;
    }
    assert(csv_fields(line@).take(fields@.len() as int) =~= csv_fields(line@));
    out
}

/// The rows of a comma-separated export: the first non-blank line names the
/// columns (normalised), and each later non-blank line maps them to its cells.
pub fn csv_rows(text: &str) -> (r: Vec<Vec<(String, String)>>)
    ensures
        row_views(r@) == csv_rows_of(text@),
{
    let tc = chars_of(text);
    let ls = lines_of(tc.as_slice());
    let ghost lv = vviews(ls@);
    let mut headers: Option<Vec<String>> = None;
    let mut rows: Vec<Vec<(String, String)>> = Vec::new();
    let mut i: usize = 0;
    while i < ls.len()
        invariant
            i <= ls@.len(),
            lv == vviews(ls@),
            lv == lines(text@),
            ({
                let nb = nonblank_lines(lv.take(i as int));
                &&& nb.len() == 0 ==> headers is None && rows@.len() == 0
                &&& nb.len() > 0 ==> (headers matches Some(h) && vec_strings(h@) == csv_headers(nb[0])
                    && row_views(rows@) == csv_rows_after(nb))
            }),
        decreases ls@.len() - i,
    {
        let ghost before = nonblank_lines(lv.take(i as int));
        assert(lv.take(i + 1).drop_last() =~= lv.take(i as int));
        assert(lv.take(i + 1).last() == ls@[i as int]@);
        let t = trim_chars(ls[i].as_slice());
        if t.len() > 0 {
            let line = string_from(ls[i].as_slice());
            let ghost nb = before.push(ls@[i as int]@);
            assert(nonblank_lines(lv.take(i + 1)) == nb);
            match &headers {
                None => {
                    headers = Some(header_names(line.as_str()));
                    assert(nb[0] == ls@[i as int]@);
                    assert(csv_rows_after(nb) =~= Seq::<Seq<(Seq<char>, Seq<char>)>>::empty());
                    assert(row_views(rows@) =~= Seq::<Seq<(Seq<char>, Seq<char>)>>::empty());
                },
                Some(h) => {
                    let cells = split_csv_line(line.as_str());
                    let row = row_map(h.as_slice(), cells.as_slice());
                    let ghost prev = row_views(rows@);
                    assert(nb[0] == before[0]);
                    rows.push(row);
                    assert(row_views(rows@) =~= prev.push(entries(rows@.last()@)));
                    assert(csv_rows_after(nb) =~= csv_rows_after(before).push(
                        row_of(csv_headers(nb[0]), csv_fields(ls@[i as int]@), csv_headers(nb[0]).len() as int),
                    ));
                },
            }
        } else {
            assert(nonblank_lines(lv.take(i + 1)) == before);
        }
        i = i + 1;
    }
    assert(lv.take(ls@.len() as int) =~= lv);
    rows
}

} // verus!
