//! JSON values as exports carry them, and the two ways their scalar fields are
//! read: by dotted path, and by normalised field name.
use vstd::prelude::*;
use crate::artifact::{normalize_header, normalized};
use crate::text::{chars_of, concat_str, eq_str, string_of};

verus! {

broadcast use vstd::std_specs::vec::axiom_vec_index_decreases;

/// A JSON value. Numbers and booleans keep the text JSON writes them as.
pub enum JsonNode {
    Null,
    Literal(String),
    Text(String),
    Array(Vec<JsonNode>),
    Object(Vec<(String, JsonNode)>),
}

/// The path of field `key` below `prefix`: the key alone at the top, else the
/// two joined by a dot.
pub open spec fn child_path(prefix: Seq<char>, key: Seq<char>) -> Seq<char> {
    if prefix.len() == 0 {
        key
    } else {
        prefix + seq!['.'] + key
    }
}

/// The scalar values of `v` with their dotted paths, in document order; a null
/// gives nothing and the items of an array share its path.
pub open spec fn scalars_of(v: JsonNode, prefix: Seq<char>) -> Seq<(Seq<char>, Seq<char>)>
    decreases v, 0int,
{
    match v {
        JsonNode::Null => Seq::empty(),
        JsonNode::Literal(t) => seq![(prefix, t@)],
        JsonNode::Text(t) => seq![(prefix, t@)],
        JsonNode::Array(vs) => items_scalars(vs@, prefix),
        JsonNode::Object(es) => fields_scalars(es@, prefix),
    }
}

pub open spec fn items_scalars(s: Seq<JsonNode>, prefix: Seq<char>) -> Seq<(Seq<char>, Seq<char>)>
    decreases s, s.len(),
{
    if s.len() == 0 {
        Seq::empty()
    } else {
        scalars_of(s[0], prefix) + items_scalars(s.drop_first(), prefix)
    }
}

pub open spec fn fields_scalars(s: Seq<(String, JsonNode)>, prefix: Seq<char>) -> Seq<
    (Seq<char>, Seq<char>),
>
    decreases s, s.len(),
{
    if s.len() == 0 {
        Seq::empty()
    } else {
        scalars_of(s[0].1, child_path(prefix, s[0].0@)) + fields_scalars(s.drop_first(), prefix)
    }
}

pub open spec fn pair_views(v: Seq<(String, String)>) -> Seq<(Seq<char>, Seq<char>)> {
    v.map_values(|p: (String, String)| (p.0@, p.1@))
}

proof fn lemma_pair_views_push(v: Seq<(String, String)>, p: (String, String))
    ensures
        pair_views(v.push(p)) == pair_views(v).push((p.0@, p.1@)),
{
    assert(pair_views(v.push(p)) =~= pair_views(v).push((p.0@, p.1@)));
}

fn dotted_path(prefix: &str, key: &str) -> (r: String)
    ensures
        r@ == child_path(prefix@, key@),
{
    let pc = chars_of(prefix);
    if pc.len() == 0 {
        string_of(key)
    } else {
        let dot = ".";
        proof {
            reveal_strlit(".");
        }
        let with_dot = concat_str(prefix, dot);
        concat_str(with_dot.as_str(), key)
    }
}

/// Appends to `out` the scalar values of `value` with their dotted paths below
/// `prefix`, in document order.
pub fn collect_json_scalar_values(value: &JsonNode, prefix: &str, out: &mut Vec<(String, String)>)
    ensures
        pair_views(final(out)@) == pair_views(old(out)@) + scalars_of(*value, prefix@),
    decreases value,
{
    match value {
        JsonNode::Null => {
            assert(pair_views(out@) + Seq::<(Seq<char>, Seq<char>)>::empty() =~= pair_views(out@));
        },
        JsonNode::Literal(t) => {
            let item = (string_of(prefix), string_of(t.as_str()));
            proof {
                lemma_pair_views_push(out@, item);
            }
            out.push(item);
        },
        JsonNode::Text(t) => {
            let item = (string_of(prefix), string_of(t.as_str()));
            proof {
                lemma_pair_views_push(out@, item);
            }
            out.push(item);
        },
        JsonNode::Array(vs) => {
            let mut i: usize = 0;
            assert(vs@.skip(0) =~= vs@);
            while i < vs.len()
                invariant
                    i <= vs@.len(),
                    *value == JsonNode::Array(*vs),
                    pair_views(out@) + items_scalars(vs@.skip(i as int), prefix@) == pair_views(
                        old(out)@,
                    ) + items_scalars(vs@, prefix@),
                decreases vs@.len() - i,
            {
                let ghost before = pair_views(out@);
                let ghost rest = vs@.skip(i as int);
                assert(rest.drop_first() =~= vs@.skip(i + 1));
                assert(rest[0] == vs@[i as int]);
                assert(decreases_to!(*value => (*value)->Array_0));
                assert(decreases_to!(*vs => vs[i as int]));
                collect_json_scalar_values(&vs[i], prefix, out);
                assert(pair_views(out@) + items_scalars(vs@.skip(i + 1), prefix@) =~= before
                    + items_scalars(rest, prefix@));
                i = i + 1;
            }
            assert(vs@.skip(i as int) =~= Seq::<JsonNode>::empty());
            assert(pair_views(out@) + Seq::<(Seq<char>, Seq<char>)>::empty() =~= pair_views(out@));
        },
        JsonNode::Object(es) => {
            let mut i: usize = 0;
            assert(es@.skip(0) =~= es@);
            while i < es.len()
                invariant
                    i <= es@.len(),
                    *value == JsonNode::Object(*es),
                    pair_views(out@) + fields_scalars(es@.skip(i as int), prefix@) == pair_views(
                        old(out)@,
                    ) + fields_scalars(es@, prefix@),
                decreases es@.len() - i,
            {
                let ghost before = pair_views(out@);
                let ghost rest = es@.skip(i as int);
                assert(rest.drop_first() =~= es@.skip(i + 1));
                assert(rest[0] == es@[i as int]);
                let (key, child) = &es[i];
                assert(decreases_to!(*value => (*value)->Object_0));
                assert(decreases_to!(*es => es[i as int]));
                let path = dotted_path(prefix, key.as_str());
                collect_json_scalar_values(child, path.as_str(), out);
                assert(pair_views(out@) + fields_scalars(es@.skip(i + 1), prefix@) =~= before
                    + fields_scalars(rest, prefix@));
                i = i + 1;
            }
            assert(es@.skip(i as int) =~= Seq::<(String, JsonNode)>::empty());
            assert(pair_views(out@) + Seq::<(Seq<char>, Seq<char>)>::empty() =~= pair_views(out@));
        },
    }
}

/// The scalar fields of `v` at any depth, in document order, each under its
/// normalised field name; array items bring their own fields, nulls nothing.
pub open spec fn named_scalars(v: JsonNode) -> Seq<(Seq<char>, Seq<char>)>
    decreases v, 0int,
{
    match v {
        JsonNode::Array(vs) => items_named(vs@),
        JsonNode::Object(es) => fields_named(es@),
        _ => Seq::empty(),
    }
}

pub open spec fn items_named(s: Seq<JsonNode>) -> Seq<(Seq<char>, Seq<char>)>
    decreases s, s.len(),
{
    if s.len() == 0 {
        Seq::empty()
    } else {
        named_scalars(s[0]) + items_named(s.drop_first())
    }
}

pub open spec fn fields_named(s: Seq<(String, JsonNode)>) -> Seq<(Seq<char>, Seq<char>)>
    decreases s, s.len(),
{
    if s.len() == 0 {
        Seq::empty()
    } else {
        let here = match s[0].1 {
            JsonNode::Null => Seq::empty(),
            JsonNode::Literal(t) => seq![(normalized(s[0].0@), t@)],
            JsonNode::Text(t) => seq![(normalized(s[0].0@), t@)],
            _ => named_scalars(s[0].1),
        };
        here + fields_named(s.drop_first())
    }
}

/// Whether some pair of `out` has the name `name`.
pub open spec fn has_name(out: Seq<(Seq<char>, Seq<char>)>, name: Seq<char>) -> bool {
    exists|k: int| 0 <= k < out.len() && #[trigger] out[k].0 == name
}

/// `out` with `p` added, unless its name is already there.
pub open spec fn kept_first(out: Seq<(Seq<char>, Seq<char>)>, p: (Seq<char>, Seq<char>)) -> Seq<
    (Seq<char>, Seq<char>),
> {
    if has_name(out, p.0) {
        out
    } else {
        out.push(p)
    }
}

/// `out` with each pair of `ps` added in turn, the first value of a name kept.
pub open spec fn kept_all(out: Seq<(Seq<char>, Seq<char>)>, ps: Seq<(Seq<char>, Seq<char>)>) -> Seq<
    (Seq<char>, Seq<char>),
>
    decreases ps.len(),
{
    if ps.len() == 0 {
        out
    } else {
        kept_all(kept_first(out, ps[0]), ps.drop_first())
    }
}

proof fn lemma_kept_all_concat(
    out: Seq<(Seq<char>, Seq<char>)>,
    a: Seq<(Seq<char>, Seq<char>)>,
    b: Seq<(Seq<char>, Seq<char>)>,
)
    ensures
        kept_all(out, a + b) == kept_all(kept_all(out, a), b),
    decreases a.len(),
{
    if a.len() == 0 {
        assert(a + b =~= b);
    } else {
        assert((a + b)[0] == a[0]);
        assert((a + b).drop_first() =~= a.drop_first() + b);
        lemma_kept_all_concat(kept_first(out, a[0]), a.drop_first(), b);
    }
}

fn keep_first(out: &mut Vec<(String, String)>, name: String, text: String)
    ensures
        pair_views(final(out)@) == kept_first(pair_views(old(out)@), (name@, text@)),
{
    let ghost ov = pair_views(out@);
    let mut found = false;
    let mut k: usize = 0;
    while k < out.len()
        invariant
            k <= out@.len(),
            ov == pair_views(out@),
            found <==> exists|j: int| 0 <= j < k && #[trigger] ov[j].0 == name@,
        decreases out@.len() - k,
    {
        let ec = chars_of(out[k].0.as_str());
        if eq_str(ec.as_slice(), name.as_str()) {
            found = true;
        }
        assert(ov[k as int].0 == out@[k as int].0@);
        k = k + 1;
    }
    if !found {
        proof {
            lemma_pair_views_push(out@, (name, text));
        }
        out.push((name, text));
    }
}

/// Adds to `out` the scalar fields of `value` at any depth under their
/// normalised names, in document order; a name already present keeps its
/// first value.
pub fn flatten_json(value: &JsonNode, out: &mut Vec<(String, String)>)
    ensures
        pair_views(final(out)@) == kept_all(pair_views(old(out)@), named_scalars(*value)),
    decreases value,
{
    match value {
        JsonNode::Array(vs) => {
            let mut i: usize = 0;
            assert(vs@.skip(0) =~= vs@);
            while i < vs.len()
                invariant
                    i <= vs@.len(),
                    *value == JsonNode::Array(*vs),
                    kept_all(pair_views(out@), items_named(vs@.skip(i as int))) == kept_all(
                        pair_views(old(out)@),
                        items_named(vs@),
                    ),
                decreases vs@.len() - i,
            {
                let ghost before = pair_views(out@);
                let ghost rest = vs@.skip(i as int);
                assert(rest.drop_first() =~= vs@.skip(i + 1));
                assert(rest[0] == vs@[i as int]);
                assert(decreases_to!(*value => (*value)->Array_0));
                assert(decreases_to!(*vs => vs[i as int]));
                proof {
                    lemma_kept_all_concat(before, named_scalars(rest[0]), items_named(rest.drop_first()));
                }
                flatten_json(&vs[i], out);
                i = i + 1;
            }
            assert(vs@.skip(i as int) =~= Seq::<JsonNode>::empty());
        },
        JsonNode::Object(es) => {
            let mut i: usize = 0;
            assert(es@.skip(0) =~= es@);
            while i < es.len()
                invariant
                    i <= es@.len(),
                    *value == JsonNode::Object(*es),
                    kept_all(pair_views(out@), fields_named(es@.skip(i as int))) == kept_all(
                        pair_views(old(out)@),
                        fields_named(es@),
                    ),
                decreases es@.len() - i,
            {
                let ghost before = pair_views(out@);
                let ghost rest = es@.skip(i as int);
                assert(rest.drop_first() =~= es@.skip(i + 1));
                assert(rest[0] == es@[i as int]);
                let (key, child) = &es[i];
                let ghost here = match rest[0].1 {
                    JsonNode::Null => Seq::empty(),
                    JsonNode::Literal(t) => seq![(normalized(rest[0].0@), t@)],
                    JsonNode::Text(t) => seq![(normalized(rest[0].0@), t@)],
                    _ => named_scalars(rest[0].1),
                };
                proof {
                    lemma_kept_all_concat(before, here, fields_named(rest.drop_first()));
                }
                match child {
                    JsonNode::Null => {},
                    JsonNode::Literal(t) => {
                        let name = normalize_header(key.as_str());
                        keep_first(out, name, string_of(t.as_str()));
                        assert(here.len() == 1 && here.drop_first() =~= Seq::<(Seq<char>, Seq<char>)>::empty());
                        assert(kept_all(before, here) == kept_first(before, here[0])) by {
                            reveal_with_fuel(kept_all, 2);
                        }
                    },
                    JsonNode::Text(t) => {
                        let name = normalize_header(key.as_str());
                        keep_first(out, name, string_of(t.as_str()));
                        assert(here.len() == 1 && here.drop_first() =~= Seq::<(Seq<char>, Seq<char>)>::empty());
                        assert(kept_all(before, here) == kept_first(before, here[0])) by {
                            reveal_with_fuel(kept_all, 2);
                        }
                    },
                    _ => {
                        assert(decreases_to!(*value => (*value)->Object_0));
                        assert(decreases_to!(*es => es[i as int]));
                        flatten_json(child, out);
                    },
                }
                i = i + 1;
            }
            assert(es@.skip(i as int) =~= Seq::<(String, JsonNode)>::empty());
        },
        _ => {},
    }
}

} // verus!
