//! JSON map writing: escaped strings, entry separators, and the text of a
//! whole map, in both compact and pretty form.

use vstd::prelude::*;
use crate::value::{spec_json_value, push_value, Value};

verus! {

/// The JSON string serialization (including the surrounding double quotes)
/// of a character sequence, as the JSON backend produces it.
pub uninterp spec fn json_str_of(s: Seq<char>) -> Seq<char>;

/// A character the JSON string escaper passes through unchanged: anything
/// but `"`, `\` and the control characters below 0x20.
pub open spec fn plain_json_char(c: char) -> bool {
    c != '"' && c != '\\' && c as u32 >= 0x20
}

/// Relies on `serde_json::to_string` for `&str`: it writes the value as a
/// double-quoted JSON string, escaping exactly `"`, `\` and control
/// characters below 0x20; serializing a string value never fails.
#[verifier::external_body]
pub fn json_quote(s: &str) -> (r: String)
    ensures
        r@ == json_str_of(s@),
        (forall|i: int| 0 <= i < s@.len() ==> plain_json_char(s@[i])) ==> r@ == seq!['"'] + s@
            + seq!['"'],
{
    serde_json::to_string(s).unwrap()
}

/// Relies on `serde_json::to_string` for `char`: a character is serialized
/// as the JSON string holding exactly that character, through the same
/// escaper as `&str`; it never fails.
#[verifier::external_body]
pub fn json_quote_char(c: char) -> (r: String)
    ensures
        r@ == json_str_of(seq![c]),
{
    serde_json::to_string(&c).unwrap()
}

/// What stands before an entry: nothing before the first entry of a compact
/// map, a comma before every later one, with the pretty printer's newline
/// and two-space indent after it.
pub open spec fn spec_sep(pretty: bool, first: bool) -> Seq<char> {
    if first {
        if pretty {
            seq!['\n', ' ', ' ']
        } else {
            Seq::empty()
        }
    } else {
        if pretty {
            seq![',', '\n', ' ', ' ']
        } else {
            seq![',']
        }
    }
}

/// What stands between a key and its value.
pub open spec fn spec_colon(pretty: bool) -> Seq<char> {
    if pretty {
        seq![':', ' ']
    } else {
        seq![':']
    }
}

/// The text of one map entry: separator, quoted key, colon, value text.
pub open spec fn spec_entry(key: Seq<char>, vtext: Seq<char>, pretty: bool, first: bool) -> Seq<
    char,
> {
    spec_sep(pretty, first) + json_str_of(key) + spec_colon(pretty) + vtext
}

/// The text of a run of map entries, in order; `first` says whether the
/// run opens the map.
pub open spec fn spec_entries(kvs: Seq<(Seq<char>, Seq<char>)>, pretty: bool, first: bool) -> Seq<
    char,
>
    decreases kvs.len(),
{
    if kvs.len() == 0 {
        Seq::empty()
    } else {
        spec_entry(kvs[0].0, kvs[0].1, pretty, first) + spec_entries(kvs.drop_first(), pretty, false)
    }
}

/// What closes a map: the pretty printer puts the brace on its own line
/// when the map holds at least one entry.
pub open spec fn spec_map_close(pretty: bool, nonempty: bool) -> Seq<char> {
    if pretty && nonempty {
        seq!['\n', '}']
    } else {
        seq!['}']
    }
}

/// The full text of one JSON map over the given key/value-text pairs.
pub open spec fn spec_map_text(kvs: Seq<(Seq<char>, Seq<char>)>, pretty: bool) -> Seq<char> {
    seq!['{'] + spec_entries(kvs, pretty, true) + spec_map_close(pretty, kvs.len() > 0)
}

/// Entry runs concatenate: writing `a ++ b` is writing `a`, then writing
/// `b` as the opening run only when `a` was empty and `b` opens the map.
pub proof fn lemma_entries_concat(
    a: Seq<(Seq<char>, Seq<char>)>,
    b: Seq<(Seq<char>, Seq<char>)>,
    pretty: bool,
    first: bool,
)
    ensures
        spec_entries(a + b, pretty, first) == spec_entries(a, pretty, first) + spec_entries(
            b,
            pretty,
            first && a.len() == 0,
        ),
    decreases a.len(),
{
    if a.len() == 0 {
        assert(a + b =~= b);
        assert(Seq::<char>::empty() + spec_entries(b, pretty, first) =~= spec_entries(
            b,
            pretty,
            first,
        ));
    } else {
        assert((a + b)[0] == a[0]);
        assert((a + b).drop_first() =~= a.drop_first() + b);
        lemma_entries_concat(a.drop_first(), b, pretty, false);
        assert(spec_entries(a + b, pretty, first) =~= spec_entries(a, pretty, first)
            + spec_entries(b, pretty, false));
    }
}

/// A single entry writes as one entry.
pub proof fn lemma_entries_singleton(kv: (Seq<char>, Seq<char>), pretty: bool, first: bool)
    ensures
        spec_entries(seq![kv], pretty, first) == spec_entry(kv.0, kv.1, pretty, first),
{
    let single = seq![kv];
    assert(single.drop_first() =~= Seq::<(Seq<char>, Seq<char>)>::empty());
    assert(spec_entries(single.drop_first(), pretty, false) =~= Seq::<char>::empty());
    assert(spec_entries(single, pretty, first) =~= spec_entry(kv.0, kv.1, pretty, first) + Seq::<
        char,
    >::empty());
    assert(spec_entry(kv.0, kv.1, pretty, first) + Seq::<char>::empty() =~= spec_entry(
        kv.0,
        kv.1,
        pretty,
        first,
    ));
}

/// The key/value-text pairs that a sequence of key-value pairs renders to.
pub open spec fn render_pairs(ps: Seq<(String, Value)>) -> Seq<(Seq<char>, Seq<char>)> {
    ps.map_values(|p: (String, Value)| (p.0@, spec_json_value(p.1)))
}

/// Appends one map entry for `key` and `v` to `out`.
pub fn push_entry(out: &mut String, key: &str, v: &Value, pretty: bool, first: bool)
    ensures
        final(out)@ == old(out)@ + spec_entry(key@, spec_json_value(*v), pretty, first),
{
    proof {
        reveal_strlit(",");
        reveal_strlit("\n  ");
        reveal_strlit(",\n  ");
        reveal_strlit(":");
        reveal_strlit(": ");
    }
    if first {
        if pretty {
            out.append("\n  ");
        }
    } else {
        if pretty {
            out.append(",\n  ");
        } else {
            out.append(",");
        }
    }
    let q = json_quote(key);
    out.append(q.as_str());
    if pretty {
        out.append(": ");
    } else {
        out.append(":");
    }
    push_value(out, v);
    assert(out@ =~= old(out)@ + spec_entry(key@, spec_json_value(*v), pretty, first));
}

/// Appends one map entry per pair of `pairs` to `out`, preserving order.
/// Returns whether the map is still without entries afterwards.
pub fn push_pairs(
    out: &mut String,
    pairs: &Vec<(String, Value)>,
    pretty: bool,
    first: bool,
) -> (still_first: bool)
    ensures
        final(out)@ == old(out)@ + spec_entries(render_pairs(pairs@), pretty, first),
        still_first == (first && pairs@.len() == 0),
{
    let ghost all = render_pairs(pairs@);
    let mut i: usize = 0;
    while i < pairs.len()
        invariant
            i <= pairs.len(),
            all == render_pairs(pairs@),
            all.len() == pairs@.len(),
            out@ == old(out)@ + spec_entries(all.take(i as int), pretty, first),
        decreases pairs.len() - i,
    {
        let pair = &pairs[i];
        push_entry(out, pair.0.as_str(), &pair.1, pretty, first && i == 0);
        proof {
            let t = all.take(i as int);
            let t1 = all.take(i + 1 as int);
            assert(t1 =~= t + seq![all[i as int]]);
            lemma_entries_concat(t, seq![all[i as int]], pretty, first);
            let single = seq![all[i as int]];
            assert(single.len() == 1);
            assert(single[0] == all[i as int]);
            assert(single.drop_first() =~= Seq::<(Seq<char>, Seq<char>)>::empty());
            assert(spec_entries(single.drop_first(), pretty, false) =~= Seq::<char>::empty());
            assert(spec_entries(single, pretty, first && i == 0) =~= spec_entry(
                all[i as int].0,
                all[i as int].1,
                pretty,
                first && i == 0,
            ) + Seq::<char>::empty());
            assert(all[i as int].0 == pairs@[i as int].0@);
            assert(all[i as int].1 == spec_json_value(pairs@[i as int].1));
            assert(out@ =~= old(out)@ + spec_entries(t1, pretty, first));
        }
        i = i + 1;
    }
    proof {
        assert(all.take(pairs@.len() as int) =~= all);
    }
    first && pairs.len() == 0
}

} // verus!
