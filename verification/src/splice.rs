//! The placeholder splice: the envelope pass leaves a quoted marker string
//! in the `Fields` position, and the splice substitutes the text of the
//! independently serialized fields map for it, appending the one closing
//! brace that the object-for-string substitution loses.

use vstd::prelude::*;

verus! {

/// The marker string that stands in for the `Fields` object in the
/// envelope pass.
pub open spec fn placeholder_text() -> Seq<char> {
    seq!['0', '0', 'P', 'L', 'A', 'C', 'E', 'H', 'O', 'L', 'D', 'E', 'R', '0', '0']
}

/// The marker as it stands in the serialized envelope: the quoted JSON
/// string, 17 characters.
pub open spec fn quoted_placeholder() -> Seq<char> {
    seq!['"', '0', '0', 'P', 'L', 'A', 'C', 'E', 'H', 'O', 'L', 'D', 'E', 'R', '0', '0', '"']
}

/// `needle` occurs in `s` at position `i`.
pub open spec fn occurs_at(s: Seq<char>, needle: Seq<char>, i: int) -> bool {
    0 <= i && i + needle.len() <= s.len() && s.subrange(i, i + needle.len()) == needle
}

/// Leftmost, non-overlapping replacement of every occurrence of `needle`
/// in `s` by `repl` — the semantics of `str::replace`.
pub open spec fn spec_replace_all(s: Seq<char>, needle: Seq<char>, repl: Seq<char>) -> Seq<char>
    decreases s.len(),
{
    if needle.len() == 0 {
        s
    } else if s.len() < needle.len() {
        s
    } else if s.take(needle.len() as int) == needle {
        repl + spec_replace_all(s.skip(needle.len() as int), needle, repl)
    } else {
        s.take(1) + spec_replace_all(s.skip(1), needle, repl)
    }
}

/// The whole splice: substitute the fields text for the quoted placeholder
/// and restore brace balance with one closing brace.
pub open spec fn spec_splice(payload: Seq<char>, fields: Seq<char>) -> Seq<char> {
    spec_replace_all(payload, quoted_placeholder(), fields) + seq!['}']
}

/// The character at position `j` of the quoted placeholder.
fn needle_char(j: usize) -> (c: char)
    requires
        j < 17,
    ensures
        c == quoted_placeholder()[j as int],
{
    if j == 0 {
        '"'
    } else if j == 1 {
        '0'
    } else if j == 2 {
        '0'
    } else if j == 3 {
        'P'
    } else if j == 4 {
        'L'
    } else if j == 5 {
        'A'
    } else if j == 6 {
        'C'
    } else if j == 7 {
        'E'
    } else if j == 8 {
        'H'
    } else if j == 9 {
        'O'
    } else if j == 10 {
        'L'
    } else if j == 11 {
        'D'
    } else if j == 12 {
        'E'
    } else if j == 13 {
        'R'
    } else if j == 14 {
        '0'
    } else if j == 15 {
        '0'
    } else {
        '"'
    }
}

/// Whether the quoted placeholder occurs in `payload` at position `i`.
fn window_matches(payload: &str, i: usize) -> (b: bool)
    requires
        i + 17 <= payload@.len(),
        payload@.len() <= usize::MAX,
    ensures
        b == occurs_at(payload@, quoted_placeholder(), i as int),
{
    proof {
        assert(quoted_placeholder().len() == 17);
    }
    let mut j: usize = 0;
    while j < 17
        invariant
            j <= 17,
            i + 17 <= payload@.len(),
            payload@.len() <= usize::MAX,
            forall|k: int| 0 <= k < j ==> payload@[i + k] == quoted_placeholder()[k],
        decreases 17 - j,
    {
        let c = payload.get_char(i + j);
        let e = needle_char(j);
        if c != e {
            proof {
                let sub = payload@.subrange(i as int, i as int + 17);
                assert(sub[j as int] == payload@[i + j]);
                assert(sub != quoted_placeholder()) by {
                    if sub == quoted_placeholder() {
                        assert(sub[j as int] == quoted_placeholder()[j as int]);
                    }
                }
            }
            return false;
        }
        j = j + 1;
    }
    proof {
        assert(payload@.subrange(i as int, i as int + 17) =~= quoted_placeholder());
    }
    true
}

/// Replaces every occurrence of the quoted placeholder in `payload` with
/// `fields` and appends one closing brace.
pub fn splice_fields(payload: &str, fields: &str) -> (r: String)
    ensures
        r@ == spec_splice(payload@, fields@),
{
    let ghost needle = quoted_placeholder();
    proof {
        assert(needle.len() == 17);
    }
    let n = payload.unicode_len();
    let mut out = String::new();
    let mut i: usize = 0;
    proof {
        assert(payload@.skip(0) =~= payload@);
        assert(out@ + spec_replace_all(payload@, needle, fields@) =~= spec_replace_all(
            payload@,
            needle,
            fields@,
        ));
    }
    while i < n
        invariant
            needle == quoted_placeholder(),
            needle.len() == 17,
            n == payload@.len(),
            i <= n,
            spec_replace_all(payload@, needle, fields@) == out@ + spec_replace_all(
                payload@.skip(i as int),
                needle,
                fields@,
            ),
        decreases n - i,
    {
        let ghost tail = payload@.skip(i as int);
        if n - i >= 17 && window_matches(payload, i) {
            out.append(fields);
            proof {
                assert(tail.len() >= 17);
                assert(tail.take(17) =~= payload@.subrange(i as int, i as int + 17));
                assert(tail.take(17) == needle);
                assert(spec_replace_all(tail, needle, fields@) == fields@ + spec_replace_all(
                    tail.skip(17),
                    needle,
                    fields@,
                ));
                assert(tail.skip(17) =~= payload@.skip(i as int + 17));
            }
            i = i + 17;
        } else {
            let ch = payload.substring_char(i, i + 1);
            out.append(ch);
            proof {
                if tail.len() < 17 {
                    assert(spec_replace_all(tail, needle, fields@) == tail);
                    assert(tail =~= tail.take(1) + tail.skip(1));
                    assert(spec_replace_all(tail.skip(1), needle, fields@) == tail.skip(1));
                } else {
                    assert(!occurs_at(payload@, needle, i as int));
                    assert(tail.take(17) =~= payload@.subrange(i as int, i as int + 17));
                    assert(tail.take(17) != needle);
                }
                assert(spec_replace_all(tail, needle, fields@) == tail.take(1) + spec_replace_all(
                    tail.skip(1),
                    needle,
                    fields@,
                ));
                assert(tail.take(1) =~= payload@.subrange(i as int, i as int + 1));
                assert(ch@ == tail.take(1));
                assert(tail.skip(1) =~= payload@.skip(i as int + 1));
            }
            i = i + 1;
        }
    }
    proof {
        assert(payload@.skip(n as int) =~= Seq::<char>::empty());
        assert(spec_replace_all(Seq::<char>::empty(), needle, fields@) == Seq::<char>::empty());
        assert(out@ =~= spec_replace_all(payload@, needle, fields@));
    }
    proof {
        reveal_strlit("}");
    }
    out.append("}");
    proof {
        assert(out@ =~= spec_splice(payload@, fields@));
    }
    out
}

/// When the quoted placeholder occurs nowhere in the payload before the
/// position where the envelope pass wrote it, the replacement substitutes
/// exactly that one occurrence.
#[verifier::rlimit(50)]
pub proof fn lemma_replace_single_occurrence(head: Seq<char>, fields: Seq<char>, close: Seq<char>)
    requires
        close.len() < 17,
        forall|i: int|
            0 <= i < head.len() ==> !occurs_at(
                head + quoted_placeholder() + close,
                quoted_placeholder(),
                i,
            ),
    ensures
        spec_replace_all(head + quoted_placeholder() + close, quoted_placeholder(), fields)
            == head + fields + close,
    decreases head.len(),
{
    let qp = quoted_placeholder();
    assert(qp.len() == 17);
    let s = head + qp + close;
    if head.len() == 0 {
        assert(s =~= qp + close);
        assert(s.take(17) =~= qp);
        assert(s.skip(17) =~= close);
        assert(spec_replace_all(close, qp, fields) == close);
        assert(spec_replace_all(s, qp, fields) == fields + close);
        assert(head + fields + close =~= fields + close);
    } else {
        assert(s.len() >= 17);
        assert(!occurs_at(s, qp, 0));
        assert(s.take(17) =~= s.subrange(0, 17));
        assert(s.take(17) != qp);
        let head1 = head.drop_first();
        let s1 = head1 + qp + close;
        assert(s.skip(1) =~= s1);
        assert forall|i: int| 0 <= i < head1.len() implies !occurs_at(s1, qp, i) by {
            if occurs_at(s1, qp, i) {
                assert(s1.subrange(i, i + 17) =~= s.subrange(i + 1, i + 18));
                assert(occurs_at(s, qp, i + 1));
            }
        }
        lemma_replace_single_occurrence(head1, fields, close);
        assert(s.take(1) =~= seq![head[0]]);
        assert(spec_replace_all(s, qp, fields) == seq![head[0]] + (head1 + fields + close));
        assert(seq![head[0]] + (head1 + fields + close) =~= head + fields + close);
    }
}

/// The splice law: with the placeholder standing only where the envelope
/// pass wrote it, the spliced text is the envelope head, the fields text,
/// the envelope's own close, and the appended brace — the envelope with the
/// fields map in the `Fields` value position.
pub proof fn lemma_splice_structural(head: Seq<char>, fields: Seq<char>, close: Seq<char>)
    requires
        close.len() < 17,
        forall|i: int|
            0 <= i < head.len() ==> !occurs_at(
                head + quoted_placeholder() + close,
                quoted_placeholder(),
                i,
            ),
    ensures
        spec_splice(head + quoted_placeholder() + close, fields) == head + fields + close
            + seq!['}'],
{
    lemma_replace_single_occurrence(head, fields, close);
}

} // verus!
