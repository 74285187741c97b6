//! Scalar attribute values and their JSON text renderings.

use vstd::prelude::*;
use crate::json::{json_quote, json_quote_char, json_str_of};

verus! {

/// Decimal digit character for `d` (meaningful for `d < 10`).
pub open spec fn digit_char(d: nat) -> char
    recommends
        d < 10,
{
    if d == 0 {
        '0'
    } else if d == 1 {
        '1'
    } else if d == 2 {
        '2'
    } else if d == 3 {
        '3'
    } else if d == 4 {
        '4'
    } else if d == 5 {
        '5'
    } else if d == 6 {
        '6'
    } else if d == 7 {
        '7'
    } else if d == 8 {
        '8'
    } else {
        '9'
    }
}

/// Decimal rendering of a non-negative integer, most significant digit first.
pub open spec fn spec_dec_nat(n: nat) -> Seq<char>
    decreases n,
{
    if n < 10 {
        seq![digit_char(n)]
    } else {
        spec_dec_nat(n / 10).push(digit_char(n % 10))
    }
}

/// Decimal rendering of a signed integer: a leading `-` for negative values.
pub open spec fn spec_dec_int(n: int) -> Seq<char> {
    if n >= 0 {
        spec_dec_nat(n as nat)
    } else {
        seq!['-'] + spec_dec_nat((-n) as nat)
    }
}

/// Appends the single decimal digit `d` to `out`.
fn push_digit(out: &mut String, d: u64)
    requires
        d < 10,
    ensures
        final(out)@ == old(out)@ + seq![digit_char(d as nat)],
{
    proof {
        reveal_strlit("0");
        reveal_strlit("1");
        reveal_strlit("2");
        reveal_strlit("3");
        reveal_strlit("4");
        reveal_strlit("5");
        reveal_strlit("6");
        reveal_strlit("7");
        reveal_strlit("8");
        reveal_strlit("9");
    }
    if d == 0 {
        out.append("0");
    } else if d == 1 {
        out.append("1");
    } else if d == 2 {
        out.append("2");
    } else if d == 3 {
        out.append("3");
    } else if d == 4 {
        out.append("4");
    } else if d == 5 {
        out.append("5");
    } else if d == 6 {
        out.append("6");
    } else if d == 7 {
        out.append("7");
    } else if d == 8 {
        out.append("8");
    } else {
        out.append("9");
    }
    assert(out@ =~= old(out)@ + seq![digit_char(d as nat)]);
}

/// Appends the decimal rendering of `n` to `out`.
pub fn push_dec_u64(out: &mut String, n: u64)
    ensures
        final(out)@ == old(out)@ + spec_dec_nat(n as nat),
    decreases n,
{
    if n >= 10 {
        push_dec_u64(out, n / 10);
    }
    push_digit(out, n % 10);
    assert(out@ =~= old(out)@ + spec_dec_nat(n as nat));
}

/// Appends the decimal rendering of the signed `n` to `out`.
pub fn push_dec_i64(out: &mut String, n: i64)
    ensures
        final(out)@ == old(out)@ + spec_dec_int(n as int),
{
    if n >= 0 {
        push_dec_u64(out, n as u64);
    } else {
        proof {
            reveal_strlit("-");
        }
        out.append("-");
        let m: u64 = if n == i64::MIN {
            9223372036854775808u64
        } else {
            (-n) as u64
        };
        assert(m as nat == (-(n as int)) as nat);
        push_dec_u64(out, m);
        assert(out@ =~= old(out)@ + spec_dec_int(n as int));
    }
}

/// A scalar attribute value: the tagged union of everything a key-value
/// pair can carry into the `Fields` object.
pub enum Value {
    Bool(bool),
    Unit,
    Absent,
    Char(char),
    U8(u8),
    I8(i8),
    U16(u16),
    I16(i16),
    U32(u32),
    I32(i32),
    U64(u64),
    I64(i64),
    Usize(usize),
    Isize(isize),
    Str(String),
    Num(String),
}

/// The JSON text a value serializes to: booleans and integers as JSON
/// scalars, unit and absent values as `null`, characters and strings as
/// escaped JSON strings.
pub open spec fn spec_json_value(v: Value) -> Seq<char> {
    match v {
        Value::Bool(b) => if b {
            seq!['t', 'r', 'u', 'e']
        } else {
            seq!['f', 'a', 'l', 's', 'e']
        },
        Value::Unit => seq!['n', 'u', 'l', 'l'],
        Value::Absent => seq!['n', 'u', 'l', 'l'],
        Value::Char(c) => json_str_of(seq![c]),
        Value::U8(x) => spec_dec_nat(x as nat),
        Value::I8(x) => spec_dec_int(x as int),
        Value::U16(x) => spec_dec_nat(x as nat),
        Value::I16(x) => spec_dec_int(x as int),
        Value::U32(x) => spec_dec_nat(x as nat),
        Value::I32(x) => spec_dec_int(x as int),
        Value::U64(x) => spec_dec_nat(x as nat),
        Value::I64(x) => spec_dec_int(x as int),
        Value::Usize(x) => spec_dec_nat(x as nat),
        Value::Isize(x) => spec_dec_int(x as int),
        Value::Str(s) => json_str_of(s@),
        Value::Num(s) => s@,
    }
}

/// An ASCII decimal digit.
pub open spec fn is_ascii_digit(c: char) -> bool {
    48 <= c as u32 && c as u32 <= 57
}

/// Every position of `s` in `from..to` holds a digit.
pub open spec fn all_ascii_digits(s: Seq<char>, from: int, to: int) -> bool {
    forall|i: int| from <= i < to ==> is_ascii_digit(#[trigger] s[i])
}

/// How many digits stand at the front of `s`.
pub open spec fn leading_digit_count(s: Seq<char>) -> int
    decreases s.len(),
{
    if s.len() > 0 && is_ascii_digit(s[0]) {
        1 + leading_digit_count(s.drop_first())
    } else {
        0
    }
}

/// The front digit run of `s` ends exactly at the first non-digit.
proof fn lemma_leading_digit_count(s: Seq<char>, k: int)
    requires
        0 <= k <= s.len(),
        all_ascii_digits(s, 0, k),
        k == s.len() || !is_ascii_digit(s[k]),
    ensures
        leading_digit_count(s) == k,
    decreases k,
{
    if k == 0 {
    } else {
        assert(is_ascii_digit(s[0]));
        let t = s.drop_first();
        assert(all_ascii_digits(t, 0, k - 1)) by {
            assert(forall|i: int| 0 <= i < k - 1 ==> #[trigger] t[i] == s[i + 1]);
        }
        assert(k - 1 == t.len() || !is_ascii_digit(t[k - 1]));
        lemma_leading_digit_count(t, k - 1);
    }
}

/// Whether `s` is the text of a JSON number without an exponent: an
/// optional minus sign, an integer part with no superfluous leading zero,
/// and an optional fractional part of at least one digit.
pub open spec fn spec_json_number(s: Seq<char>) -> bool {
    s.len() > 0 && {
        let t = if s[0] == '-' {
            s.drop_first()
        } else {
            s
        };
        t.len() > 0 && is_ascii_digit(t[0]) && {
            let k = if t[0] == '0' {
                1int
            } else {
                leading_digit_count(t)
            };
            k == t.len() || (t[k] == '.' && t.len() > k + 1 && all_ascii_digits(t, k + 1, t.len() as int))
        }
    }
}

/// The first position at or after `from` that holds no digit.
fn digit_run_end(text: &str, from: usize, n: usize) -> (j: usize)
    requires
        n == text@.len(),
        n <= usize::MAX,
        from <= n,
    ensures
        from <= j <= n,
        forall|i: int| from <= i < j ==> is_ascii_digit(#[trigger] text@[i]),
        j == n || !is_ascii_digit(text@[j as int]),
{
    let mut j = from;
    while j < n
        invariant
            from <= j <= n,
            n == text@.len(),
            n <= usize::MAX,
            forall|i: int| from <= i < j ==> is_ascii_digit(#[trigger] text@[i]),
        decreases n - j,
    {
        let c = text.get_char(j);
        if !(c >= '0' && c <= '9') {
            return j;
        }
        j = j + 1;
    }
    j
}

/// Decides whether `text` is the text of a JSON number.
pub fn check_json_number(text: &str) -> (r: bool)
    ensures
        r == spec_json_number(text@),
{
    let n = text.unicode_len();
    if n == 0 {
        return false;
    }
    let start: usize = if text.get_char(0) == '-' {
        1
    } else {
        0
    };
    let ghost t = if text@[0] == '-' {
        text@.drop_first()
    } else {
        text@
    };
    proof {
        assert(t.len() == text@.len() - start);
        assert(forall|i: int| 0 <= i < t.len() ==> #[trigger] t[i] == text@[i + start]);
    }
    if start >= n {
        return false;
    }
    let c0 = text.get_char(start);
    if !(c0 >= '0' && c0 <= '9') {
        proof {
            assert(!is_ascii_digit(t[0]));
        }
        return false;
    }
    let k: usize = if c0 == '0' {
        1
    } else {
        let j = digit_run_end(text, start + 1, n);
        proof {
            assert(all_ascii_digits(t, 0, j - start)) by {
                assert(forall|i: int|
                    0 <= i < j - start ==> #[trigger] t[i] == text@[i + start]);
            }
            assert(j - start == t.len() || !is_ascii_digit(t[j - start]));
            lemma_leading_digit_count(t, j - start);
        }
        j - start
    };
    if start + k == n {
        return true;
    }
    let c = text.get_char(start + k);
    if c != '.' {
        return false;
    }
    if start + k + 1 >= n {
        return false;
    }
    let e = digit_run_end(text, start + k + 1, n);
    if e < n {
        proof {
            assert(!is_ascii_digit(t[e - start]));
            assert(!all_ascii_digits(t, k + 1, t.len() as int));
        }
        return false;
    }
    proof {
        assert(all_ascii_digits(t, k + 1, t.len() as int)) by {
            assert(forall|i: int|
                k + 1 <= i < t.len() ==> #[trigger] t[i] == text@[i + start]);
        }
    }
    true
}

/// The checked way to a number value: `text` becomes a value that
/// serializes unquoted exactly when it is the text of a JSON number.
pub fn number_value(text: String) -> (r: Option<Value>)
    ensures
        spec_json_number(text@) ==> r == Option::Some(Value::Num(text)),
        !spec_json_number(text@) ==> r is None,
{
    if check_json_number(text.as_str()) {
        Option::Some(Value::Num(text))
    } else {
        Option::None
    }
}

/// Reconstructs a value; the copy equals the original.
pub fn clone_value(v: &Value) -> (r: Value)
    ensures
        r == *v,
{
    match v {
        Value::Bool(b) => Value::Bool(*b),
        Value::Unit => Value::Unit,
        Value::Absent => Value::Absent,
        Value::Char(c) => Value::Char(*c),
        Value::U8(x) => Value::U8(*x),
        Value::I8(x) => Value::I8(*x),
        Value::U16(x) => Value::U16(*x),
        Value::I16(x) => Value::I16(*x),
        Value::U32(x) => Value::U32(*x),
        Value::I32(x) => Value::I32(*x),
        Value::U64(x) => Value::U64(*x),
        Value::I64(x) => Value::I64(*x),
        Value::Usize(x) => Value::Usize(*x),
        Value::Isize(x) => Value::Isize(*x),
        Value::Str(t) => Value::Str(t.clone()),
        Value::Num(t) => Value::Num(t.clone()),
    }
}

/// Appends the JSON text of `v` to `out`.
pub fn push_value(out: &mut String, v: &Value)
    ensures
        final(out)@ == old(out)@ + spec_json_value(*v),
{
    match v {
        Value::Bool(b) => {
            proof {
                reveal_strlit("true");
                reveal_strlit("false");
            }
            if *b {
                out.append("true");
            } else {
                out.append("false");
            }
            assert(out@ =~= old(out)@ + spec_json_value(*v));
        },
        Value::Unit | Value::Absent => {
            proof {
                reveal_strlit("null");
            }
            out.append("null");
            assert(out@ =~= old(out)@ + spec_json_value(*v));
        },
        Value::Char(c) => {
            let q = json_quote_char(*c);
            out.append(q.as_str());
        },
        Value::U8(x) => { push_dec_u64(out, *x as u64); },
        Value::I8(x) => { push_dec_i64(out, *x as i64); },
        Value::U16(x) => { push_dec_u64(out, *x as u64); },
        Value::I16(x) => { push_dec_i64(out, *x as i64); },
        Value::U32(x) => { push_dec_u64(out, *x as u64); },
        Value::I32(x) => { push_dec_i64(out, *x as i64); },
        Value::U64(x) => { push_dec_u64(out, *x); },
        Value::I64(x) => { push_dec_i64(out, *x); },
        Value::Usize(x) => { push_dec_u64(out, *x as u64); },
        Value::Isize(x) => { push_dec_i64(out, *x as i64); },
        Value::Str(s) => {
            let q = json_quote(s.as_str());
            out.append(q.as_str());
        },
        Value::Num(s) => {
            out.append(s.as_str());
        },
    }
}

} // verus!
