//! Canonical JSON text of a value: what a resolved cell carries into the
//! output table. Strings keep their surrounding quotes and escapes in this
//! form, so a cell's text is not the same as a string's raw content.

use vstd::prelude::*;

use crate::numbers::pow10;
use crate::strutil::push_char;
use crate::value::{JVal, Number, Value};

verus! {

broadcast use vstd::std_specs::vec::group_vec_axioms, vstd::seq::group_seq_axioms;

/// The character of one decimal digit.
pub open spec fn digit_char(d: int) -> char {
    ((d + 48) as u8) as char
}

/// The decimal digits of a nonnegative number, most significant first.
pub open spec fn dec_digits(n: int) -> Seq<char>
    decreases n,
{
    if n < 10 {
        seq![digit_char(n)]
    } else {
        dec_digits(n / 10).push(digit_char(n % 10))
    }
}

/// `k` zero characters.
pub open spec fn zeros(k: int) -> Seq<char>
    decreases k,
{
    if k <= 0 {
        Seq::empty()
    } else {
        zeros(k - 1).push('0')
    }
}

/// One lowercase hexadecimal digit.
pub open spec fn hex_digit(d: int) -> char {
    if d < 10 {
        digit_char(d)
    } else {
        ((d + 87) as u8) as char
    }
}

/// The escape of one string character: quote and backslash get a backslash,
/// the named control characters their short forms, other control characters
/// a four-digit hexadecimal escape, and everything else stands as itself.
pub open spec fn esc_char(c: char) -> Seq<char> {
    if c == '"' {
        seq!['\\', '"']
    } else if c == '\\' {
        seq!['\\', '\\']
    } else if c == '\u{8}' {
        seq!['\\', 'b']
    } else if c == '\t' {
        seq!['\\', 't']
    } else if c == '\n' {
        seq!['\\', 'n']
    } else if c == '\u{c}' {
        seq!['\\', 'f']
    } else if c == '\r' {
        seq!['\\', 'r']
    } else if (c as int) < 32 {
        seq!['\\', 'u', '0', '0', hex_digit((c as int) / 16), hex_digit((c as int) % 16)]
    } else {
        seq![c]
    }
}

/// A string's characters, escaped for JSON.
pub open spec fn escaped(s: Seq<char>) -> Seq<char>
    decreases s.len(),
{
    if s.len() == 0 {
        Seq::empty()
    } else {
        esc_char(s[0]) + escaped(s.skip(1))
    }
}

/// The text of an unsigned magnitude `m * 10^e`, always with a fractional
/// part: the digits of `m` padded or split at the decimal point that `e`
/// places.
pub open spec fn dec_text(m: int, e: int) -> Seq<char> {
    let ds = dec_digits(m);
    if e >= 0 {
        ds + zeros(e) + seq!['.', '0']
    } else if -e < ds.len() {
        ds.take(ds.len() + e) + seq!['.'] + ds.skip(ds.len() + e)
    } else {
        seq!['0', '.'] + zeros(-e - ds.len()) + ds
    }
}

/// The canonical text of a number: integers as plain digits, decimals with a
/// decimal point and a sign where negative.
pub open spec fn num_text(n: Number) -> Seq<char> {
    match n {
        Number::Int(i) => if i < 0 {
            seq!['-'] + dec_digits(-(i as int))
        } else {
            dec_digits(i as int)
        },
        Number::UInt(u) => dec_digits(u as int),
        Number::Dec { neg, mantissa, exp10 } => if neg {
            seq!['-'] + dec_text(mantissa as int, exp10 as int)
        } else {
            dec_text(mantissa as int, exp10 as int)
        },
    }
}

/// The canonical JSON text of a value.
pub open spec fn json_text(v: JVal) -> Seq<char>
    decreases v,
{
    match v {
        JVal::Null => seq!['n', 'u', 'l', 'l'],
        JVal::Bool(b) => if b {
            seq!['t', 'r', 'u', 'e']
        } else {
            seq!['f', 'a', 'l', 's', 'e']
        },
        JVal::Num(n) => num_text(n),
        JVal::Str(s) => seq!['"'] + escaped(s) + seq!['"'],
        JVal::Arr(a) => seq!['['] + arr_items_text(a) + seq![']'],
        JVal::Obj(o) => seq!['{'] + obj_items_text(o) + seq!['}'],
    }
}

/// The comma-separated texts of an array's elements.
pub open spec fn arr_items_text(a: Seq<JVal>) -> Seq<char>
    decreases a,
{
    if a.len() == 0 {
        Seq::empty()
    } else if a.len() == 1 {
        json_text(a[0])
    } else {
        arr_items_text(a.drop_last()) + seq![','] + json_text(a.last())
    }
}

/// The comma-separated `"key":value` texts of an object's entries.
pub open spec fn obj_items_text(o: Seq<(Seq<char>, JVal)>) -> Seq<char>
    decreases o,
{
    if o.len() == 0 {
        Seq::empty()
    } else if o.len() == 1 {
        entry_text(o[0])
    } else {
        obj_items_text(o.drop_last()) + seq![','] + entry_text(o.last())
    }
}

/// The `"key":value` text of one object entry.
pub open spec fn entry_text(e: (Seq<char>, JVal)) -> Seq<char>
    decreases e,
{
    seq!['"'] + escaped(e.0) + seq!['"', ':'] + json_text(e.1)
}

/// Appends the decimal digits of `n`.
#[verifier::loop_isolation(false)]
pub(crate) fn push_u64(out: &mut String, n: u64)
    ensures
        final(out)@ == old(out)@ + dec_digits(n as int),
{
    let ghost start = out@;
    let mut rev: Vec<char> = Vec::new();
    let mut x: u64 = n;
    proof {
        assert(rev@.reverse() =~~= Seq::<char>::empty());
        assert(dec_digits(n as int) =~~= dec_digits(x as int) + rev@.reverse());
    }
    while x >= 10
        invariant
            dec_digits(n as int) == dec_digits(x as int) + rev@.reverse(),
        decreases x,
    {
        let ghost old_rev = rev@;
        let d: u8 = 48 + (x % 10) as u8;
        rev.push(d as char);
        proof {
            assert(rev@.reverse() =~~= seq![digit_char(x as int % 10)] + old_rev.reverse());
            assert(dec_digits(x as int) == dec_digits(x as int / 10).push(
                digit_char(x as int % 10),
            ));
            assert(dec_digits(x as int / 10) + rev@.reverse() =~~= dec_digits(x as int)
                + old_rev.reverse());
        }
        x = x / 10;
    }
    let d: u8 = 48 + x as u8;
    push_char(out, d as char);
    proof {
        assert(dec_digits(x as int) =~~= seq![digit_char(x as int)]);
        assert(out@ =~~= start + dec_digits(n as int).take(1));
    }
    let mut idx: usize = 0;
    while idx < rev.len()
        invariant
            idx <= rev@.len(),
            out@ == start + dec_digits(n as int).take(1 + idx),
        decreases rev@.len() - idx,
    {
        push_char(out, rev[rev.len() - 1 - idx]);
        proof {
            assert(rev@[rev@.len() - 1 - idx as int] == rev@.reverse()[idx as int]);
            assert(out@ =~~= start + dec_digits(n as int).take(1 + idx + 1));
        }
        idx += 1;
    }
    proof {
        assert(dec_digits(n as int).take(1 + rev@.len() as int) =~~= dec_digits(n as int));
    }
}

/// Appends `k` zero characters.
#[verifier::loop_isolation(false)]
fn push_zeros(out: &mut String, k: u32)
    ensures
        final(out)@ == old(out)@ + zeros(k as int),
{
    let ghost start = out@;
    let mut j: u32 = 0;
    proof {
        assert(out@ =~~= start + zeros(0));
    }
    while j < k
        invariant
            j <= k,
            out@ == start + zeros(j as int),
        decreases k - j,
    {
        push_char(out, '0');
        proof {
            assert(out@ =~~= start + zeros(j as int + 1));
        }
        j += 1;
    }
}

/// Appends the text of one number.
#[verifier::loop_isolation(false)]
#[verifier::rlimit(30)]
fn push_number(out: &mut String, n: &Number)
    ensures
        final(out)@ == old(out)@ + num_text(*n),
{
    match n {
        Number::Int(i) => {
            if *i < 0 {
                push_char(out, '-');
                let mag: u64 = (-(*i as i128)) as u64;
                push_u64(out, mag);
                proof {
                    assert(final(out)@ =~~= old(out)@ + num_text(*n));
                }
            } else {
                push_u64(out, *i as u64);
            }
        },
        Number::UInt(u) => {
            push_u64(out, *u);
        },
        Number::Dec { neg, mantissa, exp10 } => {
            if *neg {
                push_char(out, '-');
            }
            let ghost mid = out@;
            let m = *mantissa;
            let e = *exp10;
            let ghost ds = dec_digits(m as int);
            let ndigits = count_digits(m);
            if e >= 0 {
                push_u64(out, m);
                push_zeros_wide(out, e as i128);
                push_char(out, '.');
                push_char(out, '0');
                proof {
                    assert(out@ =~~= mid + dec_text(m as int, e as int));
                }
            } else {
                let k128: i128 = -(e as i128);
                if k128 < ndigits as i128 {
                    let k: usize = k128 as usize;
                    push_digits_split(out, m, ndigits - k);
                    proof {
                        assert(out@ =~~= mid + dec_text(m as int, e as int));
                    }
                } else {
                    push_char(out, '0');
                    push_char(out, '.');
                    push_zeros_wide(out, k128 - ndigits as i128);
                    push_u64(out, m);
                    proof {
                        assert(out@ =~~= mid + dec_text(m as int, e as int));
                    }
                }
            }
        },
    }
}

/// The count of decimal digits of `n`.
#[verifier::loop_isolation(false)]
fn count_digits(n: u64) -> (c: usize)
    ensures
        c == dec_digits(n as int).len(),
        1 <= c <= 20,
{
    let mut c: usize = 1;
    let mut x: u64 = n;
    proof {
        lemma_dec_digits_len(n as int);
    }
    while x >= 10
        invariant
            1 <= c <= 20,
            dec_digits(n as int).len() == dec_digits(x as int).len() + c - 1,
        decreases x,
    {
        proof {
            lemma_dec_digits_len(x as int);
            lemma_dec_digits_len(x as int / 10);
        }
        x = x / 10;
        c += 1;
    }
    c
}

/// A number below `10^k` has at most `k` digits.
proof fn lemma_digits_lt_pow(n: int, k: int)
    requires
        0 <= n < pow10(k),
        1 <= k,
    ensures
        dec_digits(n).len() <= k,
    decreases n,
{
    if n >= 10 {
        assert(pow10(1) == 10) by {
            reveal_with_fuel(pow10, 2);
        }
        if k == 1 {
            assert(false);
        }
        assert(pow10(k) == 10 * pow10(k - 1));
        assert(n / 10 < pow10(k - 1)) by (nonlinear_arith)
            requires
                n < 10 * pow10(k - 1),
                n >= 10,
        ;
        lemma_digits_lt_pow(n / 10, k - 1);
    }
}

/// A 64-bit number has at most twenty digits.
proof fn lemma_dec_digits_len(n: int)
    requires
        0 <= n <= u64::MAX,
    ensures
        1 <= dec_digits(n).len() <= 20,
{
    assert(pow10(20) == 0x56bc75e2d63100000) by {
        reveal_with_fuel(pow10, 21);
    }
    lemma_digits_lt_pow(n, 20);
}

/// Appends the digits of `m` with a decimal point after the first
/// `int_digits` of them.
#[verifier::loop_isolation(false)]
fn push_digits_split(out: &mut String, m: u64, int_digits: usize)
    requires
        1 <= int_digits < dec_digits(m as int).len(),
    ensures
        final(out)@ == old(out)@ + (dec_digits(m as int).take(int_digits as int) + seq!['.']
            + dec_digits(m as int).skip(int_digits as int)),
{
    let ghost start = out@;
    let ghost ds = dec_digits(m as int);
    let mut buf: String = String::new();
    push_u64(&mut buf, m);
    let total = count_digits(m);
    let mut idx: usize = 0;
    proof {
        assert(buf@ == ds);
        assert(out@ =~~= start + ds.take(0));
    }
    while idx < int_digits
        invariant
            idx <= int_digits,
            out@ == start + ds.take(idx as int),
        decreases int_digits - idx,
    {
        push_char(out, buf.as_str().get_char(idx));
        proof {
            assert(out@ =~~= start + ds.take(idx as int + 1));
        }
        idx += 1;
    }
    push_char(out, '.');
    let ghost mid = start + ds.take(int_digits as int) + seq!['.'];
    proof {
        assert(out@ =~~= mid + ds.skip(int_digits as int).take(0));
    }
    while idx < total
        invariant
            int_digits <= idx <= total,
            total == ds.len(),
            out@ == mid + ds.skip(int_digits as int).take(idx - int_digits),
        decreases total - idx,
    {
        push_char(out, buf.as_str().get_char(idx));
        proof {
            assert(out@ =~~= mid + ds.skip(int_digits as int).take(idx + 1 - int_digits));
        }
        idx += 1;
    }
    proof {
        assert(ds.skip(int_digits as int).take(ds.len() - int_digits) =~~= ds.skip(
            int_digits as int,
        ));
        assert(out@ =~~= start + (ds.take(int_digits as int) + seq!['.'] + ds.skip(
            int_digits as int,
        )));
    }
}

/// Appends a wide count of zero characters, a block at a time.
#[verifier::loop_isolation(false)]
fn push_zeros_wide(out: &mut String, k: i128)
    requires
        k >= 0,
    ensures
        final(out)@ == old(out)@ + zeros(k as int),
{
    let ghost start = out@;
    let mut left: i128 = k;
    proof {
        assert(out@ =~~= start + zeros(k as int - left as int));
    }
    while left > 0
        invariant
            0 <= left <= k,
            out@ == start + zeros(k as int - left as int),
        decreases left,
    {
        push_char(out, '0');
        proof {
            lemma_zeros_step(k as int - left as int + 1);
            assert(out@ =~~= start + zeros(k as int - left as int + 1));
        }
        left -= 1;
    }
}

proof fn lemma_zeros_step(j: int)
    requires
        j >= 1,
    ensures
        zeros(j) == zeros(j - 1).push('0'),
{
}

/// Appends the escape of one character.
fn push_escaped_char(out: &mut String, c: char)
    ensures
        final(out)@ == old(out)@ + esc_char(c),
{
    let ghost start = out@;
    if c == '"' {
        push_char(out, '\\');
        push_char(out, '"');
    } else if c == '\\' {
        push_char(out, '\\');
        push_char(out, '\\');
    } else if c == '\u{8}' {
        push_char(out, '\\');
        push_char(out, 'b');
    } else if c == '\t' {
        push_char(out, '\\');
        push_char(out, 't');
    } else if c == '\n' {
        push_char(out, '\\');
        push_char(out, 'n');
    } else if c == '\u{c}' {
        push_char(out, '\\');
        push_char(out, 'f');
    } else if c == '\r' {
        push_char(out, '\\');
        push_char(out, 'r');
    } else if (c as u32) < 32 {
        push_char(out, '\\');
        push_char(out, 'u');
        push_char(out, '0');
        push_char(out, '0');
        let hi: u32 = c as u32 / 16;
        let lo: u32 = c as u32 % 16;
        let hic: char = if hi < 10 {
            (48 + hi as u8) as char
        } else {
            (87 + hi as u8) as char
        };
        let loc: char = if lo < 10 {
            (48 + lo as u8) as char
        } else {
            (87 + lo as u8) as char
        };
        push_char(out, hic);
        push_char(out, loc);
        proof {
            assert(out@ =~~= start + esc_char(c));
        }
    } else {
        push_char(out, c);
    }
    proof {
        assert(out@ =~~= start + esc_char(c));
    }
}

/// Appends a string's characters, escaped, between quotes.
#[verifier::loop_isolation(false)]
fn push_quoted(out: &mut String, s: &str)
    ensures
        final(out)@ == old(out)@ + seq!['"'] + escaped(s@) + seq!['"'],
{
    let ghost start = out@;
    push_char(out, '"');
    let n = s.unicode_len();
    let mut i: usize = 0;
    proof {
        assert(s@.skip(0) =~~= s@);
        assert(escaped(s@) =~~= Seq::<char>::empty() + escaped(s@.skip(0)));
    }
    while i < n
        invariant
            i <= n,
            n == s@.len(),
            escaped(s@) == out@.skip(start.len() as int + 1) + escaped(s@.skip(i as int)),
            out@.len() >= start.len() + 1,
            out@.take(start.len() as int + 1) == start + seq!['"'],
        decreases n - i,
    {
        let ghost rest = s@.skip(i as int);
        let c = s.get_char(i);
        proof {
            assert(rest[0] == c);
            assert(rest.skip(1) =~~= s@.skip(i as int + 1));
        }
        push_escaped_char(out, c);
        proof {
            assert(escaped(rest) == esc_char(c) + escaped(s@.skip(i as int + 1)));
            assert(out@.skip(start.len() as int + 1) + escaped(s@.skip(i as int + 1)) =~~= escaped(
                s@,
            ));
            assert(out@.take(start.len() as int + 1) =~~= start + seq!['"']);
        }
        i += 1;
    }
    push_char(out, '"');
    proof {
        assert(escaped(s@.skip(n as int)) =~~= Seq::<char>::empty());
        assert(out@ =~~= start + seq!['"'] + escaped(s@) + seq!['"']);
    }
}

/// Appends the canonical JSON text of `v`.
#[verifier::loop_isolation(false)]
fn push_value(out: &mut String, v: &Value)
    ensures
        final(out)@ == old(out)@ + json_text(v@),
    decreases v,
{
    let ghost start = out@;
    match v {
        Value::Null => {
            push_char(out, 'n');
            push_char(out, 'u');
            push_char(out, 'l');
            push_char(out, 'l');
            proof {
                assert(out@ =~~= start + json_text(v@));
            }
        },
        Value::Bool(b) => {
            if *b {
                push_char(out, 't');
                push_char(out, 'r');
                push_char(out, 'u');
                push_char(out, 'e');
            } else {
                push_char(out, 'f');
                push_char(out, 'a');
                push_char(out, 'l');
                push_char(out, 's');
                push_char(out, 'e');
            }
            proof {
                assert(out@ =~~= start + json_text(v@));
            }
        },
        Value::Num(n) => {
            push_number(out, n);
        },
        Value::Str(s) => {
            push_quoted(out, s.as_str());
            proof {
                assert(out@ =~~= start + json_text(v@));
            }
        },
        Value::Arr(a) => {
            push_char(out, '[');
            let ghost av = crate::value::elems_view(a@);
            let mut i: usize = 0;
            proof {
                assert(arr_items_text(av.take(0)) =~~= Seq::<char>::empty());
                assert(out@ =~~= start + seq!['['] + arr_items_text(av.take(0)));
            }
            while i < a.len()
                invariant
                    i <= a@.len(),
                    out@ == start + seq!['['] + arr_items_text(av.take(i as int)),
                decreases a@.len() - i,
            {
                if i > 0 {
                    push_char(out, ',');
                }
                push_value(out, &a[i]);
                proof {
                    assert(av.take(i as int + 1).drop_last() =~~= av.take(i as int));
                    assert(av.take(i as int + 1).last() == av[i as int]);
                    if i == 0 {
                        assert(arr_items_text(av.take(1)) == json_text(av[0]));
                    }
                    assert(out@ =~~= start + seq!['['] + arr_items_text(av.take(i as int + 1)));
                }
                i += 1;
            }
            push_char(out, ']');
            proof {
                assert(av.take(a@.len() as int) =~~= av);
                assert(out@ =~~= start + json_text(v@));
            }
        },
        Value::Obj(o) => {
            push_char(out, '{');
            let ghost ov = crate::value::entries_view(o@);
            let mut i: usize = 0;
            proof {
                assert(obj_items_text(ov.take(0)) =~~= Seq::<char>::empty());
                assert(out@ =~~= start + seq!['{'] + obj_items_text(ov.take(0)));
            }
            while i < o.len()
                invariant
                    i <= o@.len(),
                    out@ == start + seq!['{'] + obj_items_text(ov.take(i as int)),
                decreases o@.len() - i,
            {
                if i > 0 {
                    push_char(out, ',');
                }
                let ghost before = out@;
                push_quoted(out, o[i].0.as_str());
                push_char(out, ':');
                push_value(out, &o[i].1);
                proof {
                    assert(ov[i as int] == (o@[i as int].0@, o@[i as int].1@));
                    assert(out@ =~~= before + entry_text(ov[i as int]));
                    assert(ov.take(i as int + 1).drop_last() =~~= ov.take(i as int));
                    assert(ov.take(i as int + 1).last() == ov[i as int]);
                    if i == 0 {
                        assert(obj_items_text(ov.take(1)) == entry_text(ov[0]));
                    }
                    assert(out@ =~~= start + seq!['{'] + obj_items_text(ov.take(i as int + 1)));
                }
                i += 1;
            }
            push_char(out, '}');
            proof {
                assert(ov.take(o@.len() as int) =~~= ov);
                assert(out@ =~~= start + json_text(v@));
            }
        },
    }
}

/// The canonical JSON text of a value: `null`, `true`/`false`, exact decimal
/// number text, quoted and escaped strings, and recursively bracketed arrays
/// and objects.
pub fn to_json_text(v: &Value) -> (r: String)
    ensures
        r@ == json_text(v@),
{
    let mut out: String = String::new();
    push_value(&mut out, v);
    out
}

} // verus!
