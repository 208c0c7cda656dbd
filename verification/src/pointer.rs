//! JSON Pointer (RFC 6901) evaluation against the value model: `""` names the
//! whole document, `/a/b` nested fields, decimal tokens index arrays, and
//! `~0`/`~1` escape `~`/`/`.

use vstd::prelude::*;

use crate::strutil::{push_char, strs_view};
use crate::value::{elems_view, entries_view, JVal, Value};

verus! {

broadcast use vstd::std_specs::vec::group_vec_axioms, vstd::seq::group_seq_axioms;

/// One pass over a raw reference token, decoding `~0` to `~` and `~1` to `/`.
pub open spec fn unescaped(seg: Seq<char>) -> Seq<char>
    decreases seg.len(),
{
    if seg.len() == 0 {
        Seq::empty()
    } else if seg.len() >= 2 && seg[0] == '~' && seg[1] == '0' {
        seq!['~'] + unescaped(seg.skip(2))
    } else if seg.len() >= 2 && seg[0] == '~' && seg[1] == '1' {
        seq!['/'] + unescaped(seg.skip(2))
    } else {
        seq![seg[0]] + unescaped(seg.skip(1))
    }
}

/// The reference tokens of `rest` split on `/`, with `cur` the token read so
/// far: splitting keeps empty tokens, so `a//b` has three tokens.
pub open spec fn split_rec(rest: Seq<char>, cur: Seq<char>) -> Seq<Seq<char>>
    decreases rest.len(),
{
    if rest.len() == 0 {
        seq![cur]
    } else if rest[0] == '/' {
        seq![cur] + split_rec(rest.skip(1), Seq::empty())
    } else {
        split_rec(rest.skip(1), cur.push(rest[0]))
    }
}

/// The raw reference tokens of a pointer body (the text after the leading `/`).
pub open spec fn split_segments(body: Seq<char>) -> Seq<Seq<char>> {
    split_rec(body, Seq::empty())
}

/// Whether every character of `seg` is a decimal digit.
pub open spec fn seg_digits(seg: Seq<char>) -> bool {
    forall|i: int| 0 <= i < seg.len() ==> '0' <= #[trigger] seg[i] && seg[i] <= '9'
}

/// The number a digit sequence denotes.
pub open spec fn digits_val(seg: Seq<char>) -> int
    decreases seg.len(),
{
    if seg.len() == 0 {
        0
    } else {
        digits_val(seg.drop_last()) * 10 + (seg.last() as int - '0' as int)
    }
}

/// An array index token: decimal digits with no redundant leading zero and no
/// sign, whose value fits the machine's index type.
pub open spec fn parse_index(seg: Seq<char>) -> Option<int> {
    if seg.len() == 0 || !seg_digits(seg) || (seg.len() > 1 && seg[0] == '0') || digits_val(seg)
        > usize::MAX as int {
        None
    } else {
        Some(digits_val(seg))
    }
}

/// The value at `key` among an object's entries: the first entry whose key
/// matches.
pub open spec fn obj_get(entries: Seq<(Seq<char>, JVal)>, key: Seq<char>) -> Option<JVal>
    decreases entries.len(),
{
    if entries.len() == 0 {
        None
    } else if entries[0].0 == key {
        Some(entries[0].1)
    } else {
        obj_get(entries.skip(1), key)
    }
}

/// Walks `v` along raw (still escaped) reference tokens: each token is first
/// unescaped, then read as an object key or an array index. Traversal through
/// any other shape fails.
pub open spec fn lookup_segs(v: JVal, segs: Seq<Seq<char>>) -> Option<JVal>
    decreases segs.len(),
{
    if segs.len() == 0 {
        Some(v)
    } else {
        let tok = unescaped(segs[0]);
        match v {
            JVal::Obj(entries) => match obj_get(entries, tok) {
                Some(child) => lookup_segs(child, segs.skip(1)),
                None => None,
            },
            JVal::Arr(elems) => match parse_index(tok) {
                Some(i) => if i < elems.len() {
                    lookup_segs(elems[i], segs.skip(1))
                } else {
                    None
                },
                None => None,
            },
            _ => None,
        }
    }
}

/// RFC 6901 lookup: the empty pointer names the whole document; any other
/// pointer must start with `/` and names the location reached by following
/// its reference tokens.
pub open spec fn lookup(v: JVal, pointer: Seq<char>) -> Option<JVal> {
    if pointer.len() == 0 {
        Some(v)
    } else if pointer[0] != '/' {
        None
    } else {
        lookup_segs(v, split_segments(pointer.skip(1)))
    }
}

#[verifier::loop_isolation(false)]
fn split_pointer_body(pointer: &str) -> (segs: Vec<String>)
    requires
        pointer@.len() >= 1,
        pointer@[0] == '/',
    ensures
        strs_view(segs@) == split_segments(pointer@.skip(1)),
{
    let n = pointer.unicode_len();
    let mut segs: Vec<String> = Vec::new();
    let mut cur: String = String::new();
    proof {
        assert(strs_view(segs@) + split_rec(pointer@.skip(1), cur@) =~~= split_segments(
            pointer@.skip(1),
        ));
    }
    let mut i: usize = 1;
    while i < n
        invariant
            1 <= i <= n,
            n == pointer@.len(),
            split_segments(pointer@.skip(1)) =~~= strs_view(segs@) + split_rec(
                pointer@.skip(i as int),
                cur@,
            ),
        decreases n - i,
    {
        let ghost old_segs = segs@;
        let ghost old_cur = cur@;
        let c = pointer.get_char(i);
        proof {
            assert(pointer@.skip(i as int)[0] == c);
            assert(pointer@.skip(i as int).skip(1) =~~= pointer@.skip(i as int + 1));
        }
        if c == '/' {
            segs.push(cur);
            cur = String::new();
            proof {
                assert(strs_view(segs@) =~~= strs_view(old_segs) + seq![old_cur]);
                assert(strs_view(segs@) + split_rec(pointer@.skip(i as int + 1), cur@) =~~=
                strs_view(old_segs) + split_rec(pointer@.skip(i as int), old_cur));
            }
        } else {
            push_char(&mut cur, c);
            proof {
                assert(split_rec(pointer@.skip(i as int), old_cur) == split_rec(
                    pointer@.skip(i as int + 1),
                    old_cur.push(c),
                ));
            }
        }
        i += 1;
    }
    proof {
        assert(pointer@.skip(n as int) =~~= Seq::<char>::empty());
        assert(split_rec(pointer@.skip(n as int), cur@) =~~= seq![cur@]);
    }
    let ghost old_segs = segs@;
    let ghost old_cur = cur@;
    segs.push(cur);
    proof {
        assert(strs_view(segs@) =~~= strs_view(old_segs) + seq![old_cur]);
    }
    segs
}

#[verifier::loop_isolation(false)]
fn unescape_segment(seg: &str) -> (r: String)
    ensures
        r@ == unescaped(seg@),
{
    let n = seg.unicode_len();
    let mut out: String = String::new();
    let mut i: usize = 0;
    proof {
        assert(seg@.skip(0) =~~= seg@);
        assert(out@ + unescaped(seg@.skip(0)) =~~= unescaped(seg@));
    }
    while i < n
        invariant
            i <= n,
            n == seg@.len(),
            unescaped(seg@) =~~= out@ + unescaped(seg@.skip(i as int)),
        decreases n - i,
    {
        let ghost old_out = out@;
        let ghost rest = seg@.skip(i as int);
        let c = seg.get_char(i);
        proof {
            assert(rest[0] == c);
            assert(rest.skip(1) =~~= seg@.skip(i as int + 1));
        }
        if c == '~' && i + 1 < n {
            let c2 = seg.get_char(i + 1);
            proof {
                assert(rest[1] == c2);
                assert(rest.skip(2) =~~= seg@.skip(i as int + 2));
            }
            if c2 == '0' {
                push_char(&mut out, '~');
                i += 2;
                proof {
                    assert(old_out + unescaped(rest) =~~= out@ + unescaped(seg@.skip(i as int)));
                }
            } else if c2 == '1' {
                push_char(&mut out, '/');
                i += 2;
                proof {
                    assert(old_out + unescaped(rest) =~~= out@ + unescaped(seg@.skip(i as int)));
                }
            } else {
                push_char(&mut out, c);
                i += 1;
                proof {
                    assert(old_out + unescaped(rest) =~~= out@ + unescaped(seg@.skip(i as int)));
                }
            }
        } else {
            push_char(&mut out, c);
            i += 1;
            proof {
                assert(old_out + unescaped(rest) =~~= out@ + unescaped(seg@.skip(i as int)));
            }
        }
    }
    proof {
        assert(seg@.skip(n as int) =~~= Seq::<char>::empty());
        assert(out@ =~~= unescaped(seg@));
    }
    out
}

proof fn lemma_digits_val_nonneg(s: Seq<char>)
    requires
        seg_digits(s),
    ensures
        digits_val(s) >= 0,
    decreases s.len(),
{
    if s.len() > 0 {
        assert(seg_digits(s.drop_last())) by {
            assert(forall|i: int|
                0 <= i < s.drop_last().len() ==> #[trigger] s.drop_last()[i] == s[i]);
        }
        lemma_digits_val_nonneg(s.drop_last());
    }
}

proof fn lemma_digits_val_take_step(s: Seq<char>, j: int)
    requires
        0 <= j < s.len(),
    ensures
        digits_val(s.take(j + 1)) == digits_val(s.take(j)) * 10 + (s[j] as int - '0' as int),
{
    assert(s.take(j + 1).drop_last() =~~= s.take(j));
    assert(s.take(j + 1).last() == s[j]);
}

proof fn lemma_digits_val_prefix_le(s: Seq<char>, j: int)
    requires
        seg_digits(s),
        0 <= j <= s.len(),
    ensures
        digits_val(s.take(j)) <= digits_val(s),
    decreases s.len() - j,
{
    if j == s.len() {
        assert(s.take(j) =~~= s);
    } else {
        lemma_digits_val_take_step(s, j);
        assert(seg_digits(s.take(j))) by {
            assert(forall|i: int| 0 <= i < j ==> #[trigger] s.take(j)[i] == s[i]);
        }
        lemma_digits_val_nonneg(s.take(j));
        lemma_digits_val_prefix_le(s, j + 1);
    }
}

#[verifier::loop_isolation(false)]
fn parse_array_index(seg: &str) -> (r: Option<usize>)
    ensures
        match r {
            Some(ix) => parse_index(seg@) == Some(ix as int),
            None => parse_index(seg@) is None,
        },
{
    let n = seg.unicode_len();
    if n == 0 {
        return None;
    }
    if n > 1 && seg.get_char(0) == '0' {
        return None;
    }
    let mut acc: usize = 0;
    let mut i: usize = 0;
    proof {
        assert(seg@.take(0) =~~= Seq::<char>::empty());
    }
    while i < n
        invariant
            i <= n,
            n == seg@.len(),
            n >= 1,
            n > 1 ==> seg@[0] != '0',
            forall|j: int| 0 <= j < i ==> '0' <= #[trigger] seg@[j] && seg@[j] <= '9',
            acc == digits_val(seg@.take(i as int)),
        decreases n - i,
    {
        let c = seg.get_char(i);
        if c < '0' || c > '9' {
            return None;
        }
        let d: usize = (c as usize) - ('0' as usize);
        proof {
            lemma_digits_val_take_step(seg@, i as int);
        }
        if acc > (usize::MAX - d) / 10 {
            proof {
                assert(acc * 10 + d > usize::MAX) by (nonlinear_arith)
                    requires
                        acc > (usize::MAX - d) / 10,
                        d <= 9,
                ;
                if seg_digits(seg@) {
                    lemma_digits_val_prefix_le(seg@, i as int + 1);
                    assert(digits_val(seg@) > usize::MAX as int);
                }
            }
            return None;
        }
        proof {
            assert(acc * 10 + d <= usize::MAX) by (nonlinear_arith)
                requires
                    acc <= (usize::MAX - d) / 10,
                    d <= 9,
            ;
        }
        acc = acc * 10 + d;
        i += 1;
    }
    proof {
        assert(seg@.take(n as int) =~~= seg@);
    }
    Some(acc)
}

#[verifier::loop_isolation(false)]
pub(crate) fn obj_find<'a>(entries: &'a Vec<(String, Value)>, key: &String) -> (r: Option<&'a Value>)
    ensures
        match r {
            Some(v) => obj_get(entries_view(entries@), key@) == Some(v@),
            None => obj_get(entries_view(entries@), key@) is None,
        },
{
    let ghost ev = entries_view(entries@);
    let mut j: usize = 0;
    proof {
        assert(ev.skip(0) =~~= ev);
    }
    while j < entries.len()
        invariant
            j <= entries@.len(),
            ev == entries_view(entries@),
            obj_get(ev, key@) == obj_get(ev.skip(j as int), key@),
        decreases entries@.len() - j,
    {
        proof {
            assert(ev.skip(j as int)[0] == ev[j as int]);
            assert(ev[j as int] == (entries@[j as int].0@, entries@[j as int].1@));
        }
        if entries[j].0.eq(key) {
            proof {
                assert(ev[j as int].0 == key@);
                assert(obj_get(ev.skip(j as int), key@) == Some(ev[j as int].1));
            }
            return Some(&entries[j].1);
        }
        proof {
            assert(ev[j as int].0 != key@);
            assert(ev.skip(j as int).skip(1) =~~= ev.skip(j as int + 1));
            assert(obj_get(ev.skip(j as int), key@) == obj_get(ev.skip(j as int + 1), key@));
        }
        j += 1;
    }
    proof {
        assert(ev.skip(entries@.len() as int) =~~= Seq::<(Seq<char>, JVal)>::empty());
    }
    None
}

/// Dereferences `pointer` against `record` and returns a copy of the value at
/// that location, or `None` when the path does not resolve to an existing
/// location (missing key, out-of-range index, or traversal through a
/// non-container).
#[verifier::loop_isolation(false)]
pub fn lookup_pointer(record: &Value, pointer: &str) -> (r: Option<Value>)
    ensures
        match r {
            Some(v) => lookup(record@, pointer@) == Some(v@),
            None => lookup(record@, pointer@) is None,
        },
{
    if pointer.is_empty() {
        return Some(record.deep_clone());
    }
    if pointer.get_char(0) != '/' {
        return None;
    }
    let segs = split_pointer_body(pointer);
    let ghost segviews = split_segments(pointer@.skip(1));
    let mut cur: &Value = record;
    let mut k: usize = 0;
    proof {
        assert(segviews.skip(0) =~~= segviews);
    }
    while k < segs.len()
        invariant
            k <= segs@.len(),
            strs_view(segs@) == segviews,
            lookup(record@, pointer@) == lookup_segs(cur@, segviews.skip(k as int)),
        decreases segs@.len() - k,
    {
        let useg = unescape_segment(segs[k].as_str());
        let ghost rest = segviews.skip(k as int);
        proof {
            assert(rest[0] == segviews[k as int]);
            assert(segviews[k as int] == strs_view(segs@)[k as int]);
            assert(useg@ == unescaped(rest[0]));
            assert(rest.skip(1) =~~= segviews.skip(k as int + 1));
        }
        match cur {
            Value::Obj(entries) => {
                proof {
                    assert(cur@ == JVal::Obj(entries_view(entries@)));
                }
                match obj_find(entries, &useg) {
                    Some(child) => {
                        cur = child;
                    },
                    None => {
                        return None;
                    },
                }
            },
            Value::Arr(elems) => {
                proof {
                    assert(cur@ == JVal::Arr(elems_view(elems@)));
                }
                match parse_array_index(useg.as_str()) {
                    Some(ix) => {
                        if ix < elems.len() {
                            cur = &elems[ix];
                        } else {
                            return None;
                        }
                    },
                    None => {
                        return None;
                    },
                }
            },
            _ => {
                return None;
            },
        }
        k += 1;
    }
    proof {
        assert(segviews.skip(segs@.len() as int) =~~= Seq::<Seq<char>>::empty());
    }
    Some(cur.deep_clone())
}

} // verus!
