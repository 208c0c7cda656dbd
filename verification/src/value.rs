//! The JSON value model: every document the engine touches is held as a
//! `Value`, an ordered, immutable tree. Numbers are kept exactly, either as
//! integers or as a signed decimal `mantissa * 10^exp10`.

use vstd::prelude::*;

verus! {

broadcast use vstd::std_specs::vec::group_vec_axioms, vstd::seq::group_seq_axioms;

/// A JSON number. A value with a fractional part or an explicit decimal
/// representation is `Dec { neg, mantissa, exp10 }`, standing for
/// `(-1)^neg * mantissa * 10^exp10`.
#[derive(Clone, Copy, Debug, PartialEq, Eq)]
pub enum Number {
    Int(i64),
    UInt(u64),
    Dec { neg: bool, mantissa: u64, exp10: i64 },
}

/// A JSON value: null, boolean, number, string, array, or object.
/// Objects keep their entries in insertion order.
#[derive(Debug, PartialEq, Eq)]
pub enum Value {
    Null,
    Bool(bool),
    Num(Number),
    Str(String),
    Arr(Vec<Value>),
    Obj(Vec<(String, Value)>),
}

/// The mathematical shape of a `Value`: strings become character sequences,
/// arrays and objects become sequences. Contracts speak of this type.
#[verifier::ext_equal]
pub enum JVal {
    Null,
    Bool(bool),
    Num(Number),
    Str(Seq<char>),
    Arr(Seq<JVal>),
    Obj(Seq<(Seq<char>, JVal)>),
}

impl View for Value {
    type V = JVal;

    open spec fn view(&self) -> JVal
        decreases self,
    {
        match self {
            Value::Null => JVal::Null,
            Value::Bool(b) => JVal::Bool(*b),
            Value::Num(n) => JVal::Num(*n),
            Value::Str(s) => JVal::Str(s@),
            Value::Arr(a) => JVal::Arr(elems_view(a@)),
            Value::Obj(o) => JVal::Obj(entries_view(o@)),
        }
    }
}

/// The shape of an array's elements, as `JVal::Arr` holds them. The range
/// guard keeps the recursion well-founded; out-of-range positions are never
/// read.
pub open spec fn elems_view(a: Seq<Value>) -> Seq<JVal>
    decreases a,
{
    Seq::new(
        a.len(),
        |i: int|
            if 0 <= i < a.len() {
                a[i]@
            } else {
                JVal::Null
            },
    )
}

/// The shape of an object's entries, as `JVal::Obj` holds them. The range
/// guard keeps the recursion well-founded; out-of-range positions are never
/// read.
pub open spec fn entries_view(o: Seq<(String, Value)>) -> Seq<(Seq<char>, JVal)>
    decreases o,
{
    Seq::new(
        o.len(),
        |i: int|
            if 0 <= i < o.len() {
                (o[i].0@, o[i].1@)
            } else {
                (Seq::empty(), JVal::Null)
            },
    )
}

/// The closed set of JSON value kinds, used by shape-mismatch errors.
#[derive(Clone, Copy, Debug, PartialEq, Eq, Structural)]
pub enum ValueKind {
    Null,
    Bool,
    Number,
    Str,
    Arr,
    Obj,
}

/// The kind of a value's shape.
pub open spec fn kind_of(v: JVal) -> ValueKind {
    match v {
        JVal::Null => ValueKind::Null,
        JVal::Bool(_) => ValueKind::Bool,
        JVal::Num(_) => ValueKind::Number,
        JVal::Str(_) => ValueKind::Str,
        JVal::Arr(_) => ValueKind::Arr,
        JVal::Obj(_) => ValueKind::Obj,
    }
}

impl Value {
    /// The kind of this value's shape.
    pub fn kind(&self) -> (k: ValueKind)
        ensures
            k == kind_of(self@),
    {
        match self {
            Value::Null => ValueKind::Null,
            Value::Bool(_) => ValueKind::Bool,
            Value::Num(_) => ValueKind::Number,
            Value::Str(_) => ValueKind::Str,
            Value::Arr(_) => ValueKind::Arr,
            Value::Obj(_) => ValueKind::Obj,
        }
    }

    /// A structurally equal copy of this value.
    #[verifier::loop_isolation(false)]
    pub fn deep_clone(&self) -> (r: Value)
        ensures
            r@ == self@,
        decreases self,
    {
        match self {
            Value::Null => Value::Null,
            Value::Bool(b) => Value::Bool(*b),
            Value::Num(n) => Value::Num(*n),
            Value::Str(s) => Value::Str(s.clone()),
            Value::Arr(a) => {
                let mut out: Vec<Value> = Vec::new();
                let mut i: usize = 0;
                while i < a.len()
                    invariant
                        i <= a@.len(),
                        out@.len() == i,
                        forall|j: int| 0 <= j < i ==> out@[j]@ == a@[j]@,
                    decreases a@.len() - i,
                {
                    out.push(a[i].deep_clone());
                    i += 1;
                }
                proof {
                    assert(elems_view(out@) =~~= elems_view(a@));
                }
                Value::Arr(out)
            },
            Value::Obj(o) => {
                let mut out: Vec<(String, Value)> = Vec::new();
                let mut i: usize = 0;
                while i < o.len()
                    invariant
                        i <= o@.len(),
                        out@.len() == i,
                        forall|j: int| 0 <= j < i ==> out@[j].0@ == o@[j].0@ && out@[j].1@
                            == o@[j].1@,
                    decreases o@.len() - i,
                {
                    let entry = (o[i].0.clone(), o[i].1.deep_clone());
                    out.push(entry);
                    i += 1;
                }
                proof {
                    assert(entries_view(out@) =~~= entries_view(o@));
                }
                Value::Obj(out)
            },
        }
    }
}

/// Truthiness: a value carries information unless it is null, `false`, an
/// empty string, an empty array, or an empty object. Every number is truthy,
/// zero included: a number's declared type is not tracked apart from its
/// content, so zero cannot be told apart from a meaningful reading of zero.
pub open spec fn truthy(v: JVal) -> bool {
    match v {
        JVal::Null => false,
        JVal::Bool(b) => b,
        JVal::Num(_) => true,
        JVal::Str(s) => s.len() > 0,
        JVal::Arr(a) => a.len() > 0,
        JVal::Obj(o) => o.len() > 0,
    }
}

/// Returns `true` if information is present (the value is `true`, non-null,
/// or not empty). Numbers are always truthy, zero included.
pub fn is_truthy(value: &Value) -> (r: bool)
    ensures
        r == truthy(value@),
{
    match value {
        Value::Null => {
            proof { assert(value@ == JVal::Null); }
            false
        },
        Value::Bool(b) => {
            proof { assert(value@ == JVal::Bool(*b)); }
            *b
        },
        Value::Num(_) => {
            proof { assert(value@ is Num); }
            true
        },
        Value::Str(s) => {
            proof { assert(value@ == JVal::Str(s@)); }
            !s.as_str().is_empty()
        },
        Value::Arr(a) => {
            proof { assert(value@ == JVal::Arr(elems_view(a@))); }
            a.len() > 0
        },
        Value::Obj(o) => {
            proof { assert(value@ == JVal::Obj(entries_view(o@))); }
            o.len() > 0
        },
    }
}

} // verus!

