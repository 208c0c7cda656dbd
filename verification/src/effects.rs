//! The effect library: a closed set of pure value-to-value transforms. Each
//! effect validates its input's shape and fails with a shape mismatch when
//! violated; effects never have side effects.

use vstd::prelude::*;

use crate::errors::{res_view, Error, ErrorV, ExpectedShape};
use crate::numbers::{round_number, round_spec, RoundMode};
use crate::strutil::{contains_str, strs_view};
use crate::value::{elems_view, entries_view, is_truthy, kind_of, truthy, JVal, Value};

verus! {

broadcast use vstd::std_specs::vec::group_vec_axioms, vstd::seq::group_seq_axioms;

/// Keeps entries whose key is in a non-empty `included` list, or out of a
/// non-empty `excluded` list; with both lists empty nothing is kept — a
/// deliberate edge of the catalog, not an oversight.
#[derive(Debug, PartialEq, Eq)]
pub struct FilterKeysEffect {
    pub included: Vec<String>,
    pub excluded: Vec<String>,
}

/// Keeps object entries (or array elements) whose truthiness equals
/// `!invert`.
#[derive(Debug, PartialEq, Eq)]
pub struct TruthyFilterEffect {
    pub invert: bool,
}

/// Replaces an object by the array of its own keys, in declared order.
#[derive(Debug, PartialEq, Eq)]
pub struct ObjectKeysEffect;

/// Replaces an object by the array of its keys holding truthy values, first
/// narrowed to `include_fields` (when non-empty), then narrowed away from
/// `exclude_fields` (when non-empty).
#[derive(Debug, PartialEq, Eq)]
pub struct TruthyKeys {
    pub include_fields: Vec<String>,
    pub exclude_fields: Vec<String>,
}

/// Rounds a number to the nearest value at `decimals` fractional digits,
/// ties away from zero.
#[derive(Debug, PartialEq, Eq)]
pub struct RoundEffect {
    pub decimals: u32,
}

/// Rounds a number toward negative infinity at `decimals` fractional digits.
#[derive(Debug, PartialEq, Eq)]
pub struct FloorEffect {
    pub decimals: u32,
}

/// Rounds a number toward positive infinity at `decimals` fractional digits.
#[derive(Debug, PartialEq, Eq)]
pub struct CeilEffect {
    pub decimals: u32,
}

/// One transform of the closed catalog, with its parameters.
#[derive(Debug, PartialEq, Eq)]
pub enum MapEffect {
    FilterKeys(FilterKeysEffect),
    TruthyFilter(TruthyFilterEffect),
    ObjectKeys(ObjectKeysEffect),
    TruthyKeys(TruthyKeys),
    Round(RoundEffect),
    Floor(FloorEffect),
    Ceil(CeilEffect),
}

/// The mathematical shape of a `MapEffect`.
#[verifier::ext_equal]
pub enum MapEffectV {
    FilterKeys { included: Seq<Seq<char>>, excluded: Seq<Seq<char>> },
    TruthyFilter { invert: bool },
    ObjectKeys,
    TruthyKeys { include_fields: Seq<Seq<char>>, exclude_fields: Seq<Seq<char>> },
    Round { decimals: u32 },
    Floor { decimals: u32 },
    Ceil { decimals: u32 },
}

impl View for MapEffect {
    type V = MapEffectV;

    open spec fn view(&self) -> MapEffectV {
        match self {
            MapEffect::FilterKeys(e) => MapEffectV::FilterKeys {
                included: strs_view(e.included@),
                excluded: strs_view(e.excluded@),
            },
            MapEffect::TruthyFilter(e) => MapEffectV::TruthyFilter { invert: e.invert },
            MapEffect::ObjectKeys(_) => MapEffectV::ObjectKeys,
            MapEffect::TruthyKeys(e) => MapEffectV::TruthyKeys {
                include_fields: strs_view(e.include_fields@),
                exclude_fields: strs_view(e.exclude_fields@),
            },
            MapEffect::Round(e) => MapEffectV::Round { decimals: e.decimals },
            MapEffect::Floor(e) => MapEffectV::Floor { decimals: e.decimals },
            MapEffect::Ceil(e) => MapEffectV::Ceil { decimals: e.decimals },
        }
    }
}

/// Whether `filter_keys` keeps an entry: its key is in a non-empty `included`
/// list, or out of a non-empty `excluded` list.
pub open spec fn filter_keys_keep(
    included: Seq<Seq<char>>,
    excluded: Seq<Seq<char>>,
    key: Seq<char>,
) -> bool {
    (included.len() > 0 && included.contains(key)) || (excluded.len() > 0 && !excluded.contains(key))
}

/// The `filter_keys` entry predicate.
pub open spec fn fk_pred(included: Seq<Seq<char>>, excluded: Seq<Seq<char>>) -> spec_fn(
    (Seq<char>, JVal),
) -> bool {
    |e: (Seq<char>, JVal)| filter_keys_keep(included, excluded, e.0)
}

/// What `filter_keys` returns: on an object, the entries whose key passes,
/// in order; on anything else, a shape mismatch.
pub open spec fn apply_filter_keys(
    included: Seq<Seq<char>>,
    excluded: Seq<Seq<char>>,
    v: JVal,
) -> Result<JVal, ErrorV> {
    match v {
        JVal::Obj(entries) => Ok(JVal::Obj(entries.filter(fk_pred(included, excluded)))),
        _ => Err(ErrorV::TypeMismatch { expected: ExpectedShape::Object, actual: kind_of(v) }),
    }
}

/// The `truthy_filter` entry predicate on object entries.
pub open spec fn tf_entry_pred(invert: bool) -> spec_fn((Seq<char>, JVal)) -> bool {
    |e: (Seq<char>, JVal)| truthy(e.1) != invert
}

/// The `truthy_filter` element predicate on array elements.
pub open spec fn tf_elem_pred(invert: bool) -> spec_fn(JVal) -> bool {
    |x: JVal| truthy(x) != invert
}

/// What `truthy_filter` returns: the object entries (or array elements)
/// whose truthiness equals `!invert`, in order; on any other shape, a
/// mismatch.
pub open spec fn apply_truthy_filter(invert: bool, v: JVal) -> Result<JVal, ErrorV> {
    match v {
        JVal::Obj(entries) => Ok(JVal::Obj(entries.filter(tf_entry_pred(invert)))),
        JVal::Arr(elems) => Ok(JVal::Arr(elems.filter(tf_elem_pred(invert)))),
        _ => Err(
            ErrorV::TypeMismatch { expected: ExpectedShape::ObjectOrArray, actual: kind_of(v) },
        ),
    }
}

/// An object entry as the string value of its key.
pub open spec fn key_str(e: (Seq<char>, JVal)) -> JVal {
    JVal::Str(e.0)
}

/// What `object_keys` returns: on an object, the array of its own keys as
/// strings, in declared order; on anything else, a shape mismatch.
pub open spec fn apply_object_keys(v: JVal) -> Result<JVal, ErrorV> {
    match v {
        JVal::Obj(entries) => Ok(JVal::Arr(entries.map_values(|e: (Seq<char>, JVal)| key_str(e)))),
        _ => Err(ErrorV::TypeMismatch { expected: ExpectedShape::Object, actual: kind_of(v) }),
    }
}

/// Whether `truthy_keys` keeps an entry: the key passes the `include_fields`
/// narrowing (when non-empty), then the `exclude_fields` narrowing (when
/// non-empty), and the value is truthy.
pub open spec fn truthy_keys_keep(
    include_fields: Seq<Seq<char>>,
    exclude_fields: Seq<Seq<char>>,
    e: (Seq<char>, JVal),
) -> bool {
    &&& include_fields.len() > 0 ==> include_fields.contains(e.0)
    &&& exclude_fields.len() > 0 ==> !exclude_fields.contains(e.0)
    &&& truthy(e.1)
}

/// The `truthy_keys` entry predicate.
pub open spec fn tk_pred(
    include_fields: Seq<Seq<char>>,
    exclude_fields: Seq<Seq<char>>,
) -> spec_fn((Seq<char>, JVal)) -> bool {
    |e: (Seq<char>, JVal)| truthy_keys_keep(include_fields, exclude_fields, e)
}

/// What `truthy_keys` returns: on an object, the array of the kept keys as
/// strings, in declared order; on anything else, a shape mismatch.
pub open spec fn apply_truthy_keys(
    include_fields: Seq<Seq<char>>,
    exclude_fields: Seq<Seq<char>>,
    v: JVal,
) -> Result<JVal, ErrorV> {
    match v {
        JVal::Obj(entries) => Ok(
            JVal::Arr(
                entries.filter(tk_pred(include_fields, exclude_fields)).map_values(
                    |e: (Seq<char>, JVal)| key_str(e),
                ),
            ),
        ),
        _ => Err(ErrorV::TypeMismatch { expected: ExpectedShape::Object, actual: kind_of(v) }),
    }
}

/// What the rounding effects return: on a number, the exactly rounded
/// number; on anything else, a shape mismatch.
pub open spec fn apply_rounding(mode: RoundMode, decimals: u32, v: JVal) -> Result<
    JVal,
    ErrorV,
> {
    match v {
        JVal::Num(n) => Ok(JVal::Num(round_spec(mode, decimals, n))),
        _ => Err(ErrorV::TypeMismatch { expected: ExpectedShape::NumberShape, actual: kind_of(v) }),
    }
}

/// What one effect returns on one value.
pub open spec fn apply_effect(e: MapEffectV, v: JVal) -> Result<JVal, ErrorV> {
    match e {
        MapEffectV::FilterKeys { included, excluded } => apply_filter_keys(included, excluded, v),
        MapEffectV::TruthyFilter { invert } => apply_truthy_filter(invert, v),
        MapEffectV::ObjectKeys => apply_object_keys(v),
        MapEffectV::TruthyKeys { include_fields, exclude_fields } => apply_truthy_keys(
            include_fields,
            exclude_fields,
            v,
        ),
        MapEffectV::Round { decimals } => apply_rounding(RoundMode::Nearest, decimals, v),
        MapEffectV::Floor { decimals } => apply_rounding(RoundMode::Floor, decimals, v),
        MapEffectV::Ceil { decimals } => apply_rounding(RoundMode::Ceil, decimals, v),
    }
}

impl FilterKeysEffect {
    /// Applies `filter_keys` to one value.
    #[verifier::loop_isolation(false)]
    pub fn apply(&self, value: &Value) -> (r: Result<Value, Error>)
        ensures
            res_view(r) == apply_filter_keys(
                strs_view(self.included@),
                strs_view(self.excluded@),
                value@,
            ),
    {
        let ghost pred = fk_pred(strs_view(self.included@), strs_view(self.excluded@));
        match value {
            Value::Obj(entries) => {
                let ghost ev = entries_view(entries@);
                let mut out: Vec<(String, Value)> = Vec::new();
                let mut i: usize = 0;
                proof {
                    reveal(Seq::filter);
                    assert(ev.take(0) =~~= Seq::<(Seq<char>, JVal)>::empty());
                    assert(entries_view(out@) =~~= ev.take(0).filter(pred));
                }
                while i < entries.len()
                    invariant
                        i <= entries@.len(),
                        entries_view(out@) == ev.take(i as int).filter(pred),
                    decreases entries@.len() - i,
                {
                    let inc_hit = !self.included.is_empty() && contains_str(
                        &self.included,
                        &entries[i].0,
                    );
                    let exc_hit = !self.excluded.is_empty() && !contains_str(
                        &self.excluded,
                        &entries[i].0,
                    );
                    let keep = inc_hit || exc_hit;
                    proof {
                        assert(ev[i as int] == (entries@[i as int].0@, entries@[i as int].1@));
                        assert(keep == pred(ev[i as int]));
                        assert(ev.take(i as int + 1) =~~= ev.take(i as int).push(ev[i as int]));
                        ev.take(i as int).lemma_filter_push(ev[i as int], pred);
                    }
                    if keep {
                        let ghost old_out = out@;
                        let entry = (entries[i].0.clone(), entries[i].1.deep_clone());
                        out.push(entry);
                        proof {
                            assert(entries_view(out@) =~~= entries_view(old_out).push(
                                ev[i as int],
                            ));
                        }
                    }
                    i += 1;
                }
                proof {
                    assert(ev.take(entries@.len() as int) =~~= ev);
                }
                Ok(Value::Obj(out))
            },
            _ => Err(
                Error::TypeMismatch { expected: ExpectedShape::Object, actual: value.kind() },
            ),
        }
    }
}

impl TruthyFilterEffect {
    /// Applies `truthy_filter` to one value.
    #[verifier::loop_isolation(false)]
    pub fn apply(&self, value: &Value) -> (r: Result<Value, Error>)
        ensures
            res_view(r) == apply_truthy_filter(self.invert, value@),
    {
        match value {
            Value::Obj(entries) => {
                let ghost pred = tf_entry_pred(self.invert);
                let ghost ev = entries_view(entries@);
                let mut out: Vec<(String, Value)> = Vec::new();
                let mut i: usize = 0;
                proof {
                    reveal(Seq::filter);
                    assert(ev.take(0) =~~= Seq::<(Seq<char>, JVal)>::empty());
                    assert(entries_view(out@) =~~= ev.take(0).filter(pred));
                }
                while i < entries.len()
                    invariant
                        i <= entries@.len(),
                        entries_view(out@) == ev.take(i as int).filter(pred),
                    decreases entries@.len() - i,
                {
                    let keep = is_truthy(&entries[i].1) != self.invert;
                    proof {
                        assert(ev[i as int] == (entries@[i as int].0@, entries@[i as int].1@));
                        assert(keep == pred(ev[i as int]));
                        assert(ev.take(i as int + 1) =~~= ev.take(i as int).push(ev[i as int]));
                        ev.take(i as int).lemma_filter_push(ev[i as int], pred);
                    }
                    if keep {
                        let ghost old_out = out@;
                        let entry = (entries[i].0.clone(), entries[i].1.deep_clone());
                        out.push(entry);
                        proof {
                            assert(entries_view(out@) =~~= entries_view(old_out).push(
                                ev[i as int],
                            ));
                        }
                    }
                    i += 1;
                }
                proof {
                    assert(ev.take(entries@.len() as int) =~~= ev);
                }
                Ok(Value::Obj(out))
            },
            Value::Arr(elems) => {
                let ghost pred = tf_elem_pred(self.invert);
                let ghost ev = elems_view(elems@);
                let mut out: Vec<Value> = Vec::new();
                let mut i: usize = 0;
                proof {
                    reveal(Seq::filter);
                    assert(ev.take(0) =~~= Seq::<JVal>::empty());
                    assert(elems_view(out@) =~~= ev.take(0).filter(pred));
                }
                while i < elems.len()
                    invariant
                        i <= elems@.len(),
                        elems_view(out@) == ev.take(i as int).filter(pred),
                    decreases elems@.len() - i,
                {
                    let keep = is_truthy(&elems[i]) != self.invert;
                    proof {
                        assert(ev[i as int] == elems@[i as int]@);
                        assert(keep == pred(ev[i as int]));
                        assert(ev.take(i as int + 1) =~~= ev.take(i as int).push(ev[i as int]));
                        ev.take(i as int).lemma_filter_push(ev[i as int], pred);
                    }
                    if keep {
                        let ghost old_out = out@;
                        out.push(elems[i].deep_clone());
                        proof {
                            assert(elems_view(out@) =~~= elems_view(old_out).push(ev[i as int]));
                        }
                    }
                    i += 1;
                }
                proof {
                    assert(ev.take(elems@.len() as int) =~~= ev);
                }
                Ok(Value::Arr(out))
            },
            _ => Err(
                Error::TypeMismatch {
                    expected: ExpectedShape::ObjectOrArray,
                    actual: value.kind(),
                },
            ),
        }
    }
}

impl ObjectKeysEffect {
    /// Applies `object_keys` to one value.
    #[verifier::loop_isolation(false)]
    pub fn apply(&self, value: &Value) -> (r: Result<Value, Error>)
        ensures
            res_view(r) == apply_object_keys(value@),
    {
        match value {
            Value::Obj(entries) => {
                let ghost ev = entries_view(entries@);
                let mut out: Vec<Value> = Vec::new();
                let mut i: usize = 0;
                while i < entries.len()
                    invariant
                        i <= entries@.len(),
                        out@.len() == i,
                        forall|j: int| 0 <= j < i ==> out@[j]@ == key_str(ev[j]),
                    decreases entries@.len() - i,
                {
                    out.push(Value::Str(entries[i].0.clone()));
                    i += 1;
                }
                proof {
                    assert(elems_view(out@) =~~= ev.map_values(|e: (Seq<char>, JVal)| key_str(e)));
                }
                Ok(Value::Arr(out))
            },
            _ => Err(
                Error::TypeMismatch { expected: ExpectedShape::Object, actual: value.kind() },
            ),
        }
    }
}

impl TruthyKeys {
    /// Applies `truthy_keys` to one value.
    #[verifier::loop_isolation(false)]
    pub fn apply(&self, value: &Value) -> (r: Result<Value, Error>)
        ensures
            res_view(r) == apply_truthy_keys(
                strs_view(self.include_fields@),
                strs_view(self.exclude_fields@),
                value@,
            ),
    {
        let ghost pred = tk_pred(strs_view(self.include_fields@), strs_view(self.exclude_fields@));
        match value {
            Value::Obj(entries) => {
                let ghost ev = entries_view(entries@);
                let mut out: Vec<Value> = Vec::new();
                let mut i: usize = 0;
                proof {
                    reveal(Seq::filter);
                    assert(ev.take(0) =~~= Seq::<(Seq<char>, JVal)>::empty());
                    assert(elems_view(out@) =~~= ev.take(0).filter(pred).map_values(
                        |e: (Seq<char>, JVal)| key_str(e),
                    ));
                }
                while i < entries.len()
                    invariant
                        i <= entries@.len(),
                        elems_view(out@) == ev.take(i as int).filter(pred).map_values(
                            |e: (Seq<char>, JVal)| key_str(e),
                        ),
                    decreases entries@.len() - i,
                {
                    let included = self.include_fields.is_empty() || contains_str(
                        &self.include_fields,
                        &entries[i].0,
                    );
                    let excluded = !self.exclude_fields.is_empty() && contains_str(
                        &self.exclude_fields,
                        &entries[i].0,
                    );
                    let keep = included && !excluded && is_truthy(&entries[i].1);
                    proof {
                        assert(ev[i as int] == (entries@[i as int].0@, entries@[i as int].1@));
                        assert(keep == pred(ev[i as int]));
                        assert(ev.take(i as int + 1) =~~= ev.take(i as int).push(ev[i as int]));
                        ev.take(i as int).lemma_filter_push(ev[i as int], pred);
                    }
                    if keep {
                        let ghost old_out = out@;
                        out.push(Value::Str(entries[i].0.clone()));
                        proof {
                            assert(elems_view(out@) =~~= elems_view(old_out).push(
                                key_str(ev[i as int]),
                            ));
                            assert(ev.take(i as int + 1).filter(pred).map_values(
                                |e: (Seq<char>, JVal)| key_str(e),
                            ) =~~= ev.take(i as int).filter(pred).map_values(
                                |e: (Seq<char>, JVal)| key_str(e),
                            ).push(key_str(ev[i as int])));
                        }
                    }
                    i += 1;
                }
                proof {
                    assert(ev.take(entries@.len() as int) =~~= ev);
                }
                Ok(Value::Arr(out))
            },
            _ => Err(
                Error::TypeMismatch { expected: ExpectedShape::Object, actual: value.kind() },
            ),
        }
    }
}

/// Applies one rounding effect to one value.
fn apply_round_effect(mode: RoundMode, decimals: u32, value: &Value) -> (r: Result<Value, Error>)
    ensures
        res_view(r) == apply_rounding(mode, decimals, value@),
{
    match value {
        Value::Num(n) => Ok(Value::Num(round_number(mode, decimals, n))),
        _ => Err(Error::TypeMismatch { expected: ExpectedShape::NumberShape, actual: value.kind() }),
    }
}

impl RoundEffect {
    /// Applies `round` to one value.
    pub fn apply(&self, value: &Value) -> (r: Result<Value, Error>)
        ensures
            res_view(r) == apply_rounding(RoundMode::Nearest, self.decimals, value@),
    {
        apply_round_effect(RoundMode::Nearest, self.decimals, value)
    }
}

impl FloorEffect {
    /// Applies `floor` to one value.
    pub fn apply(&self, value: &Value) -> (r: Result<Value, Error>)
        ensures
            res_view(r) == apply_rounding(RoundMode::Floor, self.decimals, value@),
    {
        apply_round_effect(RoundMode::Floor, self.decimals, value)
    }
}

impl CeilEffect {
    /// Applies `ceil` to one value.
    pub fn apply(&self, value: &Value) -> (r: Result<Value, Error>)
        ensures
            res_view(r) == apply_rounding(RoundMode::Ceil, self.decimals, value@),
    {
        apply_round_effect(RoundMode::Ceil, self.decimals, value)
    }
}

impl MapEffect {
    /// Applies this effect to one value.
    pub fn apply(&self, value: &Value) -> (r: Result<Value, Error>)
        ensures
            res_view(r) == apply_effect(self@, value@),
    {
        match self {
            MapEffect::FilterKeys(e) => e.apply(value),
            MapEffect::TruthyFilter(e) => e.apply(value),
            MapEffect::ObjectKeys(e) => e.apply(value),
            MapEffect::TruthyKeys(e) => e.apply(value),
            MapEffect::Round(e) => e.apply(value),
            MapEffect::Floor(e) => e.apply(value),
            MapEffect::Ceil(e) => e.apply(value),
        }
    }
}

/// With both of its lists empty, `filter_keys` turns any object into the
/// empty object: a key can only be kept through a non-empty list, so nothing
/// passes. This is the catalog's deliberate edge case.
pub proof fn lemma_filter_keys_both_empty(v: JVal)
    requires
        v is Obj,
    ensures
        apply_filter_keys(Seq::empty(), Seq::empty(), v) == Ok::<JVal, ErrorV>(
            JVal::Obj(Seq::empty()),
        ),
{
    let entries = v->Obj_0;
    let pred = fk_pred(Seq::empty(), Seq::empty());
    assert(entries.all(|e: (Seq<char>, JVal)| !pred(e))) by {
        reveal(Seq::all);
        assert(forall|i: int| 0 <= i < entries.len() ==> !pred(#[trigger] entries[i]));
    }
    entries.lemma_all_neg_filter_empty(pred);
    assert(entries.filter(pred) =~~= Seq::<(Seq<char>, JVal)>::empty());
}

} // verus!
