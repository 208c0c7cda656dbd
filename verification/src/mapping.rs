//! The mapping specification: an ordered collection of column name to field
//! mapper bindings, parsed from a mapping document, and the resolution of one
//! record against one mapper.
//!
//! A mapper is a JSON Pointer with an optional ordered chain of effects; it
//! resolves a record by dereferencing the pointer and folding the chain over
//! the value, left to right, stopping at the first failure.

use vstd::prelude::*;

use crate::effects::{apply_effect, CeilEffect, FilterKeysEffect, FloorEffect, MapEffect, MapEffectV, ObjectKeysEffect, RoundEffect, TruthyFilterEffect, TruthyKeys};
use crate::errors::{res_view, Error, ErrorV};
use crate::pointer::{lookup, lookup_pointer, obj_find, obj_get};
use crate::render::{dec_digits, push_u64};
use crate::strutil::{push_char, str_eq};
use crate::strutil::strs_view;
use crate::value::{elems_view, entries_view, JVal, Number, Value};

verus! {

broadcast use vstd::std_specs::vec::group_vec_axioms, vstd::seq::group_seq_axioms;

/// One column's resolution rule: a bare pointer, or a pointer with an
/// ordered chain of effects.
#[derive(Debug, PartialEq, Eq)]
pub enum FieldMapper {
    PathPointer(String),
    WithEffects { pointer: String, effects: Vec<MapEffect> },
}

/// The mathematical shape of a `FieldMapper`.
#[verifier::ext_equal]
pub enum FieldMapperV {
    PathPointer(Seq<char>),
    WithEffects { pointer: Seq<char>, effects: Seq<MapEffectV> },
}

/// The shapes of a list of effects.
pub open spec fn effects_view(s: Seq<MapEffect>) -> Seq<MapEffectV> {
    Seq::new(s.len(), |i: int| s[i]@)
}

impl View for FieldMapper {
    type V = FieldMapperV;

    open spec fn view(&self) -> FieldMapperV {
        match self {
            FieldMapper::PathPointer(p) => FieldMapperV::PathPointer(p@),
            FieldMapper::WithEffects { pointer, effects } => FieldMapperV::WithEffects {
                pointer: pointer@,
                effects: effects_view(effects@),
            },
        }
    }
}

/// The pointer a mapper dereferences.
pub open spec fn mapper_pointer(m: FieldMapperV) -> Seq<char> {
    match m {
        FieldMapperV::PathPointer(p) => p,
        FieldMapperV::WithEffects { pointer, .. } => pointer,
    }
}

/// The effect chain a mapper applies; a bare pointer applies none.
pub open spec fn mapper_effects(m: FieldMapperV) -> Seq<MapEffectV> {
    match m {
        FieldMapperV::PathPointer(_) => Seq::empty(),
        FieldMapperV::WithEffects { effects, .. } => effects,
    }
}

/// The left-to-right fold of an effect chain over a value: the first effect
/// to fail aborts the whole chain with its error, and later effects never
/// run.
pub open spec fn apply_chain(effects: Seq<MapEffectV>, v: JVal) -> Result<JVal, ErrorV>
    decreases effects.len(),
{
    if effects.len() == 0 {
        Ok(v)
    } else {
        match apply_effect(effects[0], v) {
            Ok(v2) => apply_chain(effects.skip(1), v2),
            Err(e) => Err(e),
        }
    }
}

/// What resolving one record against one mapper returns: the pointer is
/// dereferenced per its lookup contract — a path that does not resolve fails
/// with a missing-field error carrying the literal pointer — and the effect
/// chain is then folded over the dereferenced value.
pub open spec fn resolve_spec(m: FieldMapperV, record: JVal) -> Result<JVal, ErrorV> {
    match lookup(record, mapper_pointer(m)) {
        Some(v) => apply_chain(mapper_effects(m), v),
        None => Err(ErrorV::MissingField { pointer: mapper_pointer(m) }),
    }
}

impl FieldMapper {
    /// The mapper's pointer string.
    pub fn pointer(&self) -> (p: &String)
        ensures
            p@ == mapper_pointer(self@),
    {
        match self {
            FieldMapper::PathPointer(pointer) => pointer,
            FieldMapper::WithEffects { pointer, .. } => pointer,
        }
    }

    /// The mapper's effect list, where one was given.
    pub fn effects(&self) -> (e: Option<&Vec<MapEffect>>)
        ensures
            match e {
                Some(list) => self@ is WithEffects && effects_view(list@) == mapper_effects(
                    self@,
                ),
                None => self@ is PathPointer,
            },
    {
        match self {
            FieldMapper::PathPointer(_) => None,
            FieldMapper::WithEffects { effects, .. } => Some(effects),
        }
    }

    /// Resolves one record to one cell value.
    #[verifier::loop_isolation(false)]
    pub fn resolve(&self, record: &Value) -> (r: Result<Value, Error>)
        ensures
            res_view(r) == resolve_spec(self@, record@),
    {
        let ptr = self.pointer();
        match lookup_pointer(record, ptr.as_str()) {
            None => Err(Error::MissingField { pointer: ptr.clone() }),
            Some(v0) => {
                match self.effects() {
                    None => Ok(v0),
                    Some(effects) => {
                        let ghost evs = effects_view(effects@);
                        let ghost v0v = v0@;
                        let mut cur = v0;
                        let mut i: usize = 0;
                        proof {
                            assert(evs.skip(0) =~~= evs);
                        }
                        while i < effects.len()
                            invariant
                                i <= effects@.len(),
                                apply_chain(evs, v0v) == apply_chain(evs.skip(i as int), cur@),
                            decreases effects@.len() - i,
                        {
                            proof {
                                assert(evs.skip(i as int)[0] == evs[i as int]);
                                assert(evs.skip(i as int).skip(1) =~~= evs.skip(i as int + 1));
                            }
                            match effects[i].apply(&cur) {
                                Ok(next) => {
                                    cur = next;
                                },
                                Err(e) => {
                                    return Err(e);
                                },
                            }
                            i += 1;
                        }
                        proof {
                            assert(evs.skip(effects@.len() as int) =~~= Seq::<MapEffectV>::empty());
                        }
                        Ok(cur)
                    },
                }
            },
        }
    }
}

/// The parsed mapping specification: ordered (column name, mapper) entries.
#[derive(Debug, PartialEq, Eq)]
pub struct HeaderMappings {
    pub entries: Vec<(String, FieldMapper)>,
}

/// The shapes of mapping entries.
pub open spec fn hm_view(entries: Seq<(String, FieldMapper)>) -> Seq<(Seq<char>, FieldMapperV)> {
    Seq::new(entries.len(), |i: int| (entries[i].0@, entries[i].1@))
}

impl View for HeaderMappings {
    type V = Seq<(Seq<char>, FieldMapperV)>;

    open spec fn view(&self) -> Seq<(Seq<char>, FieldMapperV)> {
        hm_view(self.entries@)
    }
}

/// The position of the first entry with this key; the length when no entry
/// has it.
pub open spec fn key_index(s: Seq<(Seq<char>, FieldMapperV)>, key: Seq<char>) -> int
    decreases s.len(),
{
    if s.len() == 0 {
        0
    } else if s[0].0 == key {
        0
    } else {
        1 + key_index(s.skip(1), key)
    }
}

/// Binding a column: a repeated name keeps its first position and takes the
/// later mapper (stable position, last value wins); a new name goes to the
/// end.
pub open spec fn upsert(
    s: Seq<(Seq<char>, FieldMapperV)>,
    key: Seq<char>,
    m: FieldMapperV,
) -> Seq<(Seq<char>, FieldMapperV)> {
    let i = key_index(s, key);
    if i < s.len() {
        s.update(i, (key, m))
    } else {
        s.push((key, m))
    }
}

/// The characters of the pointer field's key.
pub open spec fn kw_pointer() -> Seq<char> {
    seq!['p', 'o', 'i', 'n', 't', 'e', 'r']
}

/// The characters of the effects field's key.
pub open spec fn kw_effects() -> Seq<char> {
    seq!['e', 'f', 'f', 'e', 'c', 't', 's']
}

/// The characters of the effect discriminator's key.
pub open spec fn kw_kind() -> Seq<char> {
    seq!['k', 'i', 'n', 'd']
}

/// The characters of the `filter_keys` inclusion list's key.
pub open spec fn kw_included() -> Seq<char> {
    seq!['i', 'n', 'c', 'l', 'u', 'd', 'e']
}

/// The characters of the `filter_keys` exclusion list's key.
pub open spec fn kw_excluded() -> Seq<char> {
    seq!['e', 'x', 'c', 'l', 'u', 'd', 'e']
}

/// The characters of the `truthy_keys` inclusion list's key.
pub open spec fn kw_include_fields() -> Seq<char> {
    seq!['i', 'n', 'c', 'l', 'u', 'd', 'e', '_', 'f', 'i', 'e', 'l', 'd', 's']
}

/// The characters of the `truthy_keys` exclusion list's key.
pub open spec fn kw_exclude_fields() -> Seq<char> {
    seq!['e', 'x', 'c', 'l', 'u', 'd', 'e', '_', 'f', 'i', 'e', 'l', 'd', 's']
}

/// The characters of the `truthy_filter` inversion flag's key.
pub open spec fn kw_invert() -> Seq<char> {
    seq!['i', 'n', 'v', 'e', 'r', 't']
}

/// The characters of the rounding effects' digit-count key.
pub open spec fn kw_decimals() -> Seq<char> {
    seq!['d', 'e', 'c', 'i', 'm', 'a', 'l', 's']
}

/// The `filter_keys` discriminator.
pub open spec fn kind_filter_keys() -> Seq<char> {
    seq!['f', 'i', 'l', 't', 'e', 'r', '_', 'k', 'e', 'y', 's']
}

/// The `truthy_filter` discriminator.
pub open spec fn kind_truthy_filter() -> Seq<char> {
    seq!['t', 'r', 'u', 't', 'h', 'y', '_', 'f', 'i', 'l', 't', 'e', 'r']
}

/// The `object_keys` discriminator.
pub open spec fn kind_object_keys() -> Seq<char> {
    seq!['o', 'b', 'j', 'e', 'c', 't', '_', 'k', 'e', 'y', 's']
}

/// The `truthy_keys` discriminator.
pub open spec fn kind_truthy_keys() -> Seq<char> {
    seq!['t', 'r', 'u', 't', 'h', 'y', '_', 'k', 'e', 'y', 's']
}

/// The `round` discriminator.
pub open spec fn kind_round() -> Seq<char> {
    seq!['r', 'o', 'u', 'n', 'd']
}

/// The `floor` discriminator.
pub open spec fn kind_floor() -> Seq<char> {
    seq!['f', 'l', 'o', 'o', 'r']
}

/// The `ceil` discriminator.
pub open spec fn kind_ceil() -> Seq<char> {
    seq!['c', 'e', 'i', 'l']
}

/// A field's place inside the location at `path`.
pub open spec fn field_path(path: Seq<char>, name: Seq<char>) -> Seq<char> {
    path + seq!['.'] + name
}

/// A list element's place inside the location at `path`.
pub open spec fn index_path(path: Seq<char>, i: int) -> Seq<char> {
    path + seq!['['] + dec_digits(i) + seq![']']
}

/// A parsed string list parameter: absent means empty; present, it must be
/// an array of strings, and a non-string element fails at its own index.
pub open spec fn parse_str_list(items: Seq<JVal>, i: int, path: Seq<char>) -> Result<
    Seq<Seq<char>>,
    ErrorV,
> {
    parse_str_list_rec(items, i, path)
}

/// The recursion behind `parse_str_list`.
pub open spec fn parse_str_list_rec(items: Seq<JVal>, i: int, path: Seq<char>) -> Result<
    Seq<Seq<char>>,
    ErrorV,
>
    decreases items.len() - i,
{
    if i >= items.len() {
        Ok(Seq::empty())
    } else {
        match items[i] {
            JVal::Str(s) => match parse_str_list_rec(items, i + 1, path) {
                Ok(rest) => Ok(seq![s] + rest),
                Err(e) => Err(e),
            },
            _ => Err(ErrorV::MalformedDocument { path: index_path(path, i) }),
        }
    }
}

/// A string list parameter of an effect entry: absent defaults to empty.
pub open spec fn parse_list_param(
    entries: Seq<(Seq<char>, JVal)>,
    name: Seq<char>,
    path: Seq<char>,
) -> Result<Seq<Seq<char>>, ErrorV> {
    match obj_get(entries, name) {
        None => Ok(Seq::empty()),
        Some(v) => match v {
            JVal::Arr(items) => parse_str_list(items, 0, field_path(path, name)),
            _ => Err(ErrorV::MalformedDocument { path: field_path(path, name) }),
        },
    }
}

/// The `invert` flag of an effect entry: absent defaults to false.
pub open spec fn parse_invert_param(entries: Seq<(Seq<char>, JVal)>, path: Seq<char>) -> Result<
    bool,
    ErrorV,
> {
    match obj_get(entries, kw_invert()) {
        None => Ok(false),
        Some(v) => match v {
            JVal::Bool(b) => Ok(b),
            _ => Err(ErrorV::MalformedDocument { path: field_path(path, kw_invert()) }),
        },
    }
}

/// The required `decimals` count of a rounding effect entry: a nonnegative
/// integer number that fits thirty-two bits.
pub open spec fn parse_decimals_param(entries: Seq<(Seq<char>, JVal)>, path: Seq<char>) -> Result<
    u32,
    ErrorV,
> {
    match obj_get(entries, kw_decimals()) {
        Some(JVal::Num(Number::UInt(u))) => if u <= u32::MAX as u64 {
            Ok(u as u32)
        } else {
            Err(ErrorV::MalformedDocument { path: field_path(path, kw_decimals()) })
        },
        Some(JVal::Num(Number::Int(i))) => if 0 <= i && i <= u32::MAX as i64 {
            Ok(i as u32)
        } else {
            Err(ErrorV::MalformedDocument { path: field_path(path, kw_decimals()) })
        },
        _ => Err(ErrorV::MalformedDocument { path: field_path(path, kw_decimals()) }),
    }
}

/// One parsed effect entry: a tagged object whose `kind` picks the effect
/// from the closed catalog and whose remaining fields are that effect's
/// parameters. An unrecognized discriminator fails as an unknown effect
/// kind; a structural violation fails as a malformed document, naming the
/// offending place.
pub open spec fn parse_effect(v: JVal, path: Seq<char>) -> Result<MapEffectV, ErrorV> {
    match v {
        JVal::Obj(entries) => match obj_get(entries, kw_kind()) {
            Some(JVal::Str(k)) => if k == kind_filter_keys() {
                match parse_list_param(entries, kw_included(), path) {
                    Ok(included) => match parse_list_param(entries, kw_excluded(), path) {
                        Ok(excluded) => Ok(MapEffectV::FilterKeys { included, excluded }),
                        Err(e) => Err(e),
                    },
                    Err(e) => Err(e),
                }
            } else if k == kind_truthy_filter() {
                match parse_invert_param(entries, path) {
                    Ok(invert) => Ok(MapEffectV::TruthyFilter { invert }),
                    Err(e) => Err(e),
                }
            } else if k == kind_object_keys() {
                Ok(MapEffectV::ObjectKeys)
            } else if k == kind_truthy_keys() {
                match parse_list_param(entries, kw_include_fields(), path) {
                    Ok(include_fields) => match parse_list_param(
                        entries,
                        kw_exclude_fields(),
                        path,
                    ) {
                        Ok(exclude_fields) => Ok(
                            MapEffectV::TruthyKeys { include_fields, exclude_fields },
                        ),
                        Err(e) => Err(e),
                    },
                    Err(e) => Err(e),
                }
            } else if k == kind_round() {
                match parse_decimals_param(entries, path) {
                    Ok(decimals) => Ok(MapEffectV::Round { decimals }),
                    Err(e) => Err(e),
                }
            } else if k == kind_floor() {
                match parse_decimals_param(entries, path) {
                    Ok(decimals) => Ok(MapEffectV::Floor { decimals }),
                    Err(e) => Err(e),
                }
            } else if k == kind_ceil() {
                match parse_decimals_param(entries, path) {
                    Ok(decimals) => Ok(MapEffectV::Ceil { decimals }),
                    Err(e) => Err(e),
                }
            } else {
                Err(ErrorV::UnknownEffectKind { path: field_path(path, kw_kind()), kind: k })
            },
            Some(_) => Err(ErrorV::MalformedDocument { path: field_path(path, kw_kind()) }),
            None => Err(ErrorV::MalformedDocument { path: field_path(path, kw_kind()) }),
        },
        _ => Err(ErrorV::MalformedDocument { path }),
    }
}

/// The parsed effect chain of one column, each entry located at its index
/// under the column's `effects` field.
pub open spec fn parse_effects(items: Seq<JVal>, i: int, path: Seq<char>) -> Result<
    Seq<MapEffectV>,
    ErrorV,
>
    decreases items.len() - i,
{
    if i >= items.len() {
        Ok(Seq::empty())
    } else {
        match parse_effect(items[i], index_path(path, i)) {
            Ok(e) => match parse_effects(items, i + 1, path) {
                Ok(rest) => Ok(seq![e] + rest),
                Err(err) => Err(err),
            },
            Err(err) => Err(err),
        }
    }
}

/// One parsed column value at key `path`: a string is a bare pointer; an
/// object must carry a string `pointer` and may carry an `effects` array
/// (absent means none); anything else is malformed.
pub open spec fn parse_mapper(v: JVal, path: Seq<char>) -> Result<FieldMapperV, ErrorV> {
    match v {
        JVal::Str(p) => Ok(FieldMapperV::PathPointer(p)),
        JVal::Obj(entries) => match obj_get(entries, kw_pointer()) {
            Some(JVal::Str(p)) => match obj_get(entries, kw_effects()) {
                None => Ok(FieldMapperV::WithEffects { pointer: p, effects: Seq::empty() }),
                Some(JVal::Arr(items)) => match parse_effects(
                    items,
                    0,
                    field_path(path, kw_effects()),
                ) {
                    Ok(effects) => Ok(FieldMapperV::WithEffects { pointer: p, effects }),
                    Err(e) => Err(e),
                },
                Some(_) => Err(
                    ErrorV::MalformedDocument { path: field_path(path, kw_effects()) },
                ),
            },
            _ => Err(ErrorV::MalformedDocument { path: field_path(path, kw_pointer()) }),
        },
        _ => Err(ErrorV::MalformedDocument { path }),
    }
}

/// The fold of the mapping document's entries, building the specification in
/// order with stable-position, last-value-wins binding.
pub open spec fn parse_entries(
    entries: Seq<(Seq<char>, JVal)>,
    i: int,
    acc: Seq<(Seq<char>, FieldMapperV)>,
) -> Result<Seq<(Seq<char>, FieldMapperV)>, ErrorV>
    decreases entries.len() - i,
{
    if i >= entries.len() {
        Ok(acc)
    } else {
        match parse_mapper(entries[i].1, entries[i].0) {
            Ok(m) => parse_entries(entries, i + 1, upsert(acc, entries[i].0, m)),
            Err(e) => Err(e),
        }
    }
}

/// What parsing a whole mapping document returns: the document must be an
/// object; each key is a column name, each value a mapper. Parsing is
/// all-or-nothing: the first violation aborts with its error, and no partial
/// specification is returned.
pub open spec fn parse_mapping_spec(doc: JVal) -> Result<Seq<(Seq<char>, FieldMapperV)>, ErrorV> {
    match doc {
        JVal::Obj(entries) => parse_entries(entries, 0, Seq::empty()),
        _ => Err(ErrorV::MalformedDocument { path: Seq::empty() }),
    }
}

/// The mathematical shape of a parse result.
pub open spec fn hm_res_view(r: Result<HeaderMappings, Error>) -> Result<
    Seq<(Seq<char>, FieldMapperV)>,
    ErrorV,
> {
    match r {
        Ok(hm) => Ok(hm@),
        Err(e) => Err(e@),
    }
}

/// The key string `pointer`.
fn kws_pointer() -> (r: String)
    ensures
        r@ == kw_pointer(),
{
    let r = String::from_str("pointer");
    proof {
        reveal_strlit("pointer");
        assert(r@ =~~= kw_pointer());
    }
    r
}

/// The key string `effects`.
fn kws_effects() -> (r: String)
    ensures
        r@ == kw_effects(),
{
    let r = String::from_str("effects");
    proof {
        reveal_strlit("effects");
        assert(r@ =~~= kw_effects());
    }
    r
}

/// The key string `kind`.
fn kws_kind() -> (r: String)
    ensures
        r@ == kw_kind(),
{
    let r = String::from_str("kind");
    proof {
        reveal_strlit("kind");
        assert(r@ =~~= kw_kind());
    }
    r
}

/// The inclusion-list key of `filter_keys`, spelled out by characters.
fn kws_included() -> (r: String)
    ensures
        r@ == kw_included(),
{
    let mut r = String::new();
    push_char(&mut r, 'i');
    push_char(&mut r, 'n');
    push_char(&mut r, 'c');
    push_char(&mut r, 'l');
    push_char(&mut r, 'u');
    push_char(&mut r, 'd');
    push_char(&mut r, 'e');
    proof {
        assert(r@ =~~= kw_included());
    }
    r
}

/// The key string `exclude`.
fn kws_excluded() -> (r: String)
    ensures
        r@ == kw_excluded(),
{
    let r = String::from_str("exclude");
    proof {
        reveal_strlit("exclude");
        assert(r@ =~~= kw_excluded());
    }
    r
}

/// The inclusion-list key of `truthy_keys`, spelled out by characters.
fn kws_include_fields() -> (r: String)
    ensures
        r@ == kw_include_fields(),
{
    let mut r = kws_included();
    push_char(&mut r, '_');
    push_char(&mut r, 'f');
    push_char(&mut r, 'i');
    push_char(&mut r, 'e');
    push_char(&mut r, 'l');
    push_char(&mut r, 'd');
    push_char(&mut r, 's');
    proof {
        assert(r@ =~~= kw_include_fields());
    }
    r
}

/// The key string `exclude_fields`.
fn kws_exclude_fields() -> (r: String)
    ensures
        r@ == kw_exclude_fields(),
{
    let r = String::from_str("exclude_fields");
    proof {
        reveal_strlit("exclude_fields");
        assert(r@ =~~= kw_exclude_fields());
    }
    r
}

/// The key string `invert`.
fn kws_invert() -> (r: String)
    ensures
        r@ == kw_invert(),
{
    let r = String::from_str("invert");
    proof {
        reveal_strlit("invert");
        assert(r@ =~~= kw_invert());
    }
    r
}

/// The key string `decimals`.
fn kws_decimals() -> (r: String)
    ensures
        r@ == kw_decimals(),
{
    let r = String::from_str("decimals");
    proof {
        reveal_strlit("decimals");
        assert(r@ =~~= kw_decimals());
    }
    r
}

/// `path` extended by `.name`.
fn make_field_path(path: &String, name: &String) -> (r: String)
    ensures
        r@ == field_path(path@, name@),
{
    let mut r = path.clone();
    push_char(&mut r, '.');
    r.append(name.as_str());
    proof {
        assert(r@ =~~= field_path(path@, name@));
    }
    r
}

/// `path` extended by `[i]`.
fn make_index_path(path: &String, i: usize) -> (r: String)
    ensures
        r@ == index_path(path@, i as int),
{
    let mut r = path.clone();
    push_char(&mut r, '[');
    push_u64(&mut r, i as u64);
    push_char(&mut r, ']');
    proof {
        assert(r@ =~~= index_path(path@, i as int));
    }
    r
}

/// Parses one string-list parameter value (already found under its key).
#[verifier::loop_isolation(false)]
fn parse_str_list_exec(items: &Vec<Value>, path: &String) -> (r: Result<Vec<String>, Error>)
    ensures
        match r {
            Ok(list) => parse_str_list(elems_view(items@), 0, path@) == Ok::<_, ErrorV>(
                strs_view(list@),
            ),
            Err(e) => parse_str_list(elems_view(items@), 0, path@) == Err::<Seq<Seq<char>>, _>(
                e@,
            ),
        },
{
    let ghost ev = elems_view(items@);
    let mut out: Vec<String> = Vec::new();
    let mut i: usize = 0;
    proof {
        assert(strs_view(out@) =~~= Seq::<Seq<char>>::empty());
    }
    while i < items.len()
        invariant
            i <= items@.len(),
            parse_str_list_rec(ev, 0, path@) == match parse_str_list_rec(ev, i as int, path@) {
                Ok(rest) => Ok::<_, ErrorV>(strs_view(out@) + rest),
                Err(e) => Err(e),
            },
        decreases items@.len() - i,
    {
        proof {
            assert(ev[i as int] == items@[i as int]@);
        }
        match &items[i] {
            Value::Str(s) => {
                let ghost old_out = out@;
                out.push(s.clone());
                proof {
                    match parse_str_list_rec(ev, i as int + 1, path@) {
                        Ok(rest) => {
                            assert(strs_view(out@) + rest =~~= strs_view(old_out) + (seq![s@]
                                + rest));
                        },
                        Err(e) => {},
                    }
                }
            },
            _ => {
                return Err(Error::MalformedDocument { path: make_index_path(path, i) });
            },
        }
        i += 1;
    }
    proof {
        assert(parse_str_list_rec(ev, items@.len() as int, path@) == Ok::<_, ErrorV>(
            Seq::<Seq<char>>::empty(),
        ));
        assert(strs_view(out@) + Seq::<Seq<char>>::empty() =~~= strs_view(out@));
    }
    Ok(out)
}

/// Parses one string-list parameter of an effect entry.
fn parse_list_param_exec(entries: &Vec<(String, Value)>, name: &String, path: &String) -> (r:
    Result<Vec<String>, Error>)
    ensures
        match r {
            Ok(list) => parse_list_param(entries_view(entries@), name@, path@) == Ok::<
                _,
                ErrorV,
            >(strs_view(list@)),
            Err(e) => parse_list_param(entries_view(entries@), name@, path@) == Err::<
                Seq<Seq<char>>,
                _,
            >(e@),
        },
{
    match obj_find(entries, name) {
        None => {
            let empty: Vec<String> = Vec::new();
            proof {
                assert(strs_view(empty@) =~~= Seq::<Seq<char>>::empty());
            }
            Ok(empty)
        },
        Some(v) => match v {
            Value::Arr(items) => {
                let sub = make_field_path(path, name);
                parse_str_list_exec(items, &sub)
            },
            _ => Err(Error::MalformedDocument { path: make_field_path(path, name) }),
        },
    }
}

/// Parses the `invert` flag of an effect entry.
fn parse_invert_param_exec(entries: &Vec<(String, Value)>, path: &String) -> (r: Result<
    bool,
    Error,
>)
    ensures
        match r {
            Ok(b) => parse_invert_param(entries_view(entries@), path@) == Ok::<_, ErrorV>(b),
            Err(e) => parse_invert_param(entries_view(entries@), path@) == Err::<bool, _>(e@),
        },
{
    let name = kws_invert();
    match obj_find(entries, &name) {
        None => Ok(false),
        Some(v) => match v {
            Value::Bool(b) => Ok(*b),
            _ => Err(Error::MalformedDocument { path: make_field_path(path, &name) }),
        },
    }
}

/// Parses the required `decimals` count of a rounding effect entry.
fn parse_decimals_param_exec(entries: &Vec<(String, Value)>, path: &String) -> (r: Result<
    u32,
    Error,
>)
    ensures
        match r {
            Ok(d) => parse_decimals_param(entries_view(entries@), path@) == Ok::<_, ErrorV>(d),
            Err(e) => parse_decimals_param(entries_view(entries@), path@) == Err::<u32, _>(e@),
        },
{
    let name = kws_decimals();
    match obj_find(entries, &name) {
        Some(v) => match v {
            Value::Num(Number::UInt(u)) => {
                if *u <= 4294967295u64 {
                    Ok(*u as u32)
                } else {
                    Err(Error::MalformedDocument { path: make_field_path(path, &name) })
                }
            },
            Value::Num(Number::Int(i)) => {
                if 0 <= *i && *i <= 4294967295i64 {
                    Ok(*i as u32)
                } else {
                    Err(Error::MalformedDocument { path: make_field_path(path, &name) })
                }
            },
            _ => Err(Error::MalformedDocument { path: make_field_path(path, &name) }),
        },
        None => Err(Error::MalformedDocument { path: make_field_path(path, &name) }),
    }
}

/// Parses one effect entry.
fn parse_effect_exec(v: &Value, path: &String) -> (r: Result<MapEffect, Error>)
    ensures
        match r {
            Ok(e) => parse_effect(v@, path@) == Ok::<_, ErrorV>(e@),
            Err(e) => parse_effect(v@, path@) == Err::<MapEffectV, _>(e@),
        },
{
    match v {
        Value::Obj(entries) => {
            let kindkey = kws_kind();
            match obj_find(entries, &kindkey) {
                Some(kv) => match kv {
                    Value::Str(k) => {
                        proof {
                            reveal_strlit("filter_keys");
                            reveal_strlit("truthy_filter");
                            reveal_strlit("object_keys");
                            reveal_strlit("truthy_keys");
                            reveal_strlit("round");
                            reveal_strlit("floor");
                            reveal_strlit("ceil");
                            assert("filter_keys"@ =~~= kind_filter_keys());
                            assert("truthy_filter"@ =~~= kind_truthy_filter());
                            assert("object_keys"@ =~~= kind_object_keys());
                            assert("truthy_keys"@ =~~= kind_truthy_keys());
                            assert("round"@ =~~= kind_round());
                            assert("floor"@ =~~= kind_floor());
                            assert("ceil"@ =~~= kind_ceil());
                        }
                        if str_eq(k.as_str(), "filter_keys") {
                            let inck = kws_included();
                            let exck = kws_excluded();
                            match parse_list_param_exec(entries, &inck, path) {
                                Ok(included) => match parse_list_param_exec(entries, &exck, path) {
                                    Ok(excluded) => Ok(
                                        MapEffect::FilterKeys(
                                            FilterKeysEffect { included, excluded },
                                        ),
                                    ),
                                    Err(e) => Err(e),
                                },
                                Err(e) => Err(e),
                            }
                        } else if str_eq(k.as_str(), "truthy_filter") {
                            match parse_invert_param_exec(entries, path) {
                                Ok(invert) => Ok(
                                    MapEffect::TruthyFilter(TruthyFilterEffect { invert }),
                                ),
                                Err(e) => Err(e),
                            }
                        } else if str_eq(k.as_str(), "object_keys") {
                            Ok(MapEffect::ObjectKeys(ObjectKeysEffect))
                        } else if str_eq(k.as_str(), "truthy_keys") {
                            let inck = kws_include_fields();
                            let exck = kws_exclude_fields();
                            match parse_list_param_exec(entries, &inck, path) {
                                Ok(include_fields) => match parse_list_param_exec(
                                    entries,
                                    &exck,
                                    path,
                                ) {
                                    Ok(exclude_fields) => Ok(
                                        MapEffect::TruthyKeys(
                                            TruthyKeys { include_fields, exclude_fields },
                                        ),
                                    ),
                                    Err(e) => Err(e),
                                },
                                Err(e) => Err(e),
                            }
                        } else if str_eq(k.as_str(), "round") {
                            match parse_decimals_param_exec(entries, path) {
                                Ok(decimals) => Ok(MapEffect::Round(RoundEffect { decimals })),
                                Err(e) => Err(e),
                            }
                        } else if str_eq(k.as_str(), "floor") {
                            match parse_decimals_param_exec(entries, path) {
                                Ok(decimals) => Ok(MapEffect::Floor(FloorEffect { decimals })),
                                Err(e) => Err(e),
                            }
                        } else if str_eq(k.as_str(), "ceil") {
                            match parse_decimals_param_exec(entries, path) {
                                Ok(decimals) => Ok(MapEffect::Ceil(CeilEffect { decimals })),
                                Err(e) => Err(e),
                            }
                        } else {
                            Err(
                                Error::UnknownEffectKind {
                                    path: make_field_path(path, &kindkey),
                                    kind: k.clone(),
                                },
                            )
                        }
                    },
                    _ => Err(Error::MalformedDocument { path: make_field_path(path, &kindkey) }),
                },
                None => Err(Error::MalformedDocument { path: make_field_path(path, &kindkey) }),
            }
        },
        _ => Err(Error::MalformedDocument { path: path.clone() }),
    }
}

/// Parses the effect chain under one column's `effects` field.
#[verifier::loop_isolation(false)]
fn parse_effects_exec(items: &Vec<Value>, path: &String) -> (r: Result<Vec<MapEffect>, Error>)
    ensures
        match r {
            Ok(list) => parse_effects(elems_view(items@), 0, path@) == Ok::<_, ErrorV>(
                effects_view(list@),
            ),
            Err(e) => parse_effects(elems_view(items@), 0, path@) == Err::<Seq<MapEffectV>, _>(
                e@,
            ),
        },
{
    let ghost ev = elems_view(items@);
    let mut out: Vec<MapEffect> = Vec::new();
    let mut i: usize = 0;
    proof {
        assert(effects_view(out@) =~~= Seq::<MapEffectV>::empty());
    }
    while i < items.len()
        invariant
            i <= items@.len(),
            parse_effects(ev, 0, path@) == match parse_effects(ev, i as int, path@) {
                Ok(rest) => Ok::<_, ErrorV>(effects_view(out@) + rest),
                Err(e) => Err(e),
            },
        decreases items@.len() - i,
    {
        proof {
            assert(ev[i as int] == items@[i as int]@);
        }
        let sub = make_index_path(path, i);
        match parse_effect_exec(&items[i], &sub) {
            Ok(e) => {
                let ghost old_out = out@;
                let ghost evv = e@;
                out.push(e);
                proof {
                    match parse_effects(ev, i as int + 1, path@) {
                        Ok(rest) => {
                            assert(effects_view(out@) + rest =~~= effects_view(old_out) + (
                            seq![evv] + rest));
                        },
                        Err(err) => {},
                    }
                }
            },
            Err(e) => {
                return Err(e);
            },
        }
        i += 1;
    }
    proof {
        assert(parse_effects(ev, items@.len() as int, path@) == Ok::<_, ErrorV>(
            Seq::<MapEffectV>::empty(),
        ));
        assert(effects_view(out@) + Seq::<MapEffectV>::empty() =~~= effects_view(out@));
    }
    Ok(out)
}

/// Parses one column's mapper.
fn parse_mapper_exec(v: &Value, path: &String) -> (r: Result<FieldMapper, Error>)
    ensures
        match r {
            Ok(m) => parse_mapper(v@, path@) == Ok::<_, ErrorV>(m@),
            Err(e) => parse_mapper(v@, path@) == Err::<FieldMapperV, _>(e@),
        },
{
    match v {
        Value::Str(p) => Ok(FieldMapper::PathPointer(p.clone())),
        Value::Obj(entries) => {
            let ptrkey = kws_pointer();
            match obj_find(entries, &ptrkey) {
                Some(pv) => match pv {
                    Value::Str(p) => {
                        let effkey = kws_effects();
                        match obj_find(entries, &effkey) {
                            None => {
                                let r = FieldMapper::WithEffects {
                                    pointer: p.clone(),
                                    effects: Vec::new(),
                                };
                                proof {
                                    assert(r@ matches FieldMapperV::WithEffects { effects, .. }
                                        ==> effects =~~= Seq::<MapEffectV>::empty());
                                }
                                Ok(r)
                            },
                            Some(evv) => match evv {
                                Value::Arr(items) => {
                                    let sub = make_field_path(path, &effkey);
                                    match parse_effects_exec(items, &sub) {
                                        Ok(effects) => Ok(
                                            FieldMapper::WithEffects {
                                                pointer: p.clone(),
                                                effects,
                                            },
                                        ),
                                        Err(e) => Err(e),
                                    }
                                },
                                _ => Err(
                                    Error::MalformedDocument {
                                        path: make_field_path(path, &effkey),
                                    },
                                ),
                            },
                        }
                    },
                    _ => Err(Error::MalformedDocument { path: make_field_path(path, &ptrkey) }),
                },
                None => Err(Error::MalformedDocument { path: make_field_path(path, &ptrkey) }),
            }
        },
        _ => Err(Error::MalformedDocument { path: path.clone() }),
    }
}

/// Binds one parsed column into the specification being built.
#[verifier::loop_isolation(false)]
fn upsert_entry(entries: &mut Vec<(String, FieldMapper)>, key: String, m: FieldMapper)
    ensures
        hm_view(final(entries)@) == upsert(hm_view(old(entries)@), key@, m@),
{
    let ghost hv = hm_view(entries@);
    let mut j: usize = 0;
    proof {
        assert(hv.skip(0) =~~= hv);
        assert(key_index(hv, key@) == 0 + key_index(hv.skip(0), key@));
    }
    while j < entries.len()
        invariant
            j <= entries@.len(),
            hv == hm_view(entries@),
            key_index(hv, key@) == j + key_index(hv.skip(j as int), key@),
        decreases entries@.len() - j,
    {
        proof {
            assert(hv.skip(j as int)[0] == hv[j as int]);
            assert(hv[j as int] == (entries@[j as int].0@, entries@[j as int].1@));
        }
        if entries[j].0.eq(&key) {
            proof {
                assert(key_index(hv.skip(j as int), key@) == 0);
                assert(key_index(hv, key@) == j);
            }
            let ghost mv = m@;
            let ghost kv = key@;
            entries.set(j, (key, m));
            proof {
                assert(hm_view(entries@) =~~= hv.update(j as int, (kv, mv)));
            }
            return ;
        }
        proof {
            assert(hv[j as int].0 != key@);
            assert(hv.skip(j as int).skip(1) =~~= hv.skip(j as int + 1));
        }
        j += 1;
    }
    proof {
        assert(hv.skip(entries@.len() as int) =~~= Seq::<(Seq<char>, FieldMapperV)>::empty());
        assert(key_index(hv, key@) == hv.len());
    }
    let ghost mv = m@;
    let ghost kv = key@;
    entries.push((key, m));
    proof {
        assert(hm_view(entries@) =~~= hv.push((kv, mv)));
    }
}

/// Parses a whole mapping document into the ordered specification. Each key
/// of the document object is an output column name; each value is that
/// column's mapper. Parsing is all-or-nothing: the first violation aborts
/// with an error naming its exact place, and no partial specification comes
/// back. A repeated column name keeps its first position and takes the later
/// mapper.
#[verifier::loop_isolation(false)]
pub fn parse_mapping(doc: &Value) -> (r: Result<HeaderMappings, Error>)
    ensures
        hm_res_view(r) == parse_mapping_spec(doc@),
{
    match doc {
        Value::Obj(entries) => {
            let ghost ev = entries_view(entries@);
            let mut out: Vec<(String, FieldMapper)> = Vec::new();
            let mut i: usize = 0;
            proof {
                assert(hm_view(out@) =~~= Seq::<(Seq<char>, FieldMapperV)>::empty());
            }
            while i < entries.len()
                invariant
                    i <= entries@.len(),
                    parse_entries(ev, 0, Seq::empty()) == parse_entries(
                        ev,
                        i as int,
                        hm_view(out@),
                    ),
                decreases entries@.len() - i,
            {
                proof {
                    assert(ev[i as int] == (entries@[i as int].0@, entries@[i as int].1@));
                }
                match parse_mapper_exec(&entries[i].1, &entries[i].0) {
                    Ok(m) => {
                        upsert_entry(&mut out, entries[i].0.clone(), m);
                    },
                    Err(e) => {
                        return Err(e);
                    },
                }
                i += 1;
            }
            Ok(HeaderMappings { entries: out })
        },
        _ => Err(Error::MalformedDocument { path: String::new() }),
    }
}

/// Effect chain order matters: `round` first, then `object_keys`, applied to
/// any number, succeeds at the rounding step and then fails at the
/// `object_keys` step with a shape mismatch that expected an object and saw
/// a number — an earlier step's success is never retroactively invalidated.
pub proof fn lemma_chain_order_round_then_object_keys(n: Number, decimals: u32)
    ensures
        apply_chain(
            seq![
                MapEffectV::Round { decimals },
                MapEffectV::ObjectKeys,
            ],
            JVal::Num(n),
        ) == Err::<JVal, ErrorV>(
            ErrorV::TypeMismatch {
                expected: crate::errors::ExpectedShape::Object,
                actual: crate::value::ValueKind::Number,
            },
        ),
{
    reveal_with_fuel(apply_chain, 4);
    let effs = seq![MapEffectV::Round { decimals }, MapEffectV::ObjectKeys];
    let rounded = crate::numbers::round_spec(crate::numbers::RoundMode::Nearest, decimals, n);
    assert(apply_effect(effs[0], JVal::Num(n)) == Ok::<JVal, ErrorV>(JVal::Num(rounded)));
    assert(effs.skip(1) =~~= seq![MapEffectV::ObjectKeys]);
    assert(effs.skip(1).skip(1) =~~= Seq::<MapEffectV>::empty());
    assert(apply_effect(MapEffectV::ObjectKeys, JVal::Num(rounded)) == Err::<JVal, ErrorV>(
        ErrorV::TypeMismatch {
            expected: crate::errors::ExpectedShape::Object,
            actual: crate::value::ValueKind::Number,
        },
    ));
}

} // verus!
