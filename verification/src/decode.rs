//! The decoder: one forward pass over the text, driven by the
//! descriptor, that builds the value through the dispatch tables.

use vstd::prelude::*;
use crate::descriptor::{
    CEnum,
    Field,
    HMType,
    HSType,
    OptionType,
    RustEnum,
    RustEnumVariant,
    Struct,
    Type,
    VariantView,
    VecType,
    cenum_variant_views,
    field_views,
    lemma_field_views,
    lemma_variant_field_views,
    lemma_variant_views,
    variant_field_views,
    variant_views,
};
use crate::error::{DecodeError, ReflectError};
use crate::json_parse::{
    find_variant,
    has_discriminant,
    parse_entry,
    parse_fields,
    parse_map_entries,
    parse_seq_items,
    parse_set_items,
    parse_value,
};
use crate::json_text::{key_name, value_name, variant_key};
use crate::parser::{JsonWalker, peek};
use crate::table::TableKind;
use crate::value::{
    SeqStore,
    Value,
    ValueView,
    lemma_pair_views,
    lemma_value_views,
    pair_views,
    value_views,
};

verus! {

/// Whether a decoder's result and the cursor after it are what reading gives.
pub open spec fn decoded(
    r: Result<Value, DecodeError>,
    pos: usize,
    expected: Result<(ValueView, int), DecodeError>,
) -> bool {
    match expected {
        Ok((v, p)) => r is Ok && r->Ok_0@ == v && pos == p,
        Err(e) => r == Err::<Value, DecodeError>(e),
    }
}

/// Whether a list decoder's result and the cursor after it are what reading gives.
pub open spec fn decoded_list(
    r: Result<Vec<Value>, DecodeError>,
    pos: usize,
    expected: Result<(Seq<ValueView>, int), DecodeError>,
) -> bool {
    match expected {
        Ok((v, p)) => r is Ok && value_views(r->Ok_0@, r->Ok_0@.len()) == v && pos == p,
        Err(e) => r == Err::<Vec<Value>, DecodeError>(e),
    }
}

/// The slots that are reserved once `n` elements of a sequence are read:
/// four at the start, and eight more whenever an element finds the
/// storage full.
pub open spec fn grown_capacity(n: nat) -> nat
    decreases n,
{
    if n == 0 {
        4
    } else {
        let before = grown_capacity((n - 1) as nat);
        if n - 1 == before {
            before + 8
        } else {
            before
        }
    }
}

/// Whether a decoded sequence has the storage that reading it grows: all
/// written slots count as elements, and the reserved slots are as grown.
pub open spec fn grown(r: Result<Value, DecodeError>) -> bool {
    r matches Ok(Value::Vec(store)) ==> store.len == store.items@.len() && store.cap
        == grown_capacity(store.items@.len())
}

/// The decoding failure that stands for a failure of a dispatch table.
pub fn table_failure(e: ReflectError) -> (d: DecodeError)
    ensures
        e == ReflectError::NotSupported ==> d == DecodeError::NotSupported,
        e == ReflectError::OutOfBounds ==> d == DecodeError::OutOfRange,
        e == ReflectError::Mismatch ==> d == DecodeError::Malformed,
{
    match e {
        ReflectError::NotSupported => DecodeError::NotSupported,
        ReflectError::OutOfBounds => DecodeError::OutOfRange,
        ReflectError::Mismatch => DecodeError::Malformed,
    }
}

/// The model of a list extended by one value is the list's model extended
/// by the value's model.
pub proof fn lemma_value_views_push(items: Seq<Value>, v: Value)
    ensures
        value_views(items.push(v), items.len() + 1) == value_views(items, items.len()).push(v@),
{
    lemma_value_views(items, items.len());
    lemma_value_views(items.push(v), items.len() + 1);
    assert(value_views(items.push(v), items.len() + 1) =~= value_views(items, items.len()).push(
        v@,
    ));
}

/// Reads the fields of a struct, in declaration order.
#[verifier::loop_isolation(false)]
fn decode_fields(walker: &mut JsonWalker, fields: &Vec<Field>) -> (r: Result<
    Vec<Value>,
    DecodeError,
>)
    requires
        old(walker).wf(),
    ensures
        final(walker).wf(),
        final(walker).chars == old(walker).chars,
        decoded_list(
            r,
            final(walker).pos,
            parse_fields(
                old(walker).chars@,
                old(walker).pos as int,
                field_views(fields@, fields@.len()),
                0,
                Seq::empty(),
            ),
        ),
    decreases fields,
{
    let ghost text = walker.chars@;
    let ghost fv = field_views(fields@, fields@.len());
    let ghost goal = parse_fields(text, walker.pos as int, fv, 0, Seq::empty());
    let mut vals: Vec<Value> = Vec::new();
    proof {
        lemma_field_views(fields@, fields@.len());
        lemma_value_views(vals@, 0);
        assert(value_views(vals@, 0) =~= Seq::<ValueView>::empty());
    }
    let mut i: usize = 0;
    while i < fields.len()
        invariant
            i <= fields.len(),
            walker.wf(),
            walker.chars@ == text,
            walker.chars == old(walker).chars,
            vals@.len() == i,
            goal == parse_fields(
                text,
                walker.pos as int,
                fv,
                i as nat,
                value_views(vals@, vals@.len()),
            ),
        decreases fields.len() - i,
    {
        proof {
            assert(fv[i as int] == fields@[i as int]@);
        }
        match walker.consume_field(fields[i].name.as_str()) {
            Err(e) => {
                return Err(e);
            },
            Ok(()) => {},
        }
        let v: Value = match deserialize_field(walker, &fields[i].ty) {
            Err(e) => {
                return Err(e);
            },
            Ok(v) => v,
        };
        match walker.consume_maybe(',') {
            Err(e) => {
                return Err(e);
            },
            Ok(()) => {},
        }
        proof {
            lemma_value_views_push(vals@, v);
        }
        vals.push(v);
        i += 1;
    }
    Ok(vals)
}

/// Reads the fields of a tagged union's variant, in declaration order.
#[verifier::loop_isolation(false)]
fn decode_variant_fields(walker: &mut JsonWalker, fields: &Vec<(String, Type)>) -> (r: Result<
    Vec<Value>,
    DecodeError,
>)
    requires
        old(walker).wf(),
    ensures
        final(walker).wf(),
        final(walker).chars == old(walker).chars,
        decoded_list(
            r,
            final(walker).pos,
            parse_fields(
                old(walker).chars@,
                old(walker).pos as int,
                variant_field_views(fields@, fields@.len()),
                0,
                Seq::empty(),
            ),
        ),
    decreases fields,
{
    let ghost text = walker.chars@;
    let ghost fv = variant_field_views(fields@, fields@.len());
    let ghost goal = parse_fields(text, walker.pos as int, fv, 0, Seq::empty());
    let mut vals: Vec<Value> = Vec::new();
    proof {
        lemma_variant_field_views(fields@, fields@.len());
        lemma_value_views(vals@, 0);
        assert(value_views(vals@, 0) =~= Seq::<ValueView>::empty());
    }
    let mut i: usize = 0;
    while i < fields.len()
        invariant
            i <= fields.len(),
            walker.wf(),
            walker.chars@ == text,
            walker.chars == old(walker).chars,
            vals@.len() == i,
            goal == parse_fields(
                text,
                walker.pos as int,
                fv,
                i as nat,
                value_views(vals@, vals@.len()),
            ),
        decreases fields.len() - i,
    {
        proof {
            assert(fv[i as int].name == fields@[i as int].0@);
            assert(fv[i as int].ty == fields@[i as int].1@);
        }
        match walker.consume_field(fields[i].0.as_str()) {
            Err(e) => {
                return Err(e);
            },
            Ok(()) => {},
        }
        let v: Value = match deserialize_field(walker, &fields[i].1) {
            Err(e) => {
                return Err(e);
            },
            Ok(v) => v,
        };
        match walker.consume_maybe(',') {
            Err(e) => {
                return Err(e);
            },
            Ok(()) => {},
        }
        proof {
            lemma_value_views_push(vals@, v);
        }
        vals.push(v);
        i += 1;
    }
    Ok(vals)
}

/// Reads a struct: its fields between braces, each under its name and in
/// declaration order.
pub fn deserialize_struct(walker: &mut JsonWalker, mirror: &Struct) -> (r: Result<
    Value,
    DecodeError,
>)
    requires
        old(walker).wf(),
    ensures
        final(walker).wf(),
        final(walker).chars == old(walker).chars,
        decoded(r, final(walker).pos, parse_value(old(walker).chars@, old(walker).pos as int, mirror@)),
    decreases mirror,
{
    match walker.consume_char('{') {
        Err(e) => {
            return Err(e);
        },
        Ok(()) => {},
    }
    let vals: Vec<Value> = match decode_fields(walker, &mirror.fields) {
        Err(e) => {
            return Err(e);
        },
        Ok(vals) => vals,
    };
    match walker.consume_char('}') {
        Err(e) => {
            return Err(e);
        },
        Ok(()) => {},
    }
    Ok(Value::Struct(vals))
}

/// Where the scan for a variant's name ends: at a variant with that name
/// and past none, or at the end.
pub proof fn lemma_find_variant(variants: Seq<VariantView>, name: Seq<char>, from: int)
    requires
        0 <= from <= variants.len(),
    ensures
        from <= find_variant(variants, name, from) <= variants.len(),
        find_variant(variants, name, from) < variants.len() ==> variants[find_variant(
            variants,
            name,
            from,
        )].name == name,
        forall|j: int|
            from <= j < find_variant(variants, name, from) ==> (#[trigger] variants[j]).name
                != name,
    decreases variants.len() - from,
{
    if from < variants.len() && variants[from].name != name {
        lemma_find_variant(variants, name, from + 1);
    }
}

/// The index of the first variant with the given name.
#[verifier::loop_isolation(false)]
fn variant_index(variants: &Vec<RustEnumVariant>, name: &String) -> (r: Option<usize>)
    ensures
        match r {
            Some(i) => i < variants@.len() && i == find_variant(
                variant_views(variants@, variants@.len()),
                name@,
                0,
            ),
            None => find_variant(variant_views(variants@, variants@.len()), name@, 0)
                == variants@.len(),
        },
{
    let ghost vv = variant_views(variants@, variants@.len());
    proof {
        lemma_variant_views(variants@, variants@.len());
        lemma_find_variant(vv, name@, 0);
    }
    let mut i: usize = 0;
    while i < variants.len()
        invariant
            i <= variants.len(),
            forall|j: int| 0 <= j < i ==> (#[trigger] vv[j]).name != name@,
        decreases variants.len() - i,
    {
        if variants[i].name == *name {
            proof {
                assert(vv[i as int] == variants@[i as int]@);
                let found = find_variant(vv, name@, 0);
                if found < i {
                    assert(vv[found].name == name@);
                }
                if found > i {
                    assert(vv[i as int].name != name@);
                }
            }
            return Some(i);
        }
        proof {
            assert(vv[i as int] == variants@[i as int]@);
        }
        i += 1;
    }
    proof {
        let found = find_variant(vv, name@, 0);
        if found < vv.len() {
            assert(vv[found].name == name@);
        }
    }
    None
}

/// Whether a plain enumeration declares a discriminant.
#[verifier::loop_isolation(false)]
fn discriminant_test(variants: &Vec<(i32, String)>, d: i32) -> (b: bool)
    ensures
        b == has_discriminant(cenum_variant_views(variants@), d as int),
{
    let ghost vv = cenum_variant_views(variants@);
    let mut i: usize = 0;
    while i < variants.len()
        invariant
            i <= variants.len(),
            forall|j: int| 0 <= j < i ==> (#[trigger] vv[j]).0 != d,
        decreases variants.len() - i,
    {
        if variants[i].0 == d {
            assert(vv[i as int].0 == d);
            return true;
        }
        assert(vv[i as int].0 != d);
        i += 1;
    }
    false
}

/// Reads a plain enumeration: a discriminant that the descriptor declares.
fn decode_cenum(walker: &mut JsonWalker, e: &CEnum) -> (r: Result<Value, DecodeError>)
    requires
        old(walker).wf(),
    ensures
        final(walker).wf(),
        final(walker).chars == old(walker).chars,
        decoded(
            r,
            final(walker).pos,
            parse_value(old(walker).chars@, old(walker).pos as int, Type::CEnum(*e)@),
        ),
{
    match walker.consume_int(true, i32::MIN as i128, i32::MAX as i128) {
        Err(e) => Err(e),
        Ok(v) => {
            let d: i32 = v as i32;
            if discriminant_test(&e.variants, d) {
                Ok(Value::CEnum(d))
            } else {
                Err(DecodeError::UnknownVariant)
            }
        },
    }
}

/// Reads a tagged union: the variant's name under the reserved key, looked
/// up among the declared variants, and the variant's fields.
fn decode_enum(walker: &mut JsonWalker, e: &RustEnum) -> (r: Result<Value, DecodeError>)
    requires
        old(walker).wf(),
    ensures
        final(walker).wf(),
        final(walker).chars == old(walker).chars,
        decoded(
            r,
            final(walker).pos,
            parse_value(old(walker).chars@, old(walker).pos as int, Type::RustEnum(*e)@),
        ),
    decreases e,
{
    proof {
        lemma_variant_views(e.variants@, e.variants@.len());
    }
    match walker.consume_char('{') {
        Err(e) => {
            return Err(e);
        },
        Ok(()) => {},
    }
    proof {
        reveal_strlit("__enum_variant");
        assert("__enum_variant"@ =~= variant_key());
    }
    match walker.consume_field("__enum_variant") {
        Err(e) => {
            return Err(e);
        },
        Ok(()) => {},
    }
    let name: String = match walker.consume_string() {
        Err(e) => {
            return Err(e);
        },
        Ok(name) => name,
    };
    let idx: usize = match variant_index(&e.variants, &name) {
        None => {
            return Err(DecodeError::UnknownVariant);
        },
        Some(idx) => idx,
    };
    match walker.consume_maybe(',') {
        Err(e) => {
            return Err(e);
        },
        Ok(()) => {},
    }
    let vals: Vec<Value> = match decode_variant_fields(walker, &e.variants[idx].fields) {
        Err(e) => {
            return Err(e);
        },
        Ok(vals) => vals,
    };
    match walker.consume_char('}') {
        Err(e) => {
            return Err(e);
        },
        Ok(()) => {},
    }
    Ok(Value::RustEnum(idx, vals))
}

/// Reads a sequence. The storage starts with four reserved slots and
/// gets eight more whenever it is full; the length is set once all
/// elements are read.
#[verifier::loop_isolation(false)]
fn decode_vec(walker: &mut JsonWalker, t: &VecType) -> (r: Result<Value, DecodeError>)
    requires
        old(walker).wf(),
    ensures
        final(walker).wf(),
        final(walker).chars == old(walker).chars,
        decoded(
            r,
            final(walker).pos,
            parse_value(old(walker).chars@, old(walker).pos as int, Type::Vec(*t)@),
        ),
        grown(r),
    decreases t,
{
    let ghost text = walker.chars@;
    let ghost cty = Type::Vec(*t)@;
    match walker.consume_char('[') {
        Err(e) => {
            return Err(e);
        },
        Ok(()) => {},
    }
    let ghost goal = parse_seq_items(text, walker.pos as int, cty, Seq::empty());
    let mut cap: usize = 4;
    let mut store: SeqStore = t.vtable.new_at(cap);
    let mut len: usize = 0;
    proof {
        lemma_value_views(store.items@, 0);
        assert(value_views(store.items@, 0) =~= Seq::<ValueView>::empty());
    }
    let mut done: bool = false;
    while !done
        invariant
            walker.wf(),
            walker.chars@ == text,
            walker.chars == old(walker).chars,
            store.items@.len() == len,
            store.len == 0,
            store.cap == cap,
            len <= cap,
            cap >= 4,
            cap == grown_capacity(len as nat),
            len > 0 ==> t.vtable.kind == TableKind::Live,
            !done ==> goal == parse_seq_items(
                text,
                walker.pos as int,
                cty,
                value_views(store.items@, store.items@.len()),
            ),
            done ==> goal == Ok::<(Seq<ValueView>, int), DecodeError>(
                (value_views(store.items@, store.items@.len()), walker.pos as int),
            ) && walker.pos < text.len() && text[walker.pos as int] == ']',
        decreases
                walker.chars.len() - walker.pos + (if done {
                    0int
                } else {
                    1int
                }),
    {
        proof {
            lemma_value_views(store.items@, store.items@.len());
        }
        let start: usize = walker.pos;
        let c: char = match peek(walker) {
            Err(e) => {
                return Err(e);
            },
            Ok(c) => c,
        };
        if c == ']' {
            done = true;
        } else {
            if len > 0 {
                match walker.consume_char(',') {
                    Err(e) => {
                        return Err(e);
                    },
                    Ok(()) => {},
                }
            }
            if len > usize::MAX - 8 {
                return Err(DecodeError::OutOfRange);
            }
            if len == cap {
                cap = len + 8;
                match t.vtable.reserve(&mut store, cap) {
                    Err(e) => {
                        return Err(table_failure(e));
                    },
                    Ok(()) => {},
                }
            }
            let v: Value = match deserialize_field(walker, &t.element) {
                Err(e) => {
                    return Err(e);
                },
                Ok(v) => v,
            };
            proof {
                lemma_value_views_push(store.items@, v);
            }
            match t.vtable.write_at(&mut store, len, v) {
                Err(e) => {
                    return Err(table_failure(e));
                },
                Ok(()) => {},
            }
            if walker.pos <= start {
                return Err(DecodeError::Malformed);
            }
            len = len + 1;
        }
    }
    if len > 0 {
        match t.vtable.set_len(&mut store, len) {
            Err(e) => {
                return Err(table_failure(e));
            },
            Ok(()) => {},
        }
    }
    match walker.consume_char(']') {
        Err(e) => {
            return Err(e);
        },
        Ok(()) => {},
    }
    Ok(Value::Vec(store))
}

/// Reads a set: every element is read into a value of its own and
/// handed over to the set.
#[verifier::loop_isolation(false)]
fn decode_set(walker: &mut JsonWalker, t: &HSType) -> (r: Result<Value, DecodeError>)
    requires
        old(walker).wf(),
    ensures
        final(walker).wf(),
        final(walker).chars == old(walker).chars,
        decoded(
            r,
            final(walker).pos,
            parse_value(old(walker).chars@, old(walker).pos as int, Type::HashSet(*t)@),
        ),
    decreases t,
{
    let ghost text = walker.chars@;
    let ghost cty = Type::HashSet(*t)@;
    let mut items: Vec<Value> = t.vtable.new_at();
    match walker.consume_char('[') {
        Err(e) => {
            return Err(e);
        },
        Ok(()) => {},
    }
    let ghost goal = parse_set_items(text, walker.pos as int, cty, Seq::empty());
    proof {
        lemma_value_views(items@, 0);
        assert(value_views(items@, 0) =~= Seq::<ValueView>::empty());
    }
    let mut done: bool = false;
    while !done
        invariant
            walker.wf(),
            walker.chars@ == text,
            walker.chars == old(walker).chars,
            !done ==> goal == parse_set_items(
                text,
                walker.pos as int,
                cty,
                value_views(items@, items@.len()),
            ),
            done ==> goal == Ok::<(Seq<ValueView>, int), DecodeError>(
                (value_views(items@, items@.len()), walker.pos as int),
            ) && walker.pos < text.len() && text[walker.pos as int] == ']',
        decreases
                walker.chars.len() - walker.pos + (if done {
                    0int
                } else {
                    1int
                }),
    {
        let start: usize = walker.pos;
        let c: char = match peek(walker) {
            Err(e) => {
                return Err(e);
            },
            Ok(c) => c,
        };
        if c == ']' {
            done = true;
        } else {
            match walker.consume_maybe(',') {
                Err(e) => {
                    return Err(e);
                },
                Ok(()) => {},
            }
            let v: Value = match deserialize_field(walker, &t.element) {
                Err(e) => {
                    return Err(e);
                },
                Ok(v) => v,
            };
            match t.vtable.fill_with(&mut items, v) {
                Err(e) => {
                    return Err(table_failure(e));
                },
                Ok(()) => {},
            }
            if walker.pos <= start {
                return Err(DecodeError::Malformed);
            }
        }
    }
    match walker.consume_char(']') {
        Err(e) => {
            return Err(e);
        },
        Ok(()) => {},
    }
    Ok(Value::HashSet(items))
}

/// Reads one entry of a mapping: a record of its key and its value.
fn decode_entry(walker: &mut JsonWalker, t: &HMType) -> (r: Result<(Value, Value), DecodeError>)
    requires
        old(walker).wf(),
    ensures
        final(walker).wf(),
        final(walker).chars == old(walker).chars,
        match parse_entry(old(walker).chars@, old(walker).pos as int, Type::HashMap(*t)@) {
            Ok((entry, p)) => r is Ok && r->Ok_0.0@ == entry.0 && r->Ok_0.1@ == entry.1
                && final(walker).pos == p,
            Err(e) => r == Err::<(Value, Value), DecodeError>(e),
        },
    decreases t, 0nat,
{
    match walker.consume_char('{') {
        Err(e) => {
            return Err(e);
        },
        Ok(()) => {},
    }
    proof {
        reveal_strlit("key");
        assert("key"@ =~= key_name());
        reveal_strlit("value");
        assert("value"@ =~= value_name());
    }
    match walker.consume_field("key") {
        Err(e) => {
            return Err(e);
        },
        Ok(()) => {},
    }
    let k: Value = match deserialize_field(walker, &t.key) {
        Err(e) => {
            return Err(e);
        },
        Ok(k) => k,
    };
    match walker.consume_char(',') {
        Err(e) => {
            return Err(e);
        },
        Ok(()) => {},
    }
    match walker.consume_field("value") {
        Err(e) => {
            return Err(e);
        },
        Ok(()) => {},
    }
    let v: Value = match deserialize_field(walker, &t.value) {
        Err(e) => {
            return Err(e);
        },
        Ok(v) => v,
    };
    match walker.consume_char('}') {
        Err(e) => {
            return Err(e);
        },
        Ok(()) => {},
    }
    Ok((k, v))
}

/// Reads a mapping: every key and every value is read into a value of
/// its own and handed over to the mapping.
#[verifier::loop_isolation(false)]
fn decode_map(walker: &mut JsonWalker, t: &HMType) -> (r: Result<Value, DecodeError>)
    requires
        old(walker).wf(),
    ensures
        final(walker).wf(),
        final(walker).chars == old(walker).chars,
        decoded(
            r,
            final(walker).pos,
            parse_value(old(walker).chars@, old(walker).pos as int, Type::HashMap(*t)@),
        ),
    decreases t, 1nat,
{
    let ghost text = walker.chars@;
    let ghost cty = Type::HashMap(*t)@;
    let mut entries: Vec<(Value, Value)> = t.vtable.new_at();
    match walker.consume_char('[') {
        Err(e) => {
            return Err(e);
        },
        Ok(()) => {},
    }
    let ghost goal = parse_map_entries(text, walker.pos as int, cty, Seq::empty());
    proof {
        lemma_pair_views(entries@, 0);
        assert(pair_views(entries@, 0) =~= Seq::<(ValueView, ValueView)>::empty());
    }
    let mut done: bool = false;
    while !done
        invariant
            walker.wf(),
            walker.chars@ == text,
            walker.chars == old(walker).chars,
            !done ==> goal == parse_map_entries(
                text,
                walker.pos as int,
                cty,
                pair_views(entries@, entries@.len()),
            ),
            done ==> goal == Ok::<(Seq<(ValueView, ValueView)>, int), DecodeError>(
                (pair_views(entries@, entries@.len()), walker.pos as int),
            ) && walker.pos < text.len() && text[walker.pos as int] == ']',
        decreases
                walker.chars.len() - walker.pos + (if done {
                    0int
                } else {
                    1int
                }),
    {
        let start: usize = walker.pos;
        let c: char = match peek(walker) {
            Err(e) => {
                return Err(e);
            },
            Ok(c) => c,
        };
        if c == ']' {
            done = true;
        } else {
            match walker.consume_maybe(',') {
                Err(e) => {
                    return Err(e);
                },
                Ok(()) => {},
            }
            let entry: (Value, Value) = match decode_entry(walker, t) {
                Err(e) => {
                    return Err(e);
                },
                Ok(entry) => entry,
            };
            match t.vtable.fill_with(&mut entries, entry.0, entry.1) {
                Err(e) => {
                    return Err(table_failure(e));
                },
                Ok(()) => {},
            }
            if walker.pos <= start {
                return Err(DecodeError::Malformed);
            }
        }
    }
    match walker.consume_char(']') {
        Err(e) => {
            return Err(e);
        },
        Ok(()) => {},
    }
    Ok(Value::HashMap(entries))
}

/// Reads an optional value: an empty list, or a list of the one value,
/// which is read into a value of its own and handed over.
fn decode_option(walker: &mut JsonWalker, t: &OptionType) -> (r: Result<Value, DecodeError>)
    requires
        old(walker).wf(),
    ensures
        final(walker).wf(),
        final(walker).chars == old(walker).chars,
        decoded(
            r,
            final(walker).pos,
            parse_value(old(walker).chars@, old(walker).pos as int, Type::Option(*t)@),
        ),
    decreases t,
{
    let mut slot: Option<Box<Value>> = t.vtable.new_at();
    match walker.consume_char('[') {
        Err(e) => {
            return Err(e);
        },
        Ok(()) => {},
    }
    let c: char = match peek(walker) {
        Err(e) => {
            return Err(e);
        },
        Ok(c) => c,
    };
    if c != ']' {
        let v: Value = match deserialize_field(walker, &t.element) {
            Err(e) => {
                return Err(e);
            },
            Ok(v) => v,
        };
        match t.vtable.set(&mut slot, Some(v)) {
            Err(e) => {
                return Err(table_failure(e));
            },
            Ok(()) => {},
        }
    }
    match walker.consume_char(']') {
        Err(e) => {
            return Err(e);
        },
        Ok(()) => {},
    }
    Ok(Value::Option(slot))
}

/// Reads the value of a descriptor at the cursor.
pub fn deserialize_field(walker: &mut JsonWalker, ty: &Type) -> (r: Result<Value, DecodeError>)
    requires
        old(walker).wf(),
    ensures
        final(walker).wf(),
        final(walker).chars == old(walker).chars,
        decoded(r, final(walker).pos, parse_value(old(walker).chars@, old(walker).pos as int, ty@)),
        grown(r),
    decreases ty,
{
    match ty {
        Type::I32 => match walker.consume_int(true, i32::MIN as i128, i32::MAX as i128) {
            Ok(v) => Ok(Value::I32(v as i32)),
            Err(e) => Err(e),
        },
        Type::U32 => match walker.consume_int(false, 0, u32::MAX as i128) {
            Ok(v) => Ok(Value::U32(v as u32)),
            Err(e) => Err(e),
        },
        Type::I64 => match walker.consume_int(true, i64::MIN as i128, i64::MAX as i128) {
            Ok(v) => Ok(Value::I64(v as i64)),
            Err(e) => Err(e),
        },
        Type::U64 => match walker.consume_int(false, 0, u64::MAX as i128) {
            Ok(v) => Ok(Value::U64(v as u64)),
            Err(e) => Err(e),
        },
        Type::ISize => match walker.consume_int(true, isize::MIN as i128, isize::MAX as i128) {
            Ok(v) => Ok(Value::ISize(v as isize)),
            Err(e) => Err(e),
        },
        Type::USize => match walker.consume_int(false, 0, usize::MAX as i128) {
            Ok(v) => Ok(Value::USize(v as usize)),
            Err(e) => Err(e),
        },
        Type::F32 => match walker.consume_float() {
            Ok(t) => Ok(Value::F32(t)),
            Err(e) => Err(e),
        },
        Type::F64 => match walker.consume_float() {
            Ok(t) => Ok(Value::F64(t)),
            Err(e) => Err(e),
        },
        Type::Bool => match walker.consume_bool() {
            Ok(b) => Ok(Value::Bool(b)),
            Err(e) => Err(e),
        },
        Type::String => match walker.consume_string() {
            Ok(s) => Ok(Value::String(s)),
            Err(e) => Err(e),
        },
        Type::Struct(s) => deserialize_struct(walker, s),
        Type::CEnum(e) => decode_cenum(walker, e),
        Type::RustEnum(e) => decode_enum(walker, e),
        Type::Vec(t) => decode_vec(walker, t),
        Type::HashSet(t) => decode_set(walker, t),
        Type::HashMap(t) => decode_map(walker, t),
        Type::Option(t) => decode_option(walker, t),
        Type::Box(t) => match deserialize_field(walker, &t.inner) {
            Ok(v) => Ok(Value::Box(Box::new(v))),
            Err(e) => Err(e),
        },
    }
}

} // verus!
