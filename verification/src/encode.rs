//! The encoder: a depth-first walk over a value and its descriptor that
//! writes the value's text, crossing into containers through their
//! dispatch tables.

use vstd::prelude::*;
use crate::descriptor::{
    Field,
    HMType,
    HSType,
    OptionType,
    RustEnum,
    Struct,
    Type,
    TypeView,
    VecType,
    field_views,
    lemma_field_views,
    lemma_variant_field_views,
    lemma_variant_views,
    variant_field_views,
};
use crate::error::ReflectError;
use crate::json_text::{
    encode_error,
    entries_error,
    entries_text,
    entry_text,
    escape,
    fields_error,
    fields_text,
    items_error,
    items_text,
    json_text,
    key_name,
    key_text,
    lemma_escape_push,
    quoted,
    value_name,
    variant_key,
};
use crate::map::HMVtable;
use crate::number::push_int;
use crate::parser::{false_text, true_text};
use crate::set::HSVtable;
use crate::table::TableKind;
use crate::text::push_str;
use crate::value::{
    SeqStore,
    Value,
    ValueView,
    lemma_pair_views,
    lemma_value_views,
    pair_views,
    value_views,
};
use crate::vec::VecVtable;

verus! {

/// A comma where the `i`-th of `n` items has items on both sides of its start.
pub open spec fn comma_before(i: nat, n: nat) -> Seq<char> {
    if 0 < i && i < n {
        seq![',']
    } else {
        Seq::empty()
    }
}

/// Appends a field's key: the name between double quotes and a colon.
pub fn push_key(out: &mut Vec<char>, name: &str)
    ensures
        final(out)@ == old(out)@ + key_text(name@),
{
    out.push('"');
    push_str(out, name);
    out.push('"');
    out.push(':');
    assert(final(out)@ =~= old(out)@ + key_text(name@));
}

/// Appends a string between double quotes, with a backslash in front of
/// every backslash and every double quote.
pub fn push_escaped(out: &mut Vec<char>, s: &str)
    ensures
        final(out)@ == old(out)@ + quoted(escape(s@)),
{
    out.push('"');
    let ghost start = out@;
    for c in it: s.chars()
        invariant
            out@ == start + escape(it.seq().take(it.index() as int)),
    {
        proof {
            let before = it.seq().take(it.index() as int);
            assert(it.seq().take(it.index() + 1) =~= before.push(c));
            lemma_escape_push(before, c);
        }
        if c == '\\' || c == '"' {
            out.push('\\');
            out.push(c);
            assert(out@ =~= start + escape(it.seq().take(it.index() + 1)));
        } else {
            out.push(c);
            assert(out@ =~= start + escape(it.seq().take(it.index() + 1)));
        }
    }
    proof {
        assert(s@.take(s@.len() as int) =~= s@);
    }
    out.push('"');
    assert(final(out)@ =~= old(out)@ + quoted(escape(s@)));
}

/// Appends the fields of a struct from the first on, each with its key.
#[verifier::loop_isolation(false)]
fn encode_fields(vals: &Vec<Value>, fields: &Vec<Field>, out: &mut Vec<char>) -> (r: Result<
    (),
    ReflectError,
>)
    requires
        vals.len() == fields.len(),
    ensures
        match fields_error(
            value_views(vals@, vals@.len()),
            field_views(fields@, fields@.len()),
            0,
        ) {
            None => r is Ok && final(out)@ == old(out)@ + fields_text(
                value_views(vals@, vals@.len()),
                field_views(fields@, fields@.len()),
                0,
            ),
            Some(e) => r == Err::<(), ReflectError>(e),
        },
    decreases vals, 0nat,
{
    let ghost vv = value_views(vals@, vals@.len());
    let ghost fv = field_views(fields@, fields@.len());
    let ghost full = old(out)@ + fields_text(vv, fv, 0);
    let n: usize = vals.len();
    proof {
        lemma_value_views(vals@, vals@.len());
        lemma_field_views(fields@, fields@.len());
        assert(old(out)@ + comma_before(0, n as nat) + fields_text(vv, fv, 0) =~= full);
    }
    let mut i: usize = 0;
    while i < n
        invariant
            i <= n,
            fields_error(vv, fv, 0) == fields_error(vv, fv, i as nat),
            full == out@ + comma_before(i as nat, n as nat) + fields_text(vv, fv, i as nat),
        decreases n - i,
    {
        if i > 0 {
            out.push(',');
        }
        push_key(out, fields[i].name.as_str());
        let ghost mid = out@;
        match encode_value(&vals[i], &fields[i].ty, out) {
            Err(e) => {
                return Err(e);
            },
            Ok(()) => {},
        }
        proof {
            assert(vv[i as int] == vals@[i as int]@);
            assert(fv[i as int] == fields@[i as int]@);
            let here = key_text(fv[i as int].name) + json_text(vv[i as int], fv[i as int].ty);
            assert(out@ =~= mid + json_text(vv[i as int], fv[i as int].ty));
            assert(fields_text(vv, fv, i as nat) =~= here + comma_before((i + 1) as nat, n as nat)
                + fields_text(vv, fv, (i + 1) as nat));
            assert(full =~= out@ + comma_before((i + 1) as nat, n as nat) + fields_text(
                vv,
                fv,
                (i + 1) as nat,
            ));
        }
        i += 1;
    }
    proof {
        assert(full =~= out@);
    }
    Ok(())
}

/// Appends the fields of a tagged union's variant, each with its key.
#[verifier::loop_isolation(false)]
fn encode_variant_fields(vals: &Vec<Value>, fields: &Vec<(String, Type)>, out: &mut Vec<char>) -> (r:
    Result<(), ReflectError>)
    requires
        vals.len() == fields.len(),
    ensures
        match fields_error(
            value_views(vals@, vals@.len()),
            variant_field_views(fields@, fields@.len()),
            0,
        ) {
            None => r is Ok && final(out)@ == old(out)@ + fields_text(
                value_views(vals@, vals@.len()),
                variant_field_views(fields@, fields@.len()),
                0,
            ),
            Some(e) => r == Err::<(), ReflectError>(e),
        },
    decreases vals, 0nat,
{
    let ghost vv = value_views(vals@, vals@.len());
    let ghost fv = variant_field_views(fields@, fields@.len());
    let ghost full = old(out)@ + fields_text(vv, fv, 0);
    let n: usize = vals.len();
    proof {
        lemma_value_views(vals@, vals@.len());
        lemma_variant_field_views(fields@, fields@.len());
        assert(old(out)@ + comma_before(0, n as nat) + fields_text(vv, fv, 0) =~= full);
    }
    let mut i: usize = 0;
    while i < n
        invariant
            i <= n,
            fields_error(vv, fv, 0) == fields_error(vv, fv, i as nat),
            full == out@ + comma_before(i as nat, n as nat) + fields_text(vv, fv, i as nat),
        decreases n - i,
    {
        if i > 0 {
            out.push(',');
        }
        push_key(out, fields[i].0.as_str());
        let ghost mid = out@;
        match encode_value(&vals[i], &fields[i].1, out) {
            Err(e) => {
                return Err(e);
            },
            Ok(()) => {},
        }
        proof {
            assert(vv[i as int] == vals@[i as int]@);
            assert(fv[i as int].name == fields@[i as int].0@);
            assert(fv[i as int].ty == fields@[i as int].1@);
            let here = key_text(fv[i as int].name) + json_text(vv[i as int], fv[i as int].ty);
            assert(out@ =~= mid + json_text(vv[i as int], fv[i as int].ty));
            assert(fields_text(vv, fv, i as nat) =~= here + comma_before((i + 1) as nat, n as nat)
                + fields_text(vv, fv, (i + 1) as nat));
            assert(full =~= out@ + comma_before((i + 1) as nat, n as nat) + fields_text(
                vv,
                fv,
                (i + 1) as nat,
            ));
        }
        i += 1;
    }
    proof {
        assert(full =~= out@);
    }
    Ok(())
}

/// Appends the elements of a live sequence, read through its table.
#[verifier::loop_isolation(false)]
fn encode_seq(store: &SeqStore, table: &VecVtable, ty: &Type, out: &mut Vec<char>) -> (r: Result<
    (),
    ReflectError,
>)
    requires
        table.kind == TableKind::Live,
    ensures
        match items_error(value_views(store.items@, store.count()), ty@, 0) {
            None => r is Ok && final(out)@ == old(out)@ + items_text(
                value_views(store.items@, store.count()),
                ty@,
                0,
            ),
            Some(e) => r == Err::<(), ReflectError>(e),
        },
    decreases store, 0nat,
{
    let ghost vv = value_views(store.items@, store.count());
    let ghost full = old(out)@ + items_text(vv, ty@, 0);
    let n: usize = match table.get_len(store) {
        Ok(n) => n,
        Err(e) => {
            return Err(e);
        },
    };
    proof {
        lemma_value_views(store.items@, store.count());
        assert(old(out)@ + comma_before(0, n as nat) + items_text(vv, ty@, 0) =~= full);
    }
    let mut i: usize = 0;
    while i < n
        invariant
            i <= n,
            n == store.count(),
            items_error(vv, ty@, 0) == items_error(vv, ty@, i as nat),
            full == out@ + comma_before(i as nat, n as nat) + items_text(vv, ty@, i as nat),
        decreases n - i,
    {
        if i > 0 {
            out.push(',');
        }
        let ghost mid = out@;
        let elem: &Value = match table.get_elem_ref(store, i) {
            Ok(e) => e,
            Err(e) => {
                return Err(e);
            },
        };
        match encode_value(elem, ty, out) {
            Err(e) => {
                return Err(e);
            },
            Ok(()) => {},
        }
        proof {
            assert(vv[i as int] == store.items@[i as int]@);
            assert(out@ =~= mid + json_text(vv[i as int], ty@));
            assert(items_text(vv, ty@, i as nat) =~= json_text(vv[i as int], ty@) + comma_before(
                (i + 1) as nat,
                n as nat,
            ) + items_text(vv, ty@, (i + 1) as nat));
            assert(full =~= out@ + comma_before((i + 1) as nat, n as nat) + items_text(
                vv,
                ty@,
                (i + 1) as nat,
            ));
        }
        i += 1;
    }
    proof {
        assert(full =~= out@);
    }
    Ok(())
}

/// Appends the elements of a live set, in the order in which its table
/// yields them.
#[verifier::loop_isolation(false)]
fn encode_set(items: &Vec<Value>, table: &HSVtable, ty: &Type, out: &mut Vec<char>) -> (r: Result<
    (),
    ReflectError,
>)
    requires
        table.kind == TableKind::Live,
    ensures
        match items_error(value_views(items@, items@.len()), ty@, 0) {
            None => r is Ok && final(out)@ == old(out)@ + items_text(
                value_views(items@, items@.len()),
                ty@,
                0,
            ),
            Some(e) => r == Err::<(), ReflectError>(e),
        },
    decreases items, 0nat,
{
    let ghost vv = value_views(items@, items@.len());
    let ghost full = old(out)@ + items_text(vv, ty@, 0);
    let all: &Vec<Value> = match table.get_elements_ref(items) {
        Ok(all) => all,
        Err(e) => {
            return Err(e);
        },
    };
    let n: usize = all.len();
    proof {
        lemma_value_views(items@, items@.len());
        assert(old(out)@ + comma_before(0, n as nat) + items_text(vv, ty@, 0) =~= full);
    }
    let mut i: usize = 0;
    while i < n
        invariant
            i <= n,
            all == items,
            items_error(vv, ty@, 0) == items_error(vv, ty@, i as nat),
            full == out@ + comma_before(i as nat, n as nat) + items_text(vv, ty@, i as nat),
        decreases n - i,
    {
        if i > 0 {
            out.push(',');
        }
        let ghost mid = out@;
        match encode_value(&all[i], ty, out) {
            Err(e) => {
                return Err(e);
            },
            Ok(()) => {},
        }
        proof {
            assert(vv[i as int] == items@[i as int]@);
            assert(out@ =~= mid + json_text(vv[i as int], ty@));
            assert(items_text(vv, ty@, i as nat) =~= json_text(vv[i as int], ty@) + comma_before(
                (i + 1) as nat,
                n as nat,
            ) + items_text(vv, ty@, (i + 1) as nat));
            assert(full =~= out@ + comma_before((i + 1) as nat, n as nat) + items_text(
                vv,
                ty@,
                (i + 1) as nat,
            ));
        }
        i += 1;
    }
    proof {
        assert(full =~= out@);
    }
    Ok(())
}

/// Appends the start of a mapping's entry: the brace and the key `key`.
fn push_entry_start(out: &mut Vec<char>)
    ensures
        final(out)@ == old(out)@ + (seq!['{'] + key_text(key_name())),
{
    out.push('{');
    out.push('"');
    out.push('k');
    out.push('e');
    out.push('y');
    out.push('"');
    out.push(':');
    assert(final(out)@ =~= old(out)@ + (seq!['{'] + key_text(key_name())));
}

/// Appends the middle of a mapping's entry: the comma and the key `value`.
fn push_entry_middle(out: &mut Vec<char>)
    ensures
        final(out)@ == old(out)@ + (seq![','] + key_text(value_name())),
{
    out.push(',');
    out.push('"');
    out.push('v');
    out.push('a');
    out.push('l');
    out.push('u');
    out.push('e');
    out.push('"');
    out.push(':');
    assert(final(out)@ =~= old(out)@ + (seq![','] + key_text(value_name())));
}

/// The first failure in one entry of a mapping; the key comes first.
pub open spec fn entry_error(k: ValueView, v: ValueView, key: TypeView, value: TypeView) -> Option<
    ReflectError,
> {
    match encode_error(k, key) {
        Some(e) => Some(e),
        None => encode_error(v, value),
    }
}

/// Appends one entry of a mapping: a record of its key and its value.
fn encode_entry(entry: &(Value, Value), key: &Type, value: &Type, out: &mut Vec<char>) -> (r:
    Result<(), ReflectError>)
    ensures
        match entry_error(entry.0@, entry.1@, key@, value@) {
            None => r is Ok && final(out)@ == old(out)@ + entry_text(
                json_text(entry.0@, key@),
                json_text(entry.1@, value@),
            ),
            Some(e) => r == Err::<(), ReflectError>(e),
        },
    decreases entry, 0nat,
{
    push_entry_start(out);
    match encode_value(&entry.0, key, out) {
        Err(e) => {
            return Err(e);
        },
        Ok(()) => {},
    }
    push_entry_middle(out);
    match encode_value(&entry.1, value, out) {
        Err(e) => {
            return Err(e);
        },
        Ok(()) => {},
    }
    out.push('}');
    proof {
        reveal(entry_text);
    }
    assert(final(out)@ =~= old(out)@ + entry_text(
        json_text(entry.0@, key@),
        json_text(entry.1@, value@),
    ));
    Ok(())
}

/// Appends the entries of a live mapping, each as a record of its key
/// and its value, in the order in which its table yields them.
#[verifier::loop_isolation(false)]
fn encode_map(
    entries: &Vec<(Value, Value)>,
    table: &HMVtable,
    key: &Type,
    value: &Type,
    out: &mut Vec<char>,
) -> (r: Result<(), ReflectError>)
    requires
        table.kind == TableKind::Live,
    ensures
        match entries_error(pair_views(entries@, entries@.len()), key@, value@, 0) {
            None => r is Ok && final(out)@ == old(out)@ + entries_text(
                pair_views(entries@, entries@.len()),
                key@,
                value@,
                0,
            ),
            Some(e) => r == Err::<(), ReflectError>(e),
        },
    decreases entries, 1nat,
{
    let ghost pv = pair_views(entries@, entries@.len());
    let ghost full = old(out)@ + entries_text(pv, key@, value@, 0);
    let all: &Vec<(Value, Value)> = match table.get_elements_ref(entries) {
        Ok(all) => all,
        Err(e) => {
            return Err(e);
        },
    };
    let n: usize = all.len();
    proof {
        lemma_pair_views(entries@, entries@.len());
        assert(old(out)@ + comma_before(0, n as nat) + entries_text(pv, key@, value@, 0) =~= full);
    }
    let mut i: usize = 0;
    while i < n
        invariant
            i <= n,
            all == entries,
            entries_error(pv, key@, value@, 0) == entries_error(pv, key@, value@, i as nat),
            full == out@ + comma_before(i as nat, n as nat) + entries_text(
                pv,
                key@,
                value@,
                i as nat,
            ),
        decreases n - i,
    {
        if i > 0 {
            out.push(',');
        }
        let ghost start = out@;
        match encode_entry(&all[i], key, value, out) {
            Err(e) => {
                return Err(e);
            },
            Ok(()) => {},
        }
        proof {
            assert(pv[i as int] == (entries@[i as int].0@, entries@[i as int].1@));
            let et = entry_text(json_text(pv[i as int].0, key@), json_text(pv[i as int].1, value@));
            assert(out@ == start + et);
            assert(entries_text(pv, key@, value@, i as nat) =~= et + comma_before(
                (i + 1) as nat,
                n as nat,
            ) + entries_text(pv, key@, value@, (i + 1) as nat));
            assert(full =~= out@ + comma_before((i + 1) as nat, n as nat) + entries_text(
                pv,
                key@,
                value@,
                (i + 1) as nat,
            ));
        }
        i += 1;
    }
    proof {
        assert(full =~= out@);
    }
    Ok(())
}

/// Appends `true` or `false`.
pub(crate) fn encode_bool(b: bool, out: &mut Vec<char>)
    ensures
        final(out)@ == old(out)@ + (if b {
            true_text()
        } else {
            false_text()
        }),
{
    if b {
        out.push('t');
        out.push('r');
        out.push('u');
        out.push('e');
        assert(final(out)@ =~= old(out)@ + true_text());
    } else {
        out.push('f');
        out.push('a');
        out.push('l');
        out.push('s');
        out.push('e');
        assert(final(out)@ =~= old(out)@ + false_text());
    }
}

/// Appends an empty list.
pub(crate) fn push_empty_list(out: &mut Vec<char>)
    ensures
        final(out)@ == old(out)@ + seq!['[', ']'],
{
    out.push('[');
    out.push(']');
    assert(final(out)@ =~= old(out)@ + seq!['[', ']']);
}

/// Appends a struct: its fields between braces.
fn encode_struct(vals: &Vec<Value>, s: &Struct, out: &mut Vec<char>) -> (r: Result<
    (),
    ReflectError,
>)
    ensures
        match encode_error(ValueView::Struct(value_views(vals@, vals@.len())), s@) {
            None => r is Ok && final(out)@ == old(out)@ + json_text(
                ValueView::Struct(value_views(vals@, vals@.len())),
                s@,
            ),
            Some(e) => r == Err::<(), ReflectError>(e),
        },
    decreases vals, 1nat,
{
    proof {
        lemma_value_views(vals@, vals@.len());
        lemma_field_views(s.fields@, s.fields@.len());
    }
    if vals.len() != s.fields.len() {
        return Err(ReflectError::Mismatch);
    }
    out.push('{');
    match encode_fields(vals, &s.fields, out) {
        Err(e) => {
            return Err(e);
        },
        Ok(()) => {},
    }
    out.push('}');
    assert(final(out)@ =~= old(out)@ + (seq!['{'] + fields_text(
        value_views(vals@, vals@.len()),
        field_views(s.fields@, s.fields@.len()),
        0,
    ) + seq!['}']));
    Ok(())
}

/// Appends a sequence: its elements between brackets, or an empty list
/// where the sequence is marked to be skipped.
pub(crate) fn encode_vec(store: &SeqStore, t: &VecType, out: &mut Vec<char>) -> (r: Result<(), ReflectError>)
    ensures
        match encode_error(
            ValueView::Vec(value_views(store.items@, store.count())),
            Type::Vec(*t)@,
        ) {
            None => r is Ok && final(out)@ == old(out)@ + json_text(
                ValueView::Vec(value_views(store.items@, store.count())),
                Type::Vec(*t)@,
            ),
            Some(e) => r == Err::<(), ReflectError>(e),
        },
    decreases store, 1nat,
{
    if t.skip {
        push_empty_list(out);
        return Ok(());
    }
    match t.vtable.kind {
        TableKind::Skip => {
            return Err(ReflectError::NotSupported);
        },
        TableKind::Live => {},
    }
    out.push('[');
    match encode_seq(store, &t.vtable, &t.element, out) {
        Err(e) => {
            return Err(e);
        },
        Ok(()) => {},
    }
    out.push(']');
    assert(final(out)@ =~= old(out)@ + (seq!['['] + items_text(
        value_views(store.items@, store.count()),
        t.element@,
        0,
    ) + seq![']']));
    Ok(())
}

/// Appends a set: its elements between brackets, or an empty list where
/// the set is marked to be skipped.
pub(crate) fn encode_set_value(items: &Vec<Value>, t: &HSType, out: &mut Vec<char>) -> (r: Result<
    (),
    ReflectError,
>)
    ensures
        match encode_error(
            ValueView::HashSet(value_views(items@, items@.len())),
            Type::HashSet(*t)@,
        ) {
            None => r is Ok && final(out)@ == old(out)@ + json_text(
                ValueView::HashSet(value_views(items@, items@.len())),
                Type::HashSet(*t)@,
            ),
            Some(e) => r == Err::<(), ReflectError>(e),
        },
    decreases items, 1nat,
{
    if t.skip {
        push_empty_list(out);
        return Ok(());
    }
    match t.vtable.kind {
        TableKind::Skip => {
            return Err(ReflectError::NotSupported);
        },
        TableKind::Live => {},
    }
    out.push('[');
    match encode_set(items, &t.vtable, &t.element, out) {
        Err(e) => {
            return Err(e);
        },
        Ok(()) => {},
    }
    out.push(']');
    assert(final(out)@ =~= old(out)@ + (seq!['['] + items_text(
        value_views(items@, items@.len()),
        t.element@,
        0,
    ) + seq![']']));
    Ok(())
}

/// Appends a mapping: its entries between brackets, or an empty list
/// where the mapping is marked to be skipped.
pub(crate) fn encode_map_value(entries: &Vec<(Value, Value)>, t: &HMType, out: &mut Vec<char>) -> (r: Result<
    (),
    ReflectError,
>)
    ensures
        match encode_error(
            ValueView::HashMap(pair_views(entries@, entries@.len())),
            Type::HashMap(*t)@,
        ) {
            None => r is Ok && final(out)@ == old(out)@ + json_text(
                ValueView::HashMap(pair_views(entries@, entries@.len())),
                Type::HashMap(*t)@,
            ),
            Some(e) => r == Err::<(), ReflectError>(e),
        },
    decreases entries, 2nat,
{
    if t.skip {
        push_empty_list(out);
        return Ok(());
    }
    match t.vtable.kind {
        TableKind::Skip => {
            return Err(ReflectError::NotSupported);
        },
        TableKind::Live => {},
    }
    out.push('[');
    match encode_map(entries, &t.vtable, &t.key, &t.value, out) {
        Err(e) => {
            return Err(e);
        },
        Ok(()) => {},
    }
    out.push(']');
    assert(final(out)@ =~= old(out)@ + (seq!['['] + entries_text(
        pair_views(entries@, entries@.len()),
        t.key@,
        t.value@,
        0,
    ) + seq![']']));
    Ok(())
}

/// Appends an optional value: a list of what it holds, or an empty list
/// where it is marked to be skipped.
pub(crate) fn encode_option(slot: &Option<Box<Value>>, t: &OptionType, out: &mut Vec<char>) -> (r: Result<
    (),
    ReflectError,
>)
    ensures
        match encode_error(Value::Option(*slot)@, Type::Option(*t)@) {
            None => r is Ok && final(out)@ == old(out)@ + json_text(
                Value::Option(*slot)@,
                Type::Option(*t)@,
            ),
            Some(e) => r == Err::<(), ReflectError>(e),
        },
    decreases slot, 1nat,
{
    if t.skip {
        push_empty_list(out);
        return Ok(());
    }
    let held: Option<&Value> = match t.vtable.get_elem_ref(slot) {
        Ok(held) => held,
        Err(e) => {
            return Err(e);
        },
    };
    match held {
        None => {
            push_empty_list(out);
            Ok(())
        },
        Some(inner) => {
            out.push('[');
            match encode_value(inner, &t.element, out) {
                Err(e) => {
                    return Err(e);
                },
                Ok(()) => {},
            }
            out.push(']');
            assert(final(out)@ =~= old(out)@ + (seq!['['] + json_text(inner@, t.element@)
                + seq![']']));
            Ok(())
        },
    }
}

/// Appends the reserved key of a tagged union and the variant's name.
pub(crate) fn push_variant_name(out: &mut Vec<char>, name: &str)
    ensures
        final(out)@ == old(out)@ + (seq!['{'] + key_text(variant_key()) + quoted(name@)),
{
    out.push('{');
    out.push('"');
    out.push('_');
    out.push('_');
    out.push('e');
    out.push('n');
    out.push('u');
    out.push('m');
    out.push('_');
    out.push('v');
    out.push('a');
    out.push('r');
    out.push('i');
    out.push('a');
    out.push('n');
    out.push('t');
    out.push('"');
    out.push(':');
    let ghost mid = out@;
    assert(mid =~= old(out)@ + (seq!['{'] + key_text(variant_key())));
    out.push('"');
    push_str(out, name);
    out.push('"');
    assert(final(out)@ =~= mid + quoted(name@));
    assert(final(out)@ =~= old(out)@ + (seq!['{'] + key_text(variant_key()) + quoted(name@)));
}

/// Appends a tagged union: a record that starts with the variant's name
/// under the reserved key and goes on with the variant's fields.
fn encode_enum(idx: usize, vals: &Vec<Value>, e: &RustEnum, out: &mut Vec<char>) -> (r: Result<
    (),
    ReflectError,
>)
    ensures
        match encode_error(
            ValueView::RustEnum(idx as nat, value_views(vals@, vals@.len())),
            Type::RustEnum(*e)@,
        ) {
            None => r is Ok && final(out)@ == old(out)@ + json_text(
                ValueView::RustEnum(idx as nat, value_views(vals@, vals@.len())),
                Type::RustEnum(*e)@,
            ),
            Some(e) => r == Err::<(), ReflectError>(e),
        },
    decreases vals, 1nat,
{
    proof {
        lemma_value_views(vals@, vals@.len());
        lemma_variant_views(e.variants@, e.variants@.len());
    }
    if idx >= e.variants.len() {
        return Err(ReflectError::Mismatch);
    }
    let variant = &e.variants[idx];
    proof {
        lemma_variant_field_views(variant.fields@, variant.fields@.len());
    }
    if vals.len() != variant.fields.len() {
        return Err(ReflectError::Mismatch);
    }
    push_variant_name(out, variant.name.as_str());
    let ghost mid = out@;
    if vals.len() > 0 {
        out.push(',');
        match encode_variant_fields(vals, &variant.fields, out) {
            Err(e) => {
                return Err(e);
            },
            Ok(()) => {},
        }
    }
    let ghost tail = if vals@.len() > 0 {
        seq![','] + fields_text(
            value_views(vals@, vals@.len()),
            variant_field_views(variant.fields@, variant.fields@.len()),
            0,
        )
    } else {
        Seq::<char>::empty()
    };
    assert(out@ =~= mid + tail);
    out.push('}');
    assert(final(out)@ =~= old(out)@ + (seq!['{'] + key_text(variant_key()) + quoted(
        variant.name@,
    ) + tail + seq!['}']));
    Ok(())
}

/// Appends the text of a value under its descriptor.
///
/// Fails with `Mismatch` where the value does not have the described
/// shape, and with `NotSupported` where a container that is not marked to
/// be skipped has the table of a skipped one; the first failure in the
/// order of the walk is the one returned.
pub fn encode_value(v: &Value, ty: &Type, out: &mut Vec<char>) -> (r: Result<(), ReflectError>)
    ensures
        match encode_error(v@, ty@) {
            None => r is Ok && final(out)@ == old(out)@ + json_text(v@, ty@),
            Some(e) => r == Err::<(), ReflectError>(e),
        },
    decreases v, 0nat,
{
    match (v, ty) {
        (Value::I32(x), Type::I32) => {
            push_int(out, *x as i128);
            Ok(())
        },
        (Value::U32(x), Type::U32) => {
            push_int(out, *x as i128);
            Ok(())
        },
        (Value::I64(x), Type::I64) => {
            push_int(out, *x as i128);
            Ok(())
        },
        (Value::U64(x), Type::U64) => {
            push_int(out, *x as i128);
            Ok(())
        },
        (Value::ISize(x), Type::ISize) => {
            push_int(out, *x as i128);
            Ok(())
        },
        (Value::USize(x), Type::USize) => {
            push_int(out, *x as i128);
            Ok(())
        },
        (Value::F32(t), Type::F32) => {
            push_str(out, t.as_str());
            Ok(())
        },
        (Value::F64(t), Type::F64) => {
            push_str(out, t.as_str());
            Ok(())
        },
        (Value::Bool(b), Type::Bool) => {
            encode_bool(*b, out);
            Ok(())
        },
        (Value::String(s), Type::String) => {
            push_escaped(out, s.as_str());
            Ok(())
        },
        (Value::CEnum(d), Type::CEnum(_)) => {
            push_int(out, *d as i128);
            Ok(())
        },
        (Value::Struct(vals), Type::Struct(s)) => encode_struct(vals, s, out),
        (Value::Vec(store), Type::Vec(t)) => encode_vec(store, t, out),
        (Value::HashSet(items), Type::HashSet(t)) => encode_set_value(items, t, out),
        (Value::HashMap(entries), Type::HashMap(t)) => encode_map_value(entries, t, out),
        (Value::Option(slot), Type::Option(t)) => encode_option(slot, t, out),
        (Value::RustEnum(idx, vals), Type::RustEnum(e)) => encode_enum(*idx, vals, e, out),
        (Value::Box(inner), Type::Box(t)) => encode_value(inner, &t.inner, out),
        _ => Err(ReflectError::Mismatch),
    }
}

} // verus!
