//! What the encoder writes: the text of a value under its descriptor, and
//! the first failure that encoding meets where the two do not fit.

use vstd::prelude::*;
use crate::descriptor::{FieldView, TypeView};
use crate::error::ReflectError;
use crate::number::int_text;
use crate::parser::{false_text, true_text};
use crate::table::TableKind;
use crate::value::ValueView;

verus! {

/// The name `key`, under which a mapping's entry holds its key.
pub open spec fn key_name() -> Seq<char> {
    seq!['k', 'e', 'y']
}

/// The name `value`, under which a mapping's entry holds its value.
pub open spec fn value_name() -> Seq<char> {
    seq!['v', 'a', 'l', 'u', 'e']
}

/// The reserved key that holds the name of a tagged union's variant.
pub open spec fn variant_key() -> Seq<char> {
    seq!['_', '_', 'e', 'n', 'u', 'm', '_', 'v', 'a', 'r', 'i', 'a', 'n', 't']
}

/// One character of a string as it is written: a backslash and a double
/// quote get a backslash in front, every other character stands for itself.
pub open spec fn escape_char(c: char) -> Seq<char> {
    if c == '\\' || c == '"' {
        seq!['\\', c]
    } else {
        seq![c]
    }
}

/// The characters of a string as they are written between the quotes.
pub open spec fn escape(s: Seq<char>) -> Seq<char>
    decreases s.len(),
{
    if s.len() == 0 {
        Seq::empty()
    } else {
        escape_char(s[0]) + escape(s.skip(1))
    }
}

/// A text between double quotes, as it stands.
pub open spec fn quoted(s: Seq<char>) -> Seq<char> {
    seq!['"'] + s + seq!['"']
}

/// A field's key: the name between double quotes and a colon.
pub open spec fn key_text(name: Seq<char>) -> Seq<char> {
    quoted(name) + seq![':']
}

/// The text of a value under its descriptor; empty where the two do not fit.
pub open spec fn json_text(v: ValueView, ty: TypeView) -> Seq<char>
    decreases v,
{
    match (v, ty) {
        (ValueView::I32(x), TypeView::I32) => int_text(x as int),
        (ValueView::U32(x), TypeView::U32) => int_text(x as int),
        (ValueView::I64(x), TypeView::I64) => int_text(x as int),
        (ValueView::U64(x), TypeView::U64) => int_text(x as int),
        (ValueView::ISize(x), TypeView::ISize) => int_text(x as int),
        (ValueView::USize(x), TypeView::USize) => int_text(x as int),
        (ValueView::F32(t), TypeView::F32) => t,
        (ValueView::F64(t), TypeView::F64) => t,
        (ValueView::Bool(b), TypeView::Bool) => if b {
            true_text()
        } else {
            false_text()
        },
        (ValueView::String(s), TypeView::String) => quoted(escape(s)),
        (ValueView::CEnum(d), TypeView::CEnum { .. }) => int_text(d as int),
        (ValueView::Struct(vals), TypeView::Struct { fields, .. }) => seq!['{'] + fields_text(
            vals,
            fields,
            0,
        ) + seq!['}'],
        (ValueView::Vec(items), TypeView::Vec { element, skip, .. }) => if skip {
            seq!['[', ']']
        } else {
            seq!['['] + items_text(items, *element, 0) + seq![']']
        },
        (ValueView::HashSet(items), TypeView::HashSet { element, skip, .. }) => if skip {
            seq!['[', ']']
        } else {
            seq!['['] + items_text(items, *element, 0) + seq![']']
        },
        (ValueView::HashMap(entries), TypeView::HashMap { key, value, skip, .. }) => if skip {
            seq!['[', ']']
        } else {
            seq!['['] + entries_text(entries, *key, *value, 0) + seq![']']
        },
        (ValueView::Option(o), TypeView::Option { element, skip, .. }) => if skip {
            seq!['[', ']']
        } else {
            match o {
                None => seq!['[', ']'],
                Some(inner) => seq!['['] + json_text(*inner, *element) + seq![']'],
            }
        },
        (ValueView::RustEnum(idx, vals), TypeView::RustEnum { variants, .. }) => if idx
            < variants.len() {
            seq!['{'] + key_text(variant_key()) + quoted(variants[idx as int].name) + (if vals.len()
                > 0 {
                seq![','] + fields_text(vals, variants[idx as int].fields, 0)
            } else {
                Seq::empty()
            }) + seq!['}']
        } else {
            Seq::empty()
        },
        (ValueView::Box(inner), TypeView::Box { inner: inner_ty }) => json_text(
            *inner,
            *inner_ty,
        ),
        _ => Seq::empty(),
    }
}

/// The text of the fields from the `k`-th on: each with its key, commas between.
pub open spec fn fields_text(vals: Seq<ValueView>, fields: Seq<FieldView>, k: nat) -> Seq<char>
    decreases vals, vals.len() - k,
{
    if k >= vals.len() || k >= fields.len() {
        Seq::empty()
    } else {
        key_text(fields[k as int].name) + json_text(vals[k as int], fields[k as int].ty) + (if k
            + 1 < vals.len() {
            seq![','] + fields_text(vals, fields, k + 1)
        } else {
            Seq::empty()
        })
    }
}

/// The text of the elements from the `k`-th on, commas between.
pub open spec fn items_text(items: Seq<ValueView>, ty: TypeView, k: nat) -> Seq<char>
    decreases items, items.len() - k,
{
    if k >= items.len() {
        Seq::empty()
    } else {
        json_text(items[k as int], ty) + (if k + 1 < items.len() {
            seq![','] + items_text(items, ty, k + 1)
        } else {
            Seq::empty()
        })
    }
}

/// The text of one entry of a mapping, from the texts of its key and its
/// value: a record with the two fields `key` and `value`.
#[verifier::opaque]
pub open spec fn entry_text(k: Seq<char>, v: Seq<char>) -> Seq<char> {
    seq!['{'] + key_text(key_name()) + k + seq![','] + key_text(value_name()) + v + seq!['}']
}

/// The text of the entries from the `k`-th on, commas between.
pub open spec fn entries_text(
    entries: Seq<(ValueView, ValueView)>,
    key: TypeView,
    value: TypeView,
    k: nat,
) -> Seq<char>
    decreases entries, entries.len() - k,
{
    if k >= entries.len() {
        Seq::empty()
    } else {
        entry_text(
            json_text(entries[k as int].0, key),
            json_text(entries[k as int].1, value),
        ) + (if k + 1
            < entries.len() {
            seq![','] + entries_text(entries, key, value, k + 1)
        } else {
            Seq::empty()
        })
    }
}

/// The first failure that encoding a value under a descriptor meets, if
/// any: `Mismatch` where the value does not have the described shape,
/// `NotSupported` where a container that is not marked to be skipped has
/// the table of a skipped one.
pub open spec fn encode_error(v: ValueView, ty: TypeView) -> Option<ReflectError>
    decreases v,
{
    match (v, ty) {
        (ValueView::I32(_), TypeView::I32) => None,
        (ValueView::U32(_), TypeView::U32) => None,
        (ValueView::I64(_), TypeView::I64) => None,
        (ValueView::U64(_), TypeView::U64) => None,
        (ValueView::ISize(_), TypeView::ISize) => None,
        (ValueView::USize(_), TypeView::USize) => None,
        (ValueView::F32(_), TypeView::F32) => None,
        (ValueView::F64(_), TypeView::F64) => None,
        (ValueView::Bool(_), TypeView::Bool) => None,
        (ValueView::String(_), TypeView::String) => None,
        (ValueView::CEnum(_), TypeView::CEnum { .. }) => None,
        (ValueView::Struct(vals), TypeView::Struct { fields, .. }) => if vals.len()
            != fields.len() {
            Some(ReflectError::Mismatch)
        } else {
            fields_error(vals, fields, 0)
        },
        (ValueView::Vec(items), TypeView::Vec { element, vtable, skip, .. }) => if skip {
            None
        } else if vtable.kind == TableKind::Skip {
            Some(ReflectError::NotSupported)
        } else {
            items_error(items, *element, 0)
        },
        (ValueView::HashSet(items), TypeView::HashSet { element, vtable, skip, .. }) => if skip {
            None
        } else if vtable.kind == TableKind::Skip {
            Some(ReflectError::NotSupported)
        } else {
            items_error(items, *element, 0)
        },
        (ValueView::HashMap(entries), TypeView::HashMap { key, value, vtable, skip, .. }) => if skip {
            None
        } else if vtable.kind == TableKind::Skip {
            Some(ReflectError::NotSupported)
        } else {
            entries_error(entries, *key, *value, 0)
        },
        (ValueView::Option(o), TypeView::Option { element, vtable, skip, .. }) => if skip {
            None
        } else if vtable.kind == TableKind::Skip {
            Some(ReflectError::NotSupported)
        } else {
            match o {
                None => None,
                Some(inner) => encode_error(*inner, *element),
            }
        },
        (ValueView::RustEnum(idx, vals), TypeView::RustEnum { variants, .. }) => if idx
            >= variants.len() || vals.len() != variants[idx as int].fields.len() {
            Some(ReflectError::Mismatch)
        } else {
            fields_error(vals, variants[idx as int].fields, 0)
        },
        (ValueView::Box(inner), TypeView::Box { inner: inner_ty }) => encode_error(
            *inner,
            *inner_ty,
        ),
        _ => Some(ReflectError::Mismatch),
    }
}

/// The first failure among the fields from the `k`-th on.
pub open spec fn fields_error(vals: Seq<ValueView>, fields: Seq<FieldView>, k: nat) -> Option<
    ReflectError,
>
    decreases vals, vals.len() - k,
{
    if k >= vals.len() || k >= fields.len() {
        None
    } else {
        match encode_error(vals[k as int], fields[k as int].ty) {
            Some(e) => Some(e),
            None => fields_error(vals, fields, k + 1),
        }
    }
}

/// The first failure among the elements from the `k`-th on.
pub open spec fn items_error(items: Seq<ValueView>, ty: TypeView, k: nat) -> Option<ReflectError>
    decreases items, items.len() - k,
{
    if k >= items.len() {
        None
    } else {
        match encode_error(items[k as int], ty) {
            Some(e) => Some(e),
            None => items_error(items, ty, k + 1),
        }
    }
}

/// The first failure among the entries from the `k`-th on; a key comes
/// before its value.
pub open spec fn entries_error(
    entries: Seq<(ValueView, ValueView)>,
    key: TypeView,
    value: TypeView,
    k: nat,
) -> Option<ReflectError>
    decreases entries, entries.len() - k,
{
    if k >= entries.len() {
        None
    } else {
        match encode_error(entries[k as int].0, key) {
            Some(e) => Some(e),
            None => match encode_error(entries[k as int].1, value) {
                Some(e) => Some(e),
                None => entries_error(entries, key, value, k + 1),
            },
        }
    }
}

/// Escaping goes character by character: what a prefix extended by one
/// character writes is what the prefix writes and what the character writes.
pub proof fn lemma_escape_push(s: Seq<char>, c: char)
    ensures
        escape(s.push(c)) == escape(s) + escape_char(c),
    decreases s.len(),
{
    if s.len() == 0 {
        let t = s.push(c);
        assert(t.len() == 1 && t[0] == c);
        assert(t.skip(1) =~= Seq::<char>::empty());
        assert(escape(t.skip(1)) =~= Seq::<char>::empty());
        assert(escape(t) == escape_char(c) + escape(t.skip(1)));
        assert(escape(s) =~= Seq::<char>::empty());
        assert(escape(t) =~= escape(s) + escape_char(c));
    } else {
        assert(s.push(c).skip(1) =~= s.skip(1).push(c));
        lemma_escape_push(s.skip(1), c);
        assert(s.push(c)[0] == s[0]);
        assert(escape(s.push(c)) == escape_char(s[0]) + escape(s.push(c).skip(1)));
        assert(escape(s.push(c)) =~= escape(s) + escape_char(c));
    }
}

} // verus!
