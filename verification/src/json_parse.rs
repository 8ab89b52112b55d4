//! What the decoder reads: for a text, a place in it and a descriptor, the
//! value that stands there and the place after it, or the failure that
//! reading meets first.

use vstd::prelude::*;
use crate::descriptor::{FieldView, TypeView, VariantView};
use crate::error::DecodeError;
use crate::json_text::{key_name, value_name, variant_key};
use crate::map::map_insert;
use crate::parser::{
    spec_consume_bool,
    spec_consume_char,
    spec_consume_field,
    spec_consume_float,
    spec_consume_int,
    spec_consume_maybe,
    spec_consume_string,
};
use crate::set::set_insert;
use crate::table::TableKind;
use crate::value::ValueView;

verus! {

/// Whether a plain enumeration declares the discriminant `d`.
pub open spec fn has_discriminant(variants: Seq<(int, Seq<char>)>, d: int) -> bool {
    exists|i: int| 0 <= i < variants.len() && (#[trigger] variants[i]).0 == d
}

/// The first index from `from` on whose variant has the name, or the
/// number of variants where none has.
pub open spec fn find_variant(variants: Seq<VariantView>, name: Seq<char>, from: int) -> int
    decreases variants.len() - from,
{
    if from < 0 || from >= variants.len() {
        variants.len() as int
    } else if variants[from].name == name {
        from
    } else {
        find_variant(variants, name, from + 1)
    }
}

/// Reading an integer of a given width into a value.
pub open spec fn parse_int_value(
    text: Seq<char>,
    pos: int,
    signed: bool,
    lo: int,
    hi: int,
    make: spec_fn(int) -> ValueView,
) -> Result<(ValueView, int), DecodeError> {
    match spec_consume_int(text, pos, signed, lo, hi) {
        Ok((v, p)) => Ok((make(v), p)),
        Err(e) => Err(e),
    }
}

/// Reading the value of a descriptor at `pos`.
///
/// A sequence, a set and a mapping are lists in brackets; a skipped
/// container reads an empty list and fails with `NotSupported` on the
/// first element, because its table takes none. A tagged union names its
/// variant first; a name that the descriptor lacks is `UnknownVariant`,
/// and so is a discriminant that a plain enumeration lacks.
pub open spec fn parse_value(text: Seq<char>, pos: int, ty: TypeView) -> Result<
    (ValueView, int),
    DecodeError,
>
    decreases ty, 1nat, 0nat,
{
    match ty {
        TypeView::I32 => parse_int_value(
            text,
            pos,
            true,
            i32::MIN as int,
            i32::MAX as int,
            |v: int| ValueView::I32(v as i32),
        ),
        TypeView::U32 => parse_int_value(
            text,
            pos,
            false,
            0,
            u32::MAX as int,
            |v: int| ValueView::U32(v as u32),
        ),
        TypeView::I64 => parse_int_value(
            text,
            pos,
            true,
            i64::MIN as int,
            i64::MAX as int,
            |v: int| ValueView::I64(v as i64),
        ),
        TypeView::U64 => parse_int_value(
            text,
            pos,
            false,
            0,
            u64::MAX as int,
            |v: int| ValueView::U64(v as u64),
        ),
        TypeView::ISize => parse_int_value(
            text,
            pos,
            true,
            isize::MIN as int,
            isize::MAX as int,
            |v: int| ValueView::ISize(v as isize),
        ),
        TypeView::USize => parse_int_value(
            text,
            pos,
            false,
            0,
            usize::MAX as int,
            |v: int| ValueView::USize(v as usize),
        ),
        TypeView::F32 => match spec_consume_float(text, pos) {
            Ok((t, p)) => Ok((ValueView::F32(t), p)),
            Err(e) => Err(e),
        },
        TypeView::F64 => match spec_consume_float(text, pos) {
            Ok((t, p)) => Ok((ValueView::F64(t), p)),
            Err(e) => Err(e),
        },
        TypeView::Bool => match spec_consume_bool(text, pos) {
            Ok((b, p)) => Ok((ValueView::Bool(b), p)),
            Err(e) => Err(e),
        },
        TypeView::String => match spec_consume_string(text, pos) {
            Ok((s, p)) => Ok((ValueView::String(s), p)),
            Err(e) => Err(e),
        },
        TypeView::CEnum { variants, .. } => match spec_consume_int(
            text,
            pos,
            true,
            i32::MIN as int,
            i32::MAX as int,
        ) {
            Ok((v, p)) => if has_discriminant(variants, v) {
                Ok((ValueView::CEnum(v as i32), p))
            } else {
                Err(DecodeError::UnknownVariant)
            },
            Err(e) => Err(e),
        },
        TypeView::Struct { fields, .. } => match spec_consume_char(text, pos, '{') {
            Err(e) => Err(e),
            Ok(p1) => match parse_fields(text, p1, fields, 0, Seq::empty()) {
                Err(e) => Err(e),
                Ok((vals, p2)) => match spec_consume_char(text, p2, '}') {
                    Err(e) => Err(e),
                    Ok(p3) => Ok((ValueView::Struct(vals), p3)),
                },
            },
        },
        TypeView::RustEnum { variants, .. } => match spec_consume_char(text, pos, '{') {
            Err(e) => Err(e),
            Ok(p1) => match spec_consume_field(text, p1, variant_key()) {
                Err(e) => Err(e),
                Ok(p2) => match spec_consume_string(text, p2) {
                    Err(e) => Err(e),
                    Ok((name, p3)) => {
                        let idx = find_variant(variants, name, 0);
                        if idx < 0 || idx >= variants.len() {
                            Err(DecodeError::UnknownVariant)
                        } else {
                            match spec_consume_maybe(text, p3, ',') {
                                Err(e) => Err(e),
                                Ok(p4) => match parse_fields(
                                    text,
                                    p4,
                                    variants[idx].fields,
                                    0,
                                    Seq::empty(),
                                ) {
                                    Err(e) => Err(e),
                                    Ok((vals, p5)) => match spec_consume_char(text, p5, '}') {
                                        Err(e) => Err(e),
                                        Ok(p6) => Ok((ValueView::RustEnum(idx as nat, vals), p6)),
                                    },
                                },
                            }
                        }
                    },
                },
            },
        },
        TypeView::Vec { .. } => match spec_consume_char(text, pos, '[') {
            Err(e) => Err(e),
            Ok(p1) => match parse_seq_items(text, p1, ty, Seq::empty()) {
                Err(e) => Err(e),
                Ok((items, p2)) => match spec_consume_char(text, p2, ']') {
                    Err(e) => Err(e),
                    Ok(p3) => Ok((ValueView::Vec(items), p3)),
                },
            },
        },
        TypeView::HashSet { .. } => match spec_consume_char(text, pos, '[') {
            Err(e) => Err(e),
            Ok(p1) => match parse_set_items(text, p1, ty, Seq::empty()) {
                Err(e) => Err(e),
                Ok((items, p2)) => match spec_consume_char(text, p2, ']') {
                    Err(e) => Err(e),
                    Ok(p3) => Ok((ValueView::HashSet(items), p3)),
                },
            },
        },
        TypeView::HashMap { .. } => match spec_consume_char(text, pos, '[') {
            Err(e) => Err(e),
            Ok(p1) => match parse_map_entries(text, p1, ty, Seq::empty()) {
                Err(e) => Err(e),
                Ok((entries, p2)) => match spec_consume_char(text, p2, ']') {
                    Err(e) => Err(e),
                    Ok(p3) => Ok((ValueView::HashMap(entries), p3)),
                },
            },
        },
        TypeView::Option { element, vtable, .. } => match spec_consume_char(text, pos, '[') {
            Err(e) => Err(e),
            Ok(p1) => if p1 >= text.len() {
                Err(DecodeError::UnexpectedEnd)
            } else if text[p1] == ']' {
                Ok((ValueView::Option(None), p1 + 1))
            } else {
                match parse_value(text, p1, *element) {
                    Err(e) => Err(e),
                    Ok((v, p2)) => if vtable.kind == TableKind::Skip {
                        Err(DecodeError::NotSupported)
                    } else {
                        match spec_consume_char(text, p2, ']') {
                            Err(e) => Err(e),
                            Ok(p3) => Ok((ValueView::Option(Some(Box::new(v))), p3)),
                        }
                    },
                }
            },
        },
        TypeView::Box { inner } => match parse_value(text, pos, *inner) {
            Err(e) => Err(e),
            Ok((v, p)) => Ok((ValueView::Box(Box::new(v)), p)),
        },
    }
}

/// Reading the fields from the `k`-th on, with `acc` read so far: each
/// field's key, its value, and a comma if one follows.
pub open spec fn parse_fields(
    text: Seq<char>,
    pos: int,
    fields: Seq<FieldView>,
    k: nat,
    acc: Seq<ValueView>,
) -> Result<(Seq<ValueView>, int), DecodeError>
    decreases fields, fields.len() - k, 0nat,
{
    if k >= fields.len() {
        Ok((acc, pos))
    } else {
        match spec_consume_field(text, pos, fields[k as int].name) {
            Err(e) => Err(e),
            Ok(p1) => match parse_value(text, p1, fields[k as int].ty) {
                Err(e) => Err(e),
                Ok((v, p2)) => match spec_consume_maybe(text, p2, ',') {
                    Err(e) => Err(e),
                    Ok(p3) => parse_fields(text, p3, fields, k + 1, acc.push(v)),
                },
            },
        }
    }
}

/// Reading the elements of a sequence up to the closing bracket, with
/// `acc` read so far; commas stand between elements.
pub open spec fn parse_seq_items(text: Seq<char>, pos: int, cty: TypeView, acc: Seq<ValueView>) -> Result<
    (Seq<ValueView>, int),
    DecodeError,
>
    decreases cty, 0nat, text.len() - pos,
{
    match cty {
        TypeView::Vec { element, vtable, .. } => {
            if pos < 0 || pos >= text.len() {
                Err(DecodeError::UnexpectedEnd)
            } else if text[pos] == ']' {
                Ok((acc, pos))
            } else {
                match (if acc.len() > 0 {
                    spec_consume_char(text, pos, ',')
                } else {
                    Ok(pos)
                }) {
                    Err(e) => Err(e),
                    Ok(p1) => if acc.len() > usize::MAX - 8 {
                        Err(DecodeError::OutOfRange)
                    } else {
                        match parse_value(text, p1, *element) {
                            Err(e) => Err(e),
                            Ok((v, p2)) => if vtable.kind == TableKind::Skip {
                                Err(DecodeError::NotSupported)
                            } else if p2 <= pos || p2 > text.len() {
                                Err(DecodeError::Malformed)
                            } else {
                                parse_seq_items(text, p2, cty, acc.push(v))
                            },
                        }
                    },
                }
            }
        },
        _ => Err(DecodeError::Malformed),
    }
}

/// Reading the elements of a set up to the closing bracket, with `acc`
/// read so far; a comma may stand in front of an element.
pub open spec fn parse_set_items(text: Seq<char>, pos: int, cty: TypeView, acc: Seq<ValueView>) -> Result<
    (Seq<ValueView>, int),
    DecodeError,
>
    decreases cty, 0nat, text.len() - pos,
{
    match cty {
        TypeView::HashSet { element, vtable, .. } => {
            if pos < 0 || pos >= text.len() {
                Err(DecodeError::UnexpectedEnd)
            } else if text[pos] == ']' {
                Ok((acc, pos))
            } else {
                match spec_consume_maybe(text, pos, ',') {
                    Err(e) => Err(e),
                    Ok(p1) => match parse_value(text, p1, *element) {
                        Err(e) => Err(e),
                        Ok((v, p2)) => if vtable.kind == TableKind::Skip {
                            Err(DecodeError::NotSupported)
                        } else if p2 <= pos || p2 > text.len() {
                            Err(DecodeError::Malformed)
                        } else {
                            parse_set_items(text, p2, cty, set_insert(acc, v))
                        },
                    },
                }
            }
        },
        _ => Err(DecodeError::Malformed),
    }
}

/// Reading one entry of a mapping: a record of the two fields `key` and `value`.
pub open spec fn parse_entry(text: Seq<char>, pos: int, cty: TypeView) -> Result<
    ((ValueView, ValueView), int),
    DecodeError,
>
    decreases cty, 0nat, 0nat,
{
    match cty {
        TypeView::HashMap { key, value, .. } => match spec_consume_char(text, pos, '{') {
            Err(e) => Err(e),
            Ok(p1) => match spec_consume_field(text, p1, key_name()) {
                Err(e) => Err(e),
                Ok(p2) => match parse_value(text, p2, *key) {
                    Err(e) => Err(e),
                    Ok((k, p3)) => match spec_consume_char(text, p3, ',') {
                        Err(e) => Err(e),
                        Ok(p4) => match spec_consume_field(text, p4, value_name()) {
                            Err(e) => Err(e),
                            Ok(p5) => match parse_value(text, p5, *value) {
                                Err(e) => Err(e),
                                Ok((v, p6)) => match spec_consume_char(text, p6, '}') {
                                    Err(e) => Err(e),
                                    Ok(p7) => Ok(((k, v), p7)),
                                },
                            },
                        },
                    },
                },
            },
        },
        _ => Err(DecodeError::Malformed),
    }
}

/// Reading the entries of a mapping up to the closing bracket, with
/// `acc` read so far; a comma may stand in front of an entry.
pub open spec fn parse_map_entries(
    text: Seq<char>,
    pos: int,
    cty: TypeView,
    acc: Seq<(ValueView, ValueView)>,
) -> Result<(Seq<(ValueView, ValueView)>, int), DecodeError>
    decreases cty, 0nat, text.len() - pos,
{
    match cty {
        TypeView::HashMap { vtable, .. } => {
            if pos < 0 || pos >= text.len() {
                Err(DecodeError::UnexpectedEnd)
            } else if text[pos] == ']' {
                Ok((acc, pos))
            } else {
                match spec_consume_maybe(text, pos, ',') {
                    Err(e) => Err(e),
                    Ok(p1) => match parse_entry(text, p1, cty) {
                        Err(e) => Err(e),
                        Ok((entry, p2)) => if vtable.kind == TableKind::Skip {
                            Err(DecodeError::NotSupported)
                        } else if p2 <= pos || p2 > text.len() {
                            Err(DecodeError::Malformed)
                        } else {
                            parse_map_entries(text, p2, cty, map_insert(acc, entry.0, entry.1))
                        },
                    },
                }
            }
        },
        _ => Err(DecodeError::Malformed),
    }
}

} // verus!
