//! Building a view of a value that can be written through: the value is
//! borrowed exclusively, and every leaf of the view holds its part of it.

use vstd::prelude::*;
use crate::descriptor::{
    Field,
    RustEnum,
    Struct,
    Type,
    field_views,
    lemma_field_views,
    lemma_variant_field_views,
    lemma_variant_views,
    variant_field_views,
};
use crate::error::ReflectError;
use crate::reflections::{
    BoxReflection,
    CEnumReflection,
    FieldReflection,
    HMEntryView,
    HMReflection,
    HSReflection,
    OptionReflection,
    RefOrMut,
    RustEnumReflection,
    StructReflection,
    ValueReflection,
    VecReflection,
    refl_type,
    refl_value,
    refl_wf,
    refl_writable,
    sub_value,
    sub_view,
};
use crate::reflections_ref::{
    lemma_reflect_error_kind,
    lemma_field_values_are,
    reflect_error,
    reflect_fields_error,
    reflect_value_ref,
    reflects,
};
use crate::table::TableKind;
use crate::value::{Value, ValueView, lemma_value_views, value_views};

verus! {

/// Whether a view that can be written through shows a value under a descriptor.
pub open spec fn shows(r: ValueReflection, v: ValueView, ty: crate::descriptor::TypeView) -> bool {
    refl_wf(r) && refl_writable(r) && refl_value(r) == v && refl_type(r) == ty
}

/// Views of the fields of a struct that can be written through.
fn reflect_fields<'a>(vals: &'a mut Vec<Value>, fields: &'a Vec<Field>) -> (r: Result<
    Vec<FieldReflection<'a>>,
    ReflectError,
>)
    requires
        old(vals).len() == fields.len(),
    ensures
        match reflect_fields_error(
            value_views(old(vals)@, old(vals)@.len()),
            field_views(fields@, fields@.len()),
            0,
        ) {
            None => r is Ok && r->Ok_0@.len() == old(vals)@.len() && (forall|i: int|
                0 <= i < old(vals)@.len() ==> (#[trigger] r->Ok_0@[i]).name@ == fields@[i].name@
                    && shows(r->Ok_0@[i].value, old(vals)@[i]@, fields@[i].ty@)),
            Some(e) => r is Err && r->Err_0 == e,
        },
        r is Ok ==> final(vals)@.len() == old(vals)@.len(),
        r is Ok ==> forall|i: int, path: Seq<int>|
            0 <= i < old(vals)@.len() ==> ({
                let part = sub_value(final(vals)@[i], path);
                match #[trigger] sub_view(r->Ok_0@[i].value, path) {
                    Some(ValueReflection::I32(RefOrMut::Mut(x))) => part == Some(Value::I32(*final(x))),
                    Some(ValueReflection::U32(RefOrMut::Mut(x))) => part == Some(Value::U32(*final(x))),
                    Some(ValueReflection::F32(RefOrMut::Mut(x))) => part == Some(Value::F32(*final(x))),
                    Some(ValueReflection::I64(RefOrMut::Mut(x))) => part == Some(Value::I64(*final(x))),
                    Some(ValueReflection::U64(RefOrMut::Mut(x))) => part == Some(Value::U64(*final(x))),
                    Some(ValueReflection::F64(RefOrMut::Mut(x))) => part == Some(Value::F64(*final(x))),
                    Some(ValueReflection::ISize(RefOrMut::Mut(x))) => part == Some(Value::ISize(*final(x))),
                    Some(ValueReflection::USize(RefOrMut::Mut(x))) => part == Some(Value::USize(*final(x))),
                    Some(ValueReflection::Bool(RefOrMut::Mut(x))) => part == Some(Value::Bool(*final(x))),
                    Some(ValueReflection::String(RefOrMut::Mut(x))) => part == Some(Value::String(*final(x))),
                    Some(ValueReflection::CEnum(c)) => c.val matches RefOrMut::Mut(x) ==> part == Some(
                        Value::CEnum(*final(x)),
                    ),
                    Some(ValueReflection::Vec(b)) => b.store matches RefOrMut::Mut(x) ==> part == Some(
                        Value::Vec(*final(x)),
                    ),
                    Some(ValueReflection::HashMap(b)) => b.entries matches RefOrMut::Mut(x) ==> part == Some(
                        Value::HashMap(*final(x)),
                    ),
                    Some(ValueReflection::Option(b)) => b.slot matches RefOrMut::Mut(x) ==> part == Some(
                        Value::Option(*final(x)),
                    ),
                    Some(ValueReflection::HashSet(b)) => part == Some(Value::HashSet(*b.items)),
                    _ => true,
                }
            }),
    decreases *old(vals), 0nat,
{
    let ghost all = vals@;
    let ghost fin = final(vals)@;
    let ghost vv = value_views(vals@, vals@.len());
    let ghost fv = field_views(fields@, fields@.len());
    proof {
        lemma_value_views(vals@, vals@.len());
        lemma_field_views(fields@, fields@.len());
    }
    let mut out: Vec<FieldReflection<'a>> = Vec::new();
    let mut rest: &'a mut [Value] = vals.as_mut_slice();
    let mut i: usize = 0;
    while i < fields.len()
        invariant
            i <= fields.len(),
            all.len() == fields.len(),
            all == old(vals)@,
            vv == value_views(all, all.len()),
            fv == field_views(fields@, fields@.len()),
            vv.len() == all.len(),
            fv.len() == all.len(),
            forall|k: int| 0 <= k < all.len() ==> #[trigger] vv[k] == all[k]@,
            forall|k: int| 0 <= k < all.len() ==> #[trigger] fv[k] == fields@[k]@,
            out@.len() == i,
            rest@ == all.subrange(i as int, all.len() as int),
            fin.len() == i + final(rest)@.len(),
            forall|k: int| 0 <= k < final(rest)@.len() ==> #[trigger] fin[i + k] == final(rest)@[k],
            forall|j: int, path: Seq<int>|
                0 <= j < i ==> ({
                    let part = sub_value(fin[j], path);
                    match #[trigger] sub_view(out@[j].value, path) {
                        Some(ValueReflection::I32(RefOrMut::Mut(x))) => part == Some(Value::I32(*final(x))),
                        Some(ValueReflection::U32(RefOrMut::Mut(x))) => part == Some(Value::U32(*final(x))),
                        Some(ValueReflection::F32(RefOrMut::Mut(x))) => part == Some(Value::F32(*final(x))),
                        Some(ValueReflection::I64(RefOrMut::Mut(x))) => part == Some(Value::I64(*final(x))),
                        Some(ValueReflection::U64(RefOrMut::Mut(x))) => part == Some(Value::U64(*final(x))),
                        Some(ValueReflection::F64(RefOrMut::Mut(x))) => part == Some(Value::F64(*final(x))),
                        Some(ValueReflection::ISize(RefOrMut::Mut(x))) => part == Some(Value::ISize(*final(x))),
                        Some(ValueReflection::USize(RefOrMut::Mut(x))) => part == Some(Value::USize(*final(x))),
                        Some(ValueReflection::Bool(RefOrMut::Mut(x))) => part == Some(Value::Bool(*final(x))),
                        Some(ValueReflection::String(RefOrMut::Mut(x))) => part == Some(Value::String(*final(x))),
                        Some(ValueReflection::CEnum(c)) => c.val matches RefOrMut::Mut(x) ==> part == Some(
                            Value::CEnum(*final(x)),
                        ),
                        Some(ValueReflection::Vec(b)) => b.store matches RefOrMut::Mut(x) ==> part == Some(
                            Value::Vec(*final(x)),
                        ),
                        Some(ValueReflection::HashMap(b)) => b.entries matches RefOrMut::Mut(x) ==> part == Some(
                            Value::HashMap(*final(x)),
                        ),
                        Some(ValueReflection::Option(b)) => b.slot matches RefOrMut::Mut(x) ==> part == Some(
                            Value::Option(*final(x)),
                        ),
                        Some(ValueReflection::HashSet(b)) => part == Some(Value::HashSet(*b.items)),
                        _ => true,
                    }
                }),
            reflect_fields_error(vv, fv, 0) == reflect_fields_error(vv, fv, i as nat),
            forall|j: int|
                0 <= j < i ==> (#[trigger] out@[j]).name@ == fields@[j].name@ && shows(
                    out@[j].value,
                    all[j]@,
                    fields@[j].ty@,
                ),
        decreases fields.len() - i,
    {
        let ghost fr = final(rest)@;
        let (head, tail) = rest.split_at_mut(1);
        let ghost fh = final(head)@;
        let ghost ft = final(tail)@;
        proof {
            assert(fr == fh + ft);
        }
        let elem: &'a mut Value = &mut head[0];
        let ghost fe = *final(elem);
        proof {
            assert(*elem == all[i as int]);
            assert(tail@ =~= all.subrange(i + 1, all.len() as int));
            assert(fh.len() == 1);
            assert(fh[0] == fe);
            assert(fin[i + 0] == fr[0]);
            assert(fr[0] == fh[0]);
            assert forall|k: int| 0 <= k < ft.len() implies #[trigger] fin[i + 1 + k] == ft[k] by {
                assert(fin[i + (k + 1)] == fr[k + 1]);
                assert(fr[k + 1] == ft[k]);
            }
        }
        let value: ValueReflection<'a> = match reflect_value(elem, &fields[i].ty) {
            Err(e) => {
                return Err(e);
            },
            Ok(value) => value,
        };
        out.push(FieldReflection { name: fields[i].name.as_str(), value });
        rest = tail;
        i += 1;
    }
    Ok(out)
}

/// Views of the fields of a tagged union's variant that can be written through.
fn reflect_variant_fields<'a>(vals: &'a mut Vec<Value>, fields: &'a Vec<(String, Type)>) -> (r:
    Result<Vec<FieldReflection<'a>>, ReflectError>)
    requires
        old(vals).len() == fields.len(),
    ensures
        match reflect_fields_error(
            value_views(old(vals)@, old(vals)@.len()),
            variant_field_views(fields@, fields@.len()),
            0,
        ) {
            None => r is Ok && r->Ok_0@.len() == old(vals)@.len() && (forall|i: int|
                0 <= i < old(vals)@.len() ==> (#[trigger] r->Ok_0@[i]).name@ == fields@[i].0@
                    && shows(r->Ok_0@[i].value, old(vals)@[i]@, fields@[i].1@)),
            Some(e) => r is Err && r->Err_0 == e,
        },
        r is Ok ==> final(vals)@.len() == old(vals)@.len(),
        r is Ok ==> forall|i: int, path: Seq<int>|
            0 <= i < old(vals)@.len() ==> ({
                let part = sub_value(final(vals)@[i], path);
                match #[trigger] sub_view(r->Ok_0@[i].value, path) {
                    Some(ValueReflection::I32(RefOrMut::Mut(x))) => part == Some(Value::I32(*final(x))),
                    Some(ValueReflection::U32(RefOrMut::Mut(x))) => part == Some(Value::U32(*final(x))),
                    Some(ValueReflection::F32(RefOrMut::Mut(x))) => part == Some(Value::F32(*final(x))),
                    Some(ValueReflection::I64(RefOrMut::Mut(x))) => part == Some(Value::I64(*final(x))),
                    Some(ValueReflection::U64(RefOrMut::Mut(x))) => part == Some(Value::U64(*final(x))),
                    Some(ValueReflection::F64(RefOrMut::Mut(x))) => part == Some(Value::F64(*final(x))),
                    Some(ValueReflection::ISize(RefOrMut::Mut(x))) => part == Some(Value::ISize(*final(x))),
                    Some(ValueReflection::USize(RefOrMut::Mut(x))) => part == Some(Value::USize(*final(x))),
                    Some(ValueReflection::Bool(RefOrMut::Mut(x))) => part == Some(Value::Bool(*final(x))),
                    Some(ValueReflection::String(RefOrMut::Mut(x))) => part == Some(Value::String(*final(x))),
                    Some(ValueReflection::CEnum(c)) => c.val matches RefOrMut::Mut(x) ==> part == Some(
                        Value::CEnum(*final(x)),
                    ),
                    Some(ValueReflection::Vec(b)) => b.store matches RefOrMut::Mut(x) ==> part == Some(
                        Value::Vec(*final(x)),
                    ),
                    Some(ValueReflection::HashMap(b)) => b.entries matches RefOrMut::Mut(x) ==> part == Some(
                        Value::HashMap(*final(x)),
                    ),
                    Some(ValueReflection::Option(b)) => b.slot matches RefOrMut::Mut(x) ==> part == Some(
                        Value::Option(*final(x)),
                    ),
                    Some(ValueReflection::HashSet(b)) => part == Some(Value::HashSet(*b.items)),
                    _ => true,
                }
            }),
    decreases *old(vals), 0nat,
{
    let ghost all = vals@;
    let ghost fin = final(vals)@;
    let ghost vv = value_views(vals@, vals@.len());
    let ghost fv = variant_field_views(fields@, fields@.len());
    proof {
        lemma_value_views(vals@, vals@.len());
        lemma_variant_field_views(fields@, fields@.len());
    }
    let mut out: Vec<FieldReflection<'a>> = Vec::new();
    let mut rest: &'a mut [Value] = vals.as_mut_slice();
    let mut i: usize = 0;
    while i < fields.len()
        invariant
            i <= fields.len(),
            all.len() == fields.len(),
            all == old(vals)@,
            vv == value_views(all, all.len()),
            fv == variant_field_views(fields@, fields@.len()),
            vv.len() == all.len(),
            fv.len() == all.len(),
            forall|k: int| 0 <= k < all.len() ==> #[trigger] vv[k] == all[k]@,
            forall|k: int|
                0 <= k < all.len() ==> (#[trigger] fv[k]).name == fields@[k].0@ && fv[k].ty
                    == fields@[k].1@,
            out@.len() == i,
            rest@ == all.subrange(i as int, all.len() as int),
            fin.len() == i + final(rest)@.len(),
            forall|k: int| 0 <= k < final(rest)@.len() ==> #[trigger] fin[i + k] == final(rest)@[k],
            forall|j: int, path: Seq<int>|
                0 <= j < i ==> ({
                    let part = sub_value(fin[j], path);
                    match #[trigger] sub_view(out@[j].value, path) {
                        Some(ValueReflection::I32(RefOrMut::Mut(x))) => part == Some(Value::I32(*final(x))),
                        Some(ValueReflection::U32(RefOrMut::Mut(x))) => part == Some(Value::U32(*final(x))),
                        Some(ValueReflection::F32(RefOrMut::Mut(x))) => part == Some(Value::F32(*final(x))),
                        Some(ValueReflection::I64(RefOrMut::Mut(x))) => part == Some(Value::I64(*final(x))),
                        Some(ValueReflection::U64(RefOrMut::Mut(x))) => part == Some(Value::U64(*final(x))),
                        Some(ValueReflection::F64(RefOrMut::Mut(x))) => part == Some(Value::F64(*final(x))),
                        Some(ValueReflection::ISize(RefOrMut::Mut(x))) => part == Some(Value::ISize(*final(x))),
                        Some(ValueReflection::USize(RefOrMut::Mut(x))) => part == Some(Value::USize(*final(x))),
                        Some(ValueReflection::Bool(RefOrMut::Mut(x))) => part == Some(Value::Bool(*final(x))),
                        Some(ValueReflection::String(RefOrMut::Mut(x))) => part == Some(Value::String(*final(x))),
                        Some(ValueReflection::CEnum(c)) => c.val matches RefOrMut::Mut(x) ==> part == Some(
                            Value::CEnum(*final(x)),
                        ),
                        Some(ValueReflection::Vec(b)) => b.store matches RefOrMut::Mut(x) ==> part == Some(
                            Value::Vec(*final(x)),
                        ),
                        Some(ValueReflection::HashMap(b)) => b.entries matches RefOrMut::Mut(x) ==> part == Some(
                            Value::HashMap(*final(x)),
                        ),
                        Some(ValueReflection::Option(b)) => b.slot matches RefOrMut::Mut(x) ==> part == Some(
                            Value::Option(*final(x)),
                        ),
                        Some(ValueReflection::HashSet(b)) => part == Some(Value::HashSet(*b.items)),
                        _ => true,
                    }
                }),
            reflect_fields_error(vv, fv, 0) == reflect_fields_error(vv, fv, i as nat),
            forall|j: int|
                0 <= j < i ==> (#[trigger] out@[j]).name@ == fields@[j].0@ && shows(
                    out@[j].value,
                    all[j]@,
                    fields@[j].1@,
                ),
        decreases fields.len() - i,
    {
        let ghost fr = final(rest)@;
        let (head, tail) = rest.split_at_mut(1);
        let ghost fh = final(head)@;
        let ghost ft = final(tail)@;
        proof {
            assert(fr == fh + ft);
        }
        let elem: &'a mut Value = &mut head[0];
        let ghost fe = *final(elem);
        proof {
            assert(*elem == all[i as int]);
            assert(tail@ =~= all.subrange(i + 1, all.len() as int));
            assert(fh.len() == 1);
            assert(fh[0] == fe);
            assert(fin[i + 0] == fr[0]);
            assert(fr[0] == fh[0]);
            assert forall|k: int| 0 <= k < ft.len() implies #[trigger] fin[i + 1 + k] == ft[k] by {
                assert(fin[i + (k + 1)] == fr[k + 1]);
                assert(fr[k + 1] == ft[k]);
            }
        }
        let value: ValueReflection<'a> = match reflect_value(elem, &fields[i].1) {
            Err(e) => {
                return Err(e);
            },
            Ok(value) => value,
        };
        out.push(FieldReflection { name: fields[i].0.as_str(), value });
        rest = tail;
        i += 1;
    }
    Ok(out)
}

/// The view of a struct that can be written through: a view of every
/// field, in declaration order.
pub fn reflect_struct<'a>(vals: &'a mut Vec<Value>, mirror: &'a Struct) -> (r: Result<
    StructReflection<'a>,
    ReflectError,
>)
    ensures
        match reflect_error(ValueView::Struct(value_views(old(vals)@, old(vals)@.len())), mirror@) {
            None => r is Ok && shows(
                ValueReflection::Struct(Box::new(r->Ok_0)),
                ValueView::Struct(value_views(old(vals)@, old(vals)@.len())),
                mirror@,
            ),
            Some(e) => r is Err && r->Err_0 == e,
        },
        r is Ok ==> final(vals)@.len() == old(vals)@.len(),
        r is Ok ==> r->Ok_0.mirror == mirror && r->Ok_0.fields@.len() == old(vals)@.len(),
        r is Ok ==> forall|path: Seq<int>|
            ({
                let part = sub_value(Value::Struct(*final(vals)), path);
                match #[trigger] sub_view(ValueReflection::Struct(Box::new(r->Ok_0)), path) {
                    Some(ValueReflection::I32(RefOrMut::Mut(x))) => part == Some(Value::I32(*final(x))),
                    Some(ValueReflection::U32(RefOrMut::Mut(x))) => part == Some(Value::U32(*final(x))),
                    Some(ValueReflection::F32(RefOrMut::Mut(x))) => part == Some(Value::F32(*final(x))),
                    Some(ValueReflection::I64(RefOrMut::Mut(x))) => part == Some(Value::I64(*final(x))),
                    Some(ValueReflection::U64(RefOrMut::Mut(x))) => part == Some(Value::U64(*final(x))),
                    Some(ValueReflection::F64(RefOrMut::Mut(x))) => part == Some(Value::F64(*final(x))),
                    Some(ValueReflection::ISize(RefOrMut::Mut(x))) => part == Some(Value::ISize(*final(x))),
                    Some(ValueReflection::USize(RefOrMut::Mut(x))) => part == Some(Value::USize(*final(x))),
                    Some(ValueReflection::Bool(RefOrMut::Mut(x))) => part == Some(Value::Bool(*final(x))),
                    Some(ValueReflection::String(RefOrMut::Mut(x))) => part == Some(Value::String(*final(x))),
                    Some(ValueReflection::CEnum(c)) => c.val matches RefOrMut::Mut(x) ==> part == Some(
                        Value::CEnum(*final(x)),
                    ),
                    Some(ValueReflection::Vec(b)) => b.store matches RefOrMut::Mut(x) ==> part == Some(
                        Value::Vec(*final(x)),
                    ),
                    Some(ValueReflection::HashMap(b)) => b.entries matches RefOrMut::Mut(x) ==> part == Some(
                        Value::HashMap(*final(x)),
                    ),
                    Some(ValueReflection::Option(b)) => b.slot matches RefOrMut::Mut(x) ==> part == Some(
                        Value::Option(*final(x)),
                    ),
                    Some(ValueReflection::HashSet(b)) => part == Some(Value::HashSet(*b.items)),
                    _ => true,
                }
            }),
    decreases *old(vals), 1nat,
{
    let ghost all = vals@;
    let ghost fin = *final(vals);
    proof {
        lemma_value_views(vals@, vals@.len());
        lemma_field_views(mirror.fields@, mirror.fields@.len());
    }
    if vals.len() != mirror.fields.len() {
        return Err(ReflectError::Mismatch);
    }
    let fields: Vec<FieldReflection<'a>> = match reflect_fields(vals, &mirror.fields) {
        Err(e) => {
            return Err(e);
        },
        Ok(fields) => fields,
    };
    proof {
        lemma_field_values_are(fields@, all);
    }
    let view = StructReflection { name: mirror.name.as_str(), mirror, fields };
    proof {
        let whole = ValueReflection::Struct(Box::new(view));
        let after = Value::Struct(fin);
        assert forall|path: Seq<int>|
            ({
                let part = sub_value(after, path);
                match #[trigger] sub_view(whole, path) {
                    Some(ValueReflection::I32(RefOrMut::Mut(x))) => part == Some(Value::I32(*final(x))),
                    Some(ValueReflection::U32(RefOrMut::Mut(x))) => part == Some(Value::U32(*final(x))),
                    Some(ValueReflection::F32(RefOrMut::Mut(x))) => part == Some(Value::F32(*final(x))),
                    Some(ValueReflection::I64(RefOrMut::Mut(x))) => part == Some(Value::I64(*final(x))),
                    Some(ValueReflection::U64(RefOrMut::Mut(x))) => part == Some(Value::U64(*final(x))),
                    Some(ValueReflection::F64(RefOrMut::Mut(x))) => part == Some(Value::F64(*final(x))),
                    Some(ValueReflection::ISize(RefOrMut::Mut(x))) => part == Some(Value::ISize(*final(x))),
                    Some(ValueReflection::USize(RefOrMut::Mut(x))) => part == Some(Value::USize(*final(x))),
                    Some(ValueReflection::Bool(RefOrMut::Mut(x))) => part == Some(Value::Bool(*final(x))),
                    Some(ValueReflection::String(RefOrMut::Mut(x))) => part == Some(Value::String(*final(x))),
                    Some(ValueReflection::CEnum(c)) => c.val matches RefOrMut::Mut(x) ==> part == Some(
                        Value::CEnum(*final(x)),
                    ),
                    Some(ValueReflection::Vec(b)) => b.store matches RefOrMut::Mut(x) ==> part == Some(
                        Value::Vec(*final(x)),
                    ),
                    Some(ValueReflection::HashMap(b)) => b.entries matches RefOrMut::Mut(x) ==> part == Some(
                        Value::HashMap(*final(x)),
                    ),
                    Some(ValueReflection::Option(b)) => b.slot matches RefOrMut::Mut(x) ==> part == Some(
                        Value::Option(*final(x)),
                    ),
                    Some(ValueReflection::HashSet(b)) => part == Some(Value::HashSet(*b.items)),
                    _ => true,
                }
            }) by {
            if path.len() > 0 {
                let i = path[0];
                let rest = path.skip(1);
                if 0 <= i < view.fields@.len() {
                    assert(sub_view(whole, path) == sub_view(view.fields@[i].value, rest));
                    assert(sub_value(after, path) == sub_value(fin@[i], rest));
                }
            }
        }
    }
    Ok(view)
}

/// The view of a tagged union that can be written through.
fn reflect_enum<'a>(idx: usize, vals: &'a mut Vec<Value>, mirror: &'a RustEnum) -> (r: Result<
    RustEnumReflection<'a>,
    ReflectError,
>)
    ensures
        match reflect_error(
            ValueView::RustEnum(idx as nat, value_views(old(vals)@, old(vals)@.len())),
            Type::RustEnum(*mirror)@,
        ) {
            None => r is Ok && shows(
                ValueReflection::RustEnum(r->Ok_0),
                ValueView::RustEnum(idx as nat, value_views(old(vals)@, old(vals)@.len())),
                Type::RustEnum(*mirror)@,
            ),
            Some(e) => r is Err && r->Err_0 == e,
        },
        r is Ok ==> final(vals)@.len() == old(vals)@.len(),
        r is Ok ==> r->Ok_0.mirror == mirror && r->Ok_0.variant_idx == idx && r->Ok_0.fields@.len()
            == old(vals)@.len(),
        r is Ok ==> forall|path: Seq<int>|
            ({
                let part = sub_value(Value::RustEnum(idx, *final(vals)), path);
                match #[trigger] sub_view(ValueReflection::RustEnum(r->Ok_0), path) {
                    Some(ValueReflection::I32(RefOrMut::Mut(x))) => part == Some(Value::I32(*final(x))),
                    Some(ValueReflection::U32(RefOrMut::Mut(x))) => part == Some(Value::U32(*final(x))),
                    Some(ValueReflection::F32(RefOrMut::Mut(x))) => part == Some(Value::F32(*final(x))),
                    Some(ValueReflection::I64(RefOrMut::Mut(x))) => part == Some(Value::I64(*final(x))),
                    Some(ValueReflection::U64(RefOrMut::Mut(x))) => part == Some(Value::U64(*final(x))),
                    Some(ValueReflection::F64(RefOrMut::Mut(x))) => part == Some(Value::F64(*final(x))),
                    Some(ValueReflection::ISize(RefOrMut::Mut(x))) => part == Some(Value::ISize(*final(x))),
                    Some(ValueReflection::USize(RefOrMut::Mut(x))) => part == Some(Value::USize(*final(x))),
                    Some(ValueReflection::Bool(RefOrMut::Mut(x))) => part == Some(Value::Bool(*final(x))),
                    Some(ValueReflection::String(RefOrMut::Mut(x))) => part == Some(Value::String(*final(x))),
                    Some(ValueReflection::CEnum(c)) => c.val matches RefOrMut::Mut(x) ==> part == Some(
                        Value::CEnum(*final(x)),
                    ),
                    Some(ValueReflection::Vec(b)) => b.store matches RefOrMut::Mut(x) ==> part == Some(
                        Value::Vec(*final(x)),
                    ),
                    Some(ValueReflection::HashMap(b)) => b.entries matches RefOrMut::Mut(x) ==> part == Some(
                        Value::HashMap(*final(x)),
                    ),
                    Some(ValueReflection::Option(b)) => b.slot matches RefOrMut::Mut(x) ==> part == Some(
                        Value::Option(*final(x)),
                    ),
                    Some(ValueReflection::HashSet(b)) => part == Some(Value::HashSet(*b.items)),
                    _ => true,
                }
            }),
    decreases *old(vals), 1nat,
{
    let ghost all = vals@;
    let ghost fin = *final(vals);
    proof {
        lemma_value_views(vals@, vals@.len());
        lemma_variant_views(mirror.variants@, mirror.variants@.len());
    }
    if idx >= mirror.variants.len() {
        return Err(ReflectError::Mismatch);
    }
    let variant = &mirror.variants[idx];
    proof {
        lemma_variant_field_views(variant.fields@, variant.fields@.len());
    }
    if vals.len() != variant.fields.len() {
        return Err(ReflectError::Mismatch);
    }
    let fields: Vec<FieldReflection<'a>> = match reflect_variant_fields(vals, &variant.fields) {
        Err(e) => {
            return Err(e);
        },
        Ok(fields) => fields,
    };
    proof {
        lemma_field_values_are(fields@, all);
    }
    let view = RustEnumReflection {
        name: mirror.name.as_str(),
        variant_name: variant.name.as_str(),
        variant_idx: idx,
        mirror,
        fields,
    };
    proof {
        let whole = ValueReflection::RustEnum(view);
        let after = Value::RustEnum(idx, fin);
        assert forall|path: Seq<int>|
            ({
                let part = sub_value(after, path);
                match #[trigger] sub_view(whole, path) {
                    Some(ValueReflection::I32(RefOrMut::Mut(x))) => part == Some(Value::I32(*final(x))),
                    Some(ValueReflection::U32(RefOrMut::Mut(x))) => part == Some(Value::U32(*final(x))),
                    Some(ValueReflection::F32(RefOrMut::Mut(x))) => part == Some(Value::F32(*final(x))),
                    Some(ValueReflection::I64(RefOrMut::Mut(x))) => part == Some(Value::I64(*final(x))),
                    Some(ValueReflection::U64(RefOrMut::Mut(x))) => part == Some(Value::U64(*final(x))),
                    Some(ValueReflection::F64(RefOrMut::Mut(x))) => part == Some(Value::F64(*final(x))),
                    Some(ValueReflection::ISize(RefOrMut::Mut(x))) => part == Some(Value::ISize(*final(x))),
                    Some(ValueReflection::USize(RefOrMut::Mut(x))) => part == Some(Value::USize(*final(x))),
                    Some(ValueReflection::Bool(RefOrMut::Mut(x))) => part == Some(Value::Bool(*final(x))),
                    Some(ValueReflection::String(RefOrMut::Mut(x))) => part == Some(Value::String(*final(x))),
                    Some(ValueReflection::CEnum(c)) => c.val matches RefOrMut::Mut(x) ==> part == Some(
                        Value::CEnum(*final(x)),
                    ),
                    Some(ValueReflection::Vec(b)) => b.store matches RefOrMut::Mut(x) ==> part == Some(
                        Value::Vec(*final(x)),
                    ),
                    Some(ValueReflection::HashMap(b)) => b.entries matches RefOrMut::Mut(x) ==> part == Some(
                        Value::HashMap(*final(x)),
                    ),
                    Some(ValueReflection::Option(b)) => b.slot matches RefOrMut::Mut(x) ==> part == Some(
                        Value::Option(*final(x)),
                    ),
                    Some(ValueReflection::HashSet(b)) => part == Some(Value::HashSet(*b.items)),
                    _ => true,
                }
            }) by {
            if path.len() > 0 {
                let i = path[0];
                let rest = path.skip(1);
                if 0 <= i < view.fields@.len() {
                    assert(sub_view(whole, path) == sub_view(view.fields@[i].value, rest));
                    assert(sub_value(after, path) == sub_value(fin@[i], rest));
                }
            }
        }
    }
    Ok(view)
}

/// The view of a value that can be written through, under the value's
/// descriptor. A set is shown for reading only. Whatever is written
/// through a leaf or a container of the view ends up in the value, at the
/// place that the view's part has in it.
pub fn reflect_value<'a>(v: &'a mut Value, ty: &'a Type) -> (r: Result<
    ValueReflection<'a>,
    ReflectError,
>)
    ensures
        match reflect_error(old(v)@, ty@) {
            None => r is Ok && shows(r->Ok_0, old(v)@, ty@),
            Some(e) => r is Err && r->Err_0 == e,
        },
        r is Ok ==> forall|path: Seq<int>|
            ({
                let part = sub_value(*final(v), path);
                match #[trigger] sub_view(r->Ok_0, path) {
                    Some(ValueReflection::I32(RefOrMut::Mut(x))) => part == Some(Value::I32(*final(x))),
                    Some(ValueReflection::U32(RefOrMut::Mut(x))) => part == Some(Value::U32(*final(x))),
                    Some(ValueReflection::F32(RefOrMut::Mut(x))) => part == Some(Value::F32(*final(x))),
                    Some(ValueReflection::I64(RefOrMut::Mut(x))) => part == Some(Value::I64(*final(x))),
                    Some(ValueReflection::U64(RefOrMut::Mut(x))) => part == Some(Value::U64(*final(x))),
                    Some(ValueReflection::F64(RefOrMut::Mut(x))) => part == Some(Value::F64(*final(x))),
                    Some(ValueReflection::ISize(RefOrMut::Mut(x))) => part == Some(Value::ISize(*final(x))),
                    Some(ValueReflection::USize(RefOrMut::Mut(x))) => part == Some(Value::USize(*final(x))),
                    Some(ValueReflection::Bool(RefOrMut::Mut(x))) => part == Some(Value::Bool(*final(x))),
                    Some(ValueReflection::String(RefOrMut::Mut(x))) => part == Some(Value::String(*final(x))),
                    Some(ValueReflection::CEnum(c)) => c.val matches RefOrMut::Mut(x) ==> part == Some(
                        Value::CEnum(*final(x)),
                    ),
                    Some(ValueReflection::Vec(b)) => b.store matches RefOrMut::Mut(x) ==> part == Some(
                        Value::Vec(*final(x)),
                    ),
                    Some(ValueReflection::HashMap(b)) => b.entries matches RefOrMut::Mut(x) ==> part == Some(
                        Value::HashMap(*final(x)),
                    ),
                    Some(ValueReflection::Option(b)) => b.slot matches RefOrMut::Mut(x) ==> part == Some(
                        Value::Option(*final(x)),
                    ),
                    Some(ValueReflection::HashSet(b)) => part == Some(Value::HashSet(*b.items)),
                    _ => true,
                }
            }),
    decreases *old(v), 0nat,
{
    match (v, ty) {
        (Value::I32(x), Type::I32) => Ok(ValueReflection::I32(RefOrMut::Mut(x))),
        (Value::U32(x), Type::U32) => Ok(ValueReflection::U32(RefOrMut::Mut(x))),
        (Value::F32(x), Type::F32) => Ok(ValueReflection::F32(RefOrMut::Mut(x))),
        (Value::I64(x), Type::I64) => Ok(ValueReflection::I64(RefOrMut::Mut(x))),
        (Value::U64(x), Type::U64) => Ok(ValueReflection::U64(RefOrMut::Mut(x))),
        (Value::F64(x), Type::F64) => Ok(ValueReflection::F64(RefOrMut::Mut(x))),
        (Value::ISize(x), Type::ISize) => Ok(ValueReflection::ISize(RefOrMut::Mut(x))),
        (Value::USize(x), Type::USize) => Ok(ValueReflection::USize(RefOrMut::Mut(x))),
        (Value::Bool(x), Type::Bool) => Ok(ValueReflection::Bool(RefOrMut::Mut(x))),
        (Value::String(x), Type::String) => Ok(ValueReflection::String(RefOrMut::Mut(x))),
        (Value::CEnum(x), Type::CEnum(e)) => Ok(
            ValueReflection::CEnum(
                Box::new(
                    CEnumReflection {
                        name: e.name.as_str(),
                        val: RefOrMut::Mut(x),
                        variants: &e.variants,
                        mirror: e,
                    },
                ),
            ),
        ),
        (Value::Struct(vals), Type::Struct(s)) => {
            let ghost fin = *final(vals);
            match reflect_struct(vals, s) {
                Ok(view) => {
                    let whole = ValueReflection::Struct(Box::new(view));
                    proof {
                        let after = Value::Struct(fin);
                        assert forall|path: Seq<int>|
                            ({
                                let part = sub_value(after, path);
                                match #[trigger] sub_view(whole, path) {
                                    Some(ValueReflection::I32(RefOrMut::Mut(x))) => part == Some(Value::I32(*final(x))),
                                    Some(ValueReflection::U32(RefOrMut::Mut(x))) => part == Some(Value::U32(*final(x))),
                                    Some(ValueReflection::F32(RefOrMut::Mut(x))) => part == Some(Value::F32(*final(x))),
                                    Some(ValueReflection::I64(RefOrMut::Mut(x))) => part == Some(Value::I64(*final(x))),
                                    Some(ValueReflection::U64(RefOrMut::Mut(x))) => part == Some(Value::U64(*final(x))),
                                    Some(ValueReflection::F64(RefOrMut::Mut(x))) => part == Some(Value::F64(*final(x))),
                                    Some(ValueReflection::ISize(RefOrMut::Mut(x))) => part == Some(Value::ISize(*final(x))),
                                    Some(ValueReflection::USize(RefOrMut::Mut(x))) => part == Some(Value::USize(*final(x))),
                                    Some(ValueReflection::Bool(RefOrMut::Mut(x))) => part == Some(Value::Bool(*final(x))),
                                    Some(ValueReflection::String(RefOrMut::Mut(x))) => part == Some(Value::String(*final(x))),
                                    Some(ValueReflection::CEnum(c)) => c.val matches RefOrMut::Mut(x) ==> part == Some(
                                        Value::CEnum(*final(x)),
                                    ),
                                    Some(ValueReflection::Vec(b)) => b.store matches RefOrMut::Mut(x) ==> part == Some(
                                        Value::Vec(*final(x)),
                                    ),
                                    Some(ValueReflection::HashMap(b)) => b.entries matches RefOrMut::Mut(x) ==> part == Some(
                                        Value::HashMap(*final(x)),
                                    ),
                                    Some(ValueReflection::Option(b)) => b.slot matches RefOrMut::Mut(x) ==> part == Some(
                                        Value::Option(*final(x)),
                                    ),
                                    Some(ValueReflection::HashSet(b)) => part == Some(Value::HashSet(*b.items)),
                                    _ => true,
                                }
                            }) by {}
                    }
                    Ok(whole)
                },
                Err(e) => Err(e),
            }
        },
        (Value::RustEnum(idx, vals), Type::RustEnum(e)) => {
            let ghost fin = *final(vals);
            let at: usize = *idx;
            match reflect_enum(at, vals, e) {
                Ok(view) => {
                    let whole = ValueReflection::RustEnum(view);
                    proof {
                        let after = Value::RustEnum(at, fin);
                        assert forall|path: Seq<int>|
                            ({
                                let part = sub_value(after, path);
                                match #[trigger] sub_view(whole, path) {
                                    Some(ValueReflection::I32(RefOrMut::Mut(x))) => part == Some(Value::I32(*final(x))),
                                    Some(ValueReflection::U32(RefOrMut::Mut(x))) => part == Some(Value::U32(*final(x))),
                                    Some(ValueReflection::F32(RefOrMut::Mut(x))) => part == Some(Value::F32(*final(x))),
                                    Some(ValueReflection::I64(RefOrMut::Mut(x))) => part == Some(Value::I64(*final(x))),
                                    Some(ValueReflection::U64(RefOrMut::Mut(x))) => part == Some(Value::U64(*final(x))),
                                    Some(ValueReflection::F64(RefOrMut::Mut(x))) => part == Some(Value::F64(*final(x))),
                                    Some(ValueReflection::ISize(RefOrMut::Mut(x))) => part == Some(Value::ISize(*final(x))),
                                    Some(ValueReflection::USize(RefOrMut::Mut(x))) => part == Some(Value::USize(*final(x))),
                                    Some(ValueReflection::Bool(RefOrMut::Mut(x))) => part == Some(Value::Bool(*final(x))),
                                    Some(ValueReflection::String(RefOrMut::Mut(x))) => part == Some(Value::String(*final(x))),
                                    Some(ValueReflection::CEnum(c)) => c.val matches RefOrMut::Mut(x) ==> part == Some(
                                        Value::CEnum(*final(x)),
                                    ),
                                    Some(ValueReflection::Vec(b)) => b.store matches RefOrMut::Mut(x) ==> part == Some(
                                        Value::Vec(*final(x)),
                                    ),
                                    Some(ValueReflection::HashMap(b)) => b.entries matches RefOrMut::Mut(x) ==> part == Some(
                                        Value::HashMap(*final(x)),
                                    ),
                                    Some(ValueReflection::Option(b)) => b.slot matches RefOrMut::Mut(x) ==> part == Some(
                                        Value::Option(*final(x)),
                                    ),
                                    Some(ValueReflection::HashSet(b)) => part == Some(Value::HashSet(*b.items)),
                                    _ => true,
                                }
                            }) by {}
                    }
                    Ok(whole)
                },
                Err(e) => Err(e),
            }
        },
        (Value::Vec(store), Type::Vec(t)) => Ok(
            ValueReflection::Vec(Box::new(VecReflection { mirror: t, store: RefOrMut::Mut(store) })),
        ),
        (Value::HashMap(entries), Type::HashMap(t)) => Ok(
            ValueReflection::HashMap(
                Box::new(HMReflection { mirror: t, entries: RefOrMut::Mut(entries) }),
            ),
        ),
        (Value::HashSet(items), Type::HashSet(t)) => Ok(
            ValueReflection::HashSet(Box::new(HSReflection { mirror: t, items })),
        ),
        (Value::Option(slot), Type::Option(t)) => Ok(
            ValueReflection::Option(
                Box::new(OptionReflection { mirror: t, slot: RefOrMut::Mut(slot) }),
            ),
        ),
        (Value::Box(inner), Type::Box(t)) => {
            let ghost fin = *final(inner);
            match reflect_value(inner, &t.inner) {
                Ok(view) => {
                    let whole = ValueReflection::Box(Box::new(BoxReflection { inner: view }));
                    proof {
                        let after = Value::Box(fin);
                        assert forall|path: Seq<int>|
                            ({
                                let part = sub_value(after, path);
                                match #[trigger] sub_view(whole, path) {
                                    Some(ValueReflection::I32(RefOrMut::Mut(x))) => part == Some(Value::I32(*final(x))),
                                    Some(ValueReflection::U32(RefOrMut::Mut(x))) => part == Some(Value::U32(*final(x))),
                                    Some(ValueReflection::F32(RefOrMut::Mut(x))) => part == Some(Value::F32(*final(x))),
                                    Some(ValueReflection::I64(RefOrMut::Mut(x))) => part == Some(Value::I64(*final(x))),
                                    Some(ValueReflection::U64(RefOrMut::Mut(x))) => part == Some(Value::U64(*final(x))),
                                    Some(ValueReflection::F64(RefOrMut::Mut(x))) => part == Some(Value::F64(*final(x))),
                                    Some(ValueReflection::ISize(RefOrMut::Mut(x))) => part == Some(Value::ISize(*final(x))),
                                    Some(ValueReflection::USize(RefOrMut::Mut(x))) => part == Some(Value::USize(*final(x))),
                                    Some(ValueReflection::Bool(RefOrMut::Mut(x))) => part == Some(Value::Bool(*final(x))),
                                    Some(ValueReflection::String(RefOrMut::Mut(x))) => part == Some(Value::String(*final(x))),
                                    Some(ValueReflection::CEnum(c)) => c.val matches RefOrMut::Mut(x) ==> part == Some(
                                        Value::CEnum(*final(x)),
                                    ),
                                    Some(ValueReflection::Vec(b)) => b.store matches RefOrMut::Mut(x) ==> part == Some(
                                        Value::Vec(*final(x)),
                                    ),
                                    Some(ValueReflection::HashMap(b)) => b.entries matches RefOrMut::Mut(x) ==> part == Some(
                                        Value::HashMap(*final(x)),
                                    ),
                                    Some(ValueReflection::Option(b)) => b.slot matches RefOrMut::Mut(x) ==> part == Some(
                                        Value::Option(*final(x)),
                                    ),
                                    Some(ValueReflection::HashSet(b)) => part == Some(Value::HashSet(*b.items)),
                                    _ => true,
                                }
                            }) by {
                            if path.len() > 0 && path[0] == 0 {
                                let rest = path.skip(1);
                                assert(sub_view(whole, path) == sub_view(view, rest));
                                assert(sub_value(after, path) == sub_value(*fin, rest));
                            }
                        }
                    }
                    Ok(whole)
                },
                Err(e) => Err(e),
            }
        },
        _ => Err(ReflectError::Mismatch),
    }
}

/// The view of a value that can be written through, under the value's
/// descriptor. Whatever is written through a leaf or a container of the
/// view ends up in the value, at the place that the view's part has in it.
pub fn reflect<'a>(val: &'a mut Value, mirror: &'a Type) -> (r: Result<
    ValueReflection<'a>,
    ReflectError,
>)
    ensures
        match reflect_error(old(val)@, mirror@) {
            None => r is Ok && shows(r->Ok_0, old(val)@, mirror@),
            Some(e) => r is Err && r->Err_0 == e,
        },
        r is Ok ==> forall|path: Seq<int>|
            ({
                let part = sub_value(*final(val), path);
                match #[trigger] sub_view(r->Ok_0, path) {
                    Some(ValueReflection::I32(RefOrMut::Mut(x))) => part == Some(Value::I32(*final(x))),
                    Some(ValueReflection::U32(RefOrMut::Mut(x))) => part == Some(Value::U32(*final(x))),
                    Some(ValueReflection::F32(RefOrMut::Mut(x))) => part == Some(Value::F32(*final(x))),
                    Some(ValueReflection::I64(RefOrMut::Mut(x))) => part == Some(Value::I64(*final(x))),
                    Some(ValueReflection::U64(RefOrMut::Mut(x))) => part == Some(Value::U64(*final(x))),
                    Some(ValueReflection::F64(RefOrMut::Mut(x))) => part == Some(Value::F64(*final(x))),
                    Some(ValueReflection::ISize(RefOrMut::Mut(x))) => part == Some(Value::ISize(*final(x))),
                    Some(ValueReflection::USize(RefOrMut::Mut(x))) => part == Some(Value::USize(*final(x))),
                    Some(ValueReflection::Bool(RefOrMut::Mut(x))) => part == Some(Value::Bool(*final(x))),
                    Some(ValueReflection::String(RefOrMut::Mut(x))) => part == Some(Value::String(*final(x))),
                    Some(ValueReflection::CEnum(c)) => c.val matches RefOrMut::Mut(x) ==> part == Some(
                        Value::CEnum(*final(x)),
                    ),
                    Some(ValueReflection::Vec(b)) => b.store matches RefOrMut::Mut(x) ==> part == Some(
                        Value::Vec(*final(x)),
                    ),
                    Some(ValueReflection::HashMap(b)) => b.entries matches RefOrMut::Mut(x) ==> part == Some(
                        Value::HashMap(*final(x)),
                    ),
                    Some(ValueReflection::Option(b)) => b.slot matches RefOrMut::Mut(x) ==> part == Some(
                        Value::Option(*final(x)),
                    ),
                    Some(ValueReflection::HashSet(b)) => part == Some(Value::HashSet(*b.items)),
                    _ => true,
                }
            }),
{
    reflect_value(val, mirror)
}

impl<'a> VecReflection<'a> {
    /// The view of the element at `index` that can be written through,
    /// reached through the table. A read-only view of a sequence hands
    /// out no such view.
    pub fn get(&mut self, index: usize) -> (r: Result<ValueReflection<'_>, ReflectError>)
        ensures
            old(self).store is Ref || old(self).mirror.closed() ==> r is Err
                && r->Err_0 == ReflectError::NotSupported,
            old(self).store is Mut && !old(self).mirror.closed() && index
                >= old(self).store.target().count() ==> r is Err && r->Err_0
                == ReflectError::OutOfBounds,
            old(self).store is Mut && !old(self).mirror.closed() && index
                < old(self).store.target().count() ==> (match reflect_error(
                old(self).store.target().items@[index as int]@,
                old(self).mirror.element@,
            ) {
                None => r is Ok && shows(
                    r->Ok_0,
                    old(self).store.target().items@[index as int]@,
                    old(self).mirror.element@,
                ),
                Some(e) => r is Err && r->Err_0 == e,
            }),
            r is Ok ==> final(self).mirror == old(self).mirror && final(self).store is Mut,
            r is Ok ==> final(self).store.target().len == old(self).store.target().len,
            r is Ok ==> final(self).store.target().cap == old(self).store.target().cap,
            r is Ok ==> final(self).store.target().items@.len() == old(
                self,
            ).store.target().items@.len(),
            r is Ok ==> forall|k: int|
                0 <= k < old(self).store.target().items@.len() && k != index ==> final(self)
                    .store.target().items@[k] == old(self).store.target().items@[k],
            r is Ok ==> forall|path: Seq<int>|
                ({
                    let part = sub_value(final(self).store.target().items@[index as int], path);
                    match #[trigger] sub_view(r->Ok_0, path) {
                        Some(ValueReflection::I32(RefOrMut::Mut(x))) => part == Some(Value::I32(*final(x))),
                        Some(ValueReflection::U32(RefOrMut::Mut(x))) => part == Some(Value::U32(*final(x))),
                        Some(ValueReflection::F32(RefOrMut::Mut(x))) => part == Some(Value::F32(*final(x))),
                        Some(ValueReflection::I64(RefOrMut::Mut(x))) => part == Some(Value::I64(*final(x))),
                        Some(ValueReflection::U64(RefOrMut::Mut(x))) => part == Some(Value::U64(*final(x))),
                        Some(ValueReflection::F64(RefOrMut::Mut(x))) => part == Some(Value::F64(*final(x))),
                        Some(ValueReflection::ISize(RefOrMut::Mut(x))) => part == Some(Value::ISize(*final(x))),
                        Some(ValueReflection::USize(RefOrMut::Mut(x))) => part == Some(Value::USize(*final(x))),
                        Some(ValueReflection::Bool(RefOrMut::Mut(x))) => part == Some(Value::Bool(*final(x))),
                        Some(ValueReflection::String(RefOrMut::Mut(x))) => part == Some(Value::String(*final(x))),
                        Some(ValueReflection::CEnum(c)) => c.val matches RefOrMut::Mut(x) ==> part == Some(
                            Value::CEnum(*final(x)),
                        ),
                        Some(ValueReflection::Vec(b)) => b.store matches RefOrMut::Mut(x) ==> part == Some(
                            Value::Vec(*final(x)),
                        ),
                        Some(ValueReflection::HashMap(b)) => b.entries matches RefOrMut::Mut(x) ==> part == Some(
                            Value::HashMap(*final(x)),
                        ),
                        Some(ValueReflection::Option(b)) => b.slot matches RefOrMut::Mut(x) ==> part == Some(
                            Value::Option(*final(x)),
                        ),
                        Some(ValueReflection::HashSet(b)) => part == Some(Value::HashSet(*b.items)),
                        _ => true,
                    }
                }),
    {
        if self.mirror.skip {
            return Err(ReflectError::NotSupported);
        }
        match &mut self.store {
            RefOrMut::Ref(_) => Err(ReflectError::NotSupported),
            RefOrMut::Mut(store) => match self.mirror.vtable.get_elem(store, index) {
                Err(e) => Err(e),
                Ok(elem) => reflect_value(elem, &self.mirror.element),
            },
        }
    }
}

impl<'a> OptionReflection<'a> {
    /// The view of what the optional value holds that can be written
    /// through, reached through the table. A read-only view of an
    /// optional value hands out no such view.
    pub fn get(&mut self) -> (r: Result<Option<ValueReflection<'_>>, ReflectError>)
        ensures
            old(self).slot is Ref || old(self).mirror.closed() ==> r is Err
                && r->Err_0 == ReflectError::NotSupported,
            old(self).slot is Mut && !old(self).mirror.closed() ==> (
            match old(self).slot.target() {
                None => r is Ok && r->Ok_0 is None,
                Some(b) => match reflect_error(b@, old(self).mirror.element@) {
                    None => r is Ok && r->Ok_0 is Some && shows(
                        r->Ok_0->Some_0,
                        b@,
                        old(self).mirror.element@,
                    ),
                    Some(e) => r is Err && r->Err_0 == e,
                },
            }),
            r is Ok ==> final(self).mirror == old(self).mirror && final(self).slot is Mut,
            r is Ok && r->Ok_0 is None ==> final(self).slot.target() is None,
            r is Ok && r->Ok_0 is Some ==> final(self).slot.target() is Some && forall|
                path: Seq<int>,
            |
                ({
                    let part = sub_value(*final(self).slot.target()->Some_0, path);
                    match #[trigger] sub_view(r->Ok_0->Some_0, path) {
                        Some(ValueReflection::I32(RefOrMut::Mut(x))) => part == Some(Value::I32(*final(x))),
                        Some(ValueReflection::U32(RefOrMut::Mut(x))) => part == Some(Value::U32(*final(x))),
                        Some(ValueReflection::F32(RefOrMut::Mut(x))) => part == Some(Value::F32(*final(x))),
                        Some(ValueReflection::I64(RefOrMut::Mut(x))) => part == Some(Value::I64(*final(x))),
                        Some(ValueReflection::U64(RefOrMut::Mut(x))) => part == Some(Value::U64(*final(x))),
                        Some(ValueReflection::F64(RefOrMut::Mut(x))) => part == Some(Value::F64(*final(x))),
                        Some(ValueReflection::ISize(RefOrMut::Mut(x))) => part == Some(Value::ISize(*final(x))),
                        Some(ValueReflection::USize(RefOrMut::Mut(x))) => part == Some(Value::USize(*final(x))),
                        Some(ValueReflection::Bool(RefOrMut::Mut(x))) => part == Some(Value::Bool(*final(x))),
                        Some(ValueReflection::String(RefOrMut::Mut(x))) => part == Some(Value::String(*final(x))),
                        Some(ValueReflection::CEnum(c)) => c.val matches RefOrMut::Mut(x) ==> part == Some(
                            Value::CEnum(*final(x)),
                        ),
                        Some(ValueReflection::Vec(b)) => b.store matches RefOrMut::Mut(x) ==> part == Some(
                            Value::Vec(*final(x)),
                        ),
                        Some(ValueReflection::HashMap(b)) => b.entries matches RefOrMut::Mut(x) ==> part == Some(
                            Value::HashMap(*final(x)),
                        ),
                        Some(ValueReflection::Option(b)) => b.slot matches RefOrMut::Mut(x) ==> part == Some(
                            Value::Option(*final(x)),
                        ),
                        Some(ValueReflection::HashSet(b)) => part == Some(Value::HashSet(*b.items)),
                        _ => true,
                    }
                }),
    {
        if self.mirror.skip {
            return Err(ReflectError::NotSupported);
        }
        match &mut self.slot {
            RefOrMut::Ref(_) => Err(ReflectError::NotSupported),
            RefOrMut::Mut(slot) => match self.mirror.vtable.get_elem(slot) {
                Err(e) => Err(e),
                Ok(None) => Ok(None),
                Ok(Some(inner)) => match reflect_value(inner, &self.mirror.element) {
                    Err(e) => Err(e),
                    Ok(view) => Ok(Some(view)),
                },
            },
        }
    }
}

impl<'a> HMReflection<'a> {
    /// Views of all entries, in the order in which the mapping yields
    /// them: every key for reading, every value for writing. A read-only
    /// view of a mapping hands out no such views.
    #[verifier::loop_isolation(false)]
    pub fn get_elements(&mut self) -> (r: Result<Vec<HMEntryView<'_>>, ReflectError>)
        ensures
            old(self).entries is Ref || old(self).mirror.closed() ==> r
                is Err && r->Err_0 == ReflectError::NotSupported,
            r is Ok ==> r->Ok_0@.len() == old(self).entries.target()@.len() && (forall|i: int|
                0 <= i < r->Ok_0@.len() ==> reflects(
                    (#[trigger] r->Ok_0@[i]).key,
                    old(self).entries.target()@[i].0@,
                    old(self).mirror.key@,
                ) && shows(
                    r->Ok_0@[i].value,
                    old(self).entries.target()@[i].1@,
                    old(self).mirror.value@,
                )),
            old(self).entries is Mut && !old(self).mirror.closed() ==> (r
                is Ok <==> forall|i: int|
                0 <= i < old(self).entries.target()@.len() ==> reflect_error(
                    (#[trigger] old(self).entries.target()@[i]).0@,
                    old(self).mirror.key@,
                ) is None && reflect_error(
                    old(self).entries.target()@[i].1@,
                    old(self).mirror.value@,
                ) is None),
            old(self).entries is Mut && !old(self).mirror.closed() && r is Err ==> r->Err_0
                == ReflectError::Mismatch,
            r is Ok ==> final(self).mirror == old(self).mirror && final(self).entries is Mut
                && final(self).entries.target()@.len() == old(self).entries.target()@.len(),
            r is Ok ==> forall|i: int|
                0 <= i < old(self).entries.target()@.len() ==> (#[trigger] final(self)
                    .entries.target()@[i]).0 == old(self).entries.target()@[i].0,
            r is Ok ==> forall|i: int, path: Seq<int>|
                0 <= i < old(self).entries.target()@.len() ==> ({
                    let part = sub_value(final(self).entries.target()@[i].1, path);
                    match #[trigger] sub_view(r->Ok_0@[i].value, path) {
                        Some(ValueReflection::I32(RefOrMut::Mut(x))) => part == Some(Value::I32(*final(x))),
                        Some(ValueReflection::U32(RefOrMut::Mut(x))) => part == Some(Value::U32(*final(x))),
                        Some(ValueReflection::F32(RefOrMut::Mut(x))) => part == Some(Value::F32(*final(x))),
                        Some(ValueReflection::I64(RefOrMut::Mut(x))) => part == Some(Value::I64(*final(x))),
                        Some(ValueReflection::U64(RefOrMut::Mut(x))) => part == Some(Value::U64(*final(x))),
                        Some(ValueReflection::F64(RefOrMut::Mut(x))) => part == Some(Value::F64(*final(x))),
                        Some(ValueReflection::ISize(RefOrMut::Mut(x))) => part == Some(Value::ISize(*final(x))),
                        Some(ValueReflection::USize(RefOrMut::Mut(x))) => part == Some(Value::USize(*final(x))),
                        Some(ValueReflection::Bool(RefOrMut::Mut(x))) => part == Some(Value::Bool(*final(x))),
                        Some(ValueReflection::String(RefOrMut::Mut(x))) => part == Some(Value::String(*final(x))),
                        Some(ValueReflection::CEnum(c)) => c.val matches RefOrMut::Mut(x) ==> part == Some(
                            Value::CEnum(*final(x)),
                        ),
                        Some(ValueReflection::Vec(b)) => b.store matches RefOrMut::Mut(x) ==> part == Some(
                            Value::Vec(*final(x)),
                        ),
                        Some(ValueReflection::HashMap(b)) => b.entries matches RefOrMut::Mut(x) ==> part == Some(
                            Value::HashMap(*final(x)),
                        ),
                        Some(ValueReflection::Option(b)) => b.slot matches RefOrMut::Mut(x) ==> part == Some(
                            Value::Option(*final(x)),
                        ),
                        Some(ValueReflection::HashSet(b)) => part == Some(Value::HashSet(*b.items)),
                        _ => true,
                    }
                }),
    {
        if self.mirror.skip {
            return Err(ReflectError::NotSupported);
        }
        let ghost all = self.entries.target()@;
        let ghost fin = final(self).entries.target()@;
        let key_t: &Type = &self.mirror.key;
        let value_t: &Type = &self.mirror.value;
        let mut pairs: Vec<(&Value, &mut Value)> = match &mut self.entries {
            RefOrMut::Ref(_) => {
                return Err(ReflectError::NotSupported);
            },
            RefOrMut::Mut(entries) => match self.mirror.vtable.get_elements(entries) {
                Err(e) => {
                    return Err(e);
                },
                Ok(pairs) => pairs,
            },
        };
        let n: usize = pairs.len();
        let mut back: Vec<HMEntryView<'_>> = Vec::new();
        while pairs.len() > 0
            invariant
                pairs@.len() + back@.len() == n,
                n == all.len(),
                fin.len() == n,
                forall|i: int| 0 <= i < n ==> (#[trigger] fin[i]).0 == all[i].0,
                forall|i: int|
                    0 <= i < pairs@.len() ==> (#[trigger] fin[i]).1 == *final(pairs@[i].1),
                forall|j: int, path: Seq<int>|
                    0 <= j < back@.len() ==> ({
                        let part = sub_value(fin[n - 1 - j].1, path);
                        match #[trigger] sub_view(back@[j].value, path) {
                            Some(ValueReflection::I32(RefOrMut::Mut(x))) => part == Some(Value::I32(*final(x))),
                            Some(ValueReflection::U32(RefOrMut::Mut(x))) => part == Some(Value::U32(*final(x))),
                            Some(ValueReflection::F32(RefOrMut::Mut(x))) => part == Some(Value::F32(*final(x))),
                            Some(ValueReflection::I64(RefOrMut::Mut(x))) => part == Some(Value::I64(*final(x))),
                            Some(ValueReflection::U64(RefOrMut::Mut(x))) => part == Some(Value::U64(*final(x))),
                            Some(ValueReflection::F64(RefOrMut::Mut(x))) => part == Some(Value::F64(*final(x))),
                            Some(ValueReflection::ISize(RefOrMut::Mut(x))) => part == Some(Value::ISize(*final(x))),
                            Some(ValueReflection::USize(RefOrMut::Mut(x))) => part == Some(Value::USize(*final(x))),
                            Some(ValueReflection::Bool(RefOrMut::Mut(x))) => part == Some(Value::Bool(*final(x))),
                            Some(ValueReflection::String(RefOrMut::Mut(x))) => part == Some(Value::String(*final(x))),
                            Some(ValueReflection::CEnum(c)) => c.val matches RefOrMut::Mut(x) ==> part == Some(
                                Value::CEnum(*final(x)),
                            ),
                            Some(ValueReflection::Vec(b)) => b.store matches RefOrMut::Mut(x) ==> part == Some(
                                Value::Vec(*final(x)),
                            ),
                            Some(ValueReflection::HashMap(b)) => b.entries matches RefOrMut::Mut(x) ==> part == Some(
                                Value::HashMap(*final(x)),
                            ),
                            Some(ValueReflection::Option(b)) => b.slot matches RefOrMut::Mut(x) ==> part == Some(
                                Value::Option(*final(x)),
                            ),
                            Some(ValueReflection::HashSet(b)) => part == Some(Value::HashSet(*b.items)),
                            _ => true,
                        }
                    }),
                forall|i: int|
                    0 <= i < pairs@.len() ==> *(#[trigger] pairs@[i]).0 == all[i].0
                        && *pairs@[i].1 == all[i].1,
                forall|j: int|
                    0 <= j < back@.len() ==> reflects(
                        (#[trigger] back@[j]).key,
                        all[n - 1 - j].0@,
                        key_t@,
                    ) && shows(back@[j].value, all[n - 1 - j].1@, value_t@),
                forall|i: int|
                    pairs@.len() <= i < n ==> reflect_error((#[trigger] all[i]).0@, key_t@)
                        is None && reflect_error(all[i].1@, value_t@) is None,
            decreases pairs.len(),
        {
            let ghost at = pairs@.len() - 1;
            match pairs.pop() {
                None => {},
                Some((k, v)) => {
                    let key: ValueReflection<'_> = match reflect_value_ref(k, key_t) {
                        Err(e) => {
                            proof {
                                lemma_reflect_error_kind(all[at].0@, key_t@);
                            }
                            assert(reflect_error(all[at].0@, key_t@) is Some);
                            return Err(e);
                        },
                        Ok(view) => view,
                    };
                    let value: ValueReflection<'_> = match reflect_value(v, value_t) {
                        Err(e) => {
                            proof {
                                lemma_reflect_error_kind(all[at].1@, value_t@);
                            }
                            assert(reflect_error(all[at].1@, value_t@) is Some);
                            return Err(e);
                        },
                        Ok(view) => view,
                    };
                    back.push(HMEntryView { key, value, key_t, value_t });
                },
            }
        }
        let mut out: Vec<HMEntryView<'_>> = Vec::new();
        while back.len() > 0
            invariant
                out@.len() + back@.len() == n,
                forall|j: int, path: Seq<int>|
                    0 <= j < back@.len() ==> ({
                        let part = sub_value(fin[n - 1 - j].1, path);
                        match #[trigger] sub_view(back@[j].value, path) {
                            Some(ValueReflection::I32(RefOrMut::Mut(x))) => part == Some(Value::I32(*final(x))),
                            Some(ValueReflection::U32(RefOrMut::Mut(x))) => part == Some(Value::U32(*final(x))),
                            Some(ValueReflection::F32(RefOrMut::Mut(x))) => part == Some(Value::F32(*final(x))),
                            Some(ValueReflection::I64(RefOrMut::Mut(x))) => part == Some(Value::I64(*final(x))),
                            Some(ValueReflection::U64(RefOrMut::Mut(x))) => part == Some(Value::U64(*final(x))),
                            Some(ValueReflection::F64(RefOrMut::Mut(x))) => part == Some(Value::F64(*final(x))),
                            Some(ValueReflection::ISize(RefOrMut::Mut(x))) => part == Some(Value::ISize(*final(x))),
                            Some(ValueReflection::USize(RefOrMut::Mut(x))) => part == Some(Value::USize(*final(x))),
                            Some(ValueReflection::Bool(RefOrMut::Mut(x))) => part == Some(Value::Bool(*final(x))),
                            Some(ValueReflection::String(RefOrMut::Mut(x))) => part == Some(Value::String(*final(x))),
                            Some(ValueReflection::CEnum(c)) => c.val matches RefOrMut::Mut(x) ==> part == Some(
                                Value::CEnum(*final(x)),
                            ),
                            Some(ValueReflection::Vec(b)) => b.store matches RefOrMut::Mut(x) ==> part == Some(
                                Value::Vec(*final(x)),
                            ),
                            Some(ValueReflection::HashMap(b)) => b.entries matches RefOrMut::Mut(x) ==> part == Some(
                                Value::HashMap(*final(x)),
                            ),
                            Some(ValueReflection::Option(b)) => b.slot matches RefOrMut::Mut(x) ==> part == Some(
                                Value::Option(*final(x)),
                            ),
                            Some(ValueReflection::HashSet(b)) => part == Some(Value::HashSet(*b.items)),
                            _ => true,
                        }
                    }),
                forall|i: int, path: Seq<int>|
                    0 <= i < out@.len() ==> ({
                        let part = sub_value(fin[i].1, path);
                        match #[trigger] sub_view(out@[i].value, path) {
                            Some(ValueReflection::I32(RefOrMut::Mut(x))) => part == Some(Value::I32(*final(x))),
                            Some(ValueReflection::U32(RefOrMut::Mut(x))) => part == Some(Value::U32(*final(x))),
                            Some(ValueReflection::F32(RefOrMut::Mut(x))) => part == Some(Value::F32(*final(x))),
                            Some(ValueReflection::I64(RefOrMut::Mut(x))) => part == Some(Value::I64(*final(x))),
                            Some(ValueReflection::U64(RefOrMut::Mut(x))) => part == Some(Value::U64(*final(x))),
                            Some(ValueReflection::F64(RefOrMut::Mut(x))) => part == Some(Value::F64(*final(x))),
                            Some(ValueReflection::ISize(RefOrMut::Mut(x))) => part == Some(Value::ISize(*final(x))),
                            Some(ValueReflection::USize(RefOrMut::Mut(x))) => part == Some(Value::USize(*final(x))),
                            Some(ValueReflection::Bool(RefOrMut::Mut(x))) => part == Some(Value::Bool(*final(x))),
                            Some(ValueReflection::String(RefOrMut::Mut(x))) => part == Some(Value::String(*final(x))),
                            Some(ValueReflection::CEnum(c)) => c.val matches RefOrMut::Mut(x) ==> part == Some(
                                Value::CEnum(*final(x)),
                            ),
                            Some(ValueReflection::Vec(b)) => b.store matches RefOrMut::Mut(x) ==> part == Some(
                                Value::Vec(*final(x)),
                            ),
                            Some(ValueReflection::HashMap(b)) => b.entries matches RefOrMut::Mut(x) ==> part == Some(
                                Value::HashMap(*final(x)),
                            ),
                            Some(ValueReflection::Option(b)) => b.slot matches RefOrMut::Mut(x) ==> part == Some(
                                Value::Option(*final(x)),
                            ),
                            Some(ValueReflection::HashSet(b)) => part == Some(Value::HashSet(*b.items)),
                            _ => true,
                        }
                    }),
                forall|j: int|
                    0 <= j < back@.len() ==> reflects(
                        (#[trigger] back@[j]).key,
                        all[n - 1 - j].0@,
                        key_t@,
                    ) && shows(back@[j].value, all[n - 1 - j].1@, value_t@),
                forall|i: int|
                    0 <= i < out@.len() ==> reflects((#[trigger] out@[i]).key, all[i].0@, key_t@)
                        && shows(out@[i].value, all[i].1@, value_t@),
            decreases back.len(),
        {
            match back.pop() {
                None => {},
                Some(view) => {
                    out.push(view);
                },
            }
        }
        Ok(out)
    }
}

} // verus!
