//! Building a read-only view of a value: the value is only borrowed, and
//! nothing can be written through any leaf of the view.

use vstd::prelude::*;
use crate::descriptor::{
    Field,
    FieldView,
    RustEnum,
    Struct,
    Type,
    TypeView,
    field_views,
    lemma_field_views,
    lemma_variant_field_views,
    lemma_variant_views,
    variant_field_views,
};
use crate::error::ReflectError;
use crate::reflections::{
    BoxReflection,
    CEnumReflection,
    FieldReflection,
    HMEntryView,
    HMReflection,
    HSReflection,
    OptionReflection,
    RefOrMut,
    RustEnumReflection,
    StructReflection,
    ValueReflection,
    VecReflection,
    field_values,
    lemma_field_values,
    refl_read_only,
    refl_type,
    refl_value,
    refl_wf,
};
use crate::table::TableKind;
use crate::value::{Value, ValueView, lemma_value_views, value_views};

verus! {

/// Whether a view of a value can be built under a descriptor: `Mismatch`
/// where the value does not have the described shape as far as the view
/// is built at once, that is down to the containers.
pub open spec fn reflect_error(v: ValueView, ty: TypeView) -> Option<ReflectError>
    decreases v,
{
    match (v, ty) {
        (ValueView::I32(_), TypeView::I32) => None,
        (ValueView::U32(_), TypeView::U32) => None,
        (ValueView::I64(_), TypeView::I64) => None,
        (ValueView::U64(_), TypeView::U64) => None,
        (ValueView::ISize(_), TypeView::ISize) => None,
        (ValueView::USize(_), TypeView::USize) => None,
        (ValueView::F32(_), TypeView::F32) => None,
        (ValueView::F64(_), TypeView::F64) => None,
        (ValueView::Bool(_), TypeView::Bool) => None,
        (ValueView::String(_), TypeView::String) => None,
        (ValueView::CEnum(_), TypeView::CEnum { .. }) => None,
        (ValueView::Vec(_), TypeView::Vec { .. }) => None,
        (ValueView::HashSet(_), TypeView::HashSet { .. }) => None,
        (ValueView::HashMap(_), TypeView::HashMap { .. }) => None,
        (ValueView::Option(_), TypeView::Option { .. }) => None,
        (ValueView::Struct(vals), TypeView::Struct { fields, .. }) => if vals.len()
            != fields.len() {
            Some(ReflectError::Mismatch)
        } else {
            reflect_fields_error(vals, fields, 0)
        },
        (ValueView::RustEnum(idx, vals), TypeView::RustEnum { variants, .. }) => if idx
            >= variants.len() || vals.len() != variants[idx as int].fields.len() {
            Some(ReflectError::Mismatch)
        } else {
            reflect_fields_error(vals, variants[idx as int].fields, 0)
        },
        (ValueView::Box(inner), TypeView::Box { inner: inner_ty }) => reflect_error(
            *inner,
            *inner_ty,
        ),
        _ => Some(ReflectError::Mismatch),
    }
}

/// Whether views of the fields from the `k`-th on can be built.
pub open spec fn reflect_fields_error(vals: Seq<ValueView>, fields: Seq<FieldView>, k: nat) -> Option<
    ReflectError,
>
    decreases vals, vals.len() - k,
{
    if k >= vals.len() || k >= fields.len() {
        None
    } else {
        match reflect_error(vals[k as int], fields[k as int].ty) {
            Some(e) => Some(e),
            None => reflect_fields_error(vals, fields, k + 1),
        }
    }
}

/// Building a view fails in one way only: the value does not have the
/// described shape.
pub proof fn lemma_reflect_error_kind(v: ValueView, ty: TypeView)
    ensures
        reflect_error(v, ty) is Some ==> reflect_error(v, ty) == Some(ReflectError::Mismatch),
    decreases v, 1nat,
{
    match (v, ty) {
        (ValueView::Struct(vals), TypeView::Struct { fields, .. }) => {
            lemma_reflect_fields_error_kind(vals, fields, 0);
        },
        (ValueView::RustEnum(idx, vals), TypeView::RustEnum { variants, .. }) => {
            if idx < variants.len() {
                lemma_reflect_fields_error_kind(vals, variants[idx as int].fields, 0);
            }
        },
        (ValueView::Box(inner), TypeView::Box { inner: inner_ty }) => {
            lemma_reflect_error_kind(*inner, *inner_ty);
        },
        _ => {},
    }
}

/// Building the views of fields fails in one way only.
pub proof fn lemma_reflect_fields_error_kind(
    vals: Seq<ValueView>,
    fields: Seq<FieldView>,
    k: nat,
)
    ensures
        reflect_fields_error(vals, fields, k) is Some ==> reflect_fields_error(vals, fields, k)
            == Some(ReflectError::Mismatch),
    decreases vals, vals.len() - k,
{
    if k < vals.len() && k < fields.len() {
        lemma_reflect_error_kind(vals[k as int], fields[k as int].ty);
        lemma_reflect_fields_error_kind(vals, fields, k + 1);
    }
}

/// Whether a view is the read-only view of a value under a descriptor.
pub open spec fn reflects(r: ValueReflection, v: ValueView, ty: TypeView) -> bool {
    refl_wf(r) && refl_read_only(r) && refl_value(r) == v && refl_type(r) == ty
}

/// Whether the result of building a read-only view is what is owed.
pub open spec fn reflected(r: Result<ValueReflection, ReflectError>, v: ValueView, ty: TypeView) -> bool {
    match reflect_error(v, ty) {
        None => r is Ok && reflects(r->Ok_0, v, ty),
        Some(e) => r is Err && r->Err_0 == e,
    }
}

/// Read-only views of the fields of a struct.
#[verifier::loop_isolation(false)]
fn reflect_fields_ref<'a>(vals: &'a Vec<Value>, fields: &'a Vec<Field>) -> (r: Result<
    Vec<FieldReflection<'a>>,
    ReflectError,
>)
    requires
        vals.len() == fields.len(),
    ensures
        match reflect_fields_error(
            value_views(vals@, vals@.len()),
            field_views(fields@, fields@.len()),
            0,
        ) {
            None => r is Ok && r->Ok_0@.len() == vals@.len() && (forall|i: int|
                0 <= i < vals@.len() ==> (#[trigger] r->Ok_0@[i]).name@ == fields@[i].name@
                    && reflects(r->Ok_0@[i].value, vals@[i]@, fields@[i].ty@)),
            Some(e) => r is Err && r->Err_0 == e,
        },
    decreases vals, 0nat,
{
    let ghost vv = value_views(vals@, vals@.len());
    let ghost fv = field_views(fields@, fields@.len());
    proof {
        lemma_value_views(vals@, vals@.len());
        lemma_field_views(fields@, fields@.len());
    }
    let mut out: Vec<FieldReflection<'a>> = Vec::new();
    let mut i: usize = 0;
    while i < vals.len()
        invariant
            i <= vals.len(),
            out@.len() == i,
            reflect_fields_error(vv, fv, 0) == reflect_fields_error(vv, fv, i as nat),
            forall|j: int|
                0 <= j < i ==> (#[trigger] out@[j]).name@ == fields@[j].name@ && reflects(
                    out@[j].value,
                    vals@[j]@,
                    fields@[j].ty@,
                ),
        decreases vals.len() - i,
    {
        proof {
            assert(vv[i as int] == vals@[i as int]@);
            assert(fv[i as int] == fields@[i as int]@);
        }
        let value: ValueReflection<'a> = match reflect_value_ref(&vals[i], &fields[i].ty) {
            Err(e) => {
                return Err(e);
            },
            Ok(value) => value,
        };
        out.push(FieldReflection { name: fields[i].name.as_str(), value });
        i += 1;
    }
    Ok(out)
}

/// Read-only views of the fields of a tagged union's variant.
#[verifier::loop_isolation(false)]
fn reflect_variant_fields_ref<'a>(vals: &'a Vec<Value>, fields: &'a Vec<(String, Type)>) -> (r:
    Result<Vec<FieldReflection<'a>>, ReflectError>)
    requires
        vals.len() == fields.len(),
    ensures
        match reflect_fields_error(
            value_views(vals@, vals@.len()),
            variant_field_views(fields@, fields@.len()),
            0,
        ) {
            None => r is Ok && r->Ok_0@.len() == vals@.len() && (forall|i: int|
                0 <= i < vals@.len() ==> (#[trigger] r->Ok_0@[i]).name@ == fields@[i].0@
                    && reflects(r->Ok_0@[i].value, vals@[i]@, fields@[i].1@)),
            Some(e) => r is Err && r->Err_0 == e,
        },
    decreases vals, 0nat,
{
    let ghost vv = value_views(vals@, vals@.len());
    let ghost fv = variant_field_views(fields@, fields@.len());
    proof {
        lemma_value_views(vals@, vals@.len());
        lemma_variant_field_views(fields@, fields@.len());
    }
    let mut out: Vec<FieldReflection<'a>> = Vec::new();
    let mut i: usize = 0;
    while i < vals.len()
        invariant
            i <= vals.len(),
            out@.len() == i,
            reflect_fields_error(vv, fv, 0) == reflect_fields_error(vv, fv, i as nat),
            forall|j: int|
                0 <= j < i ==> (#[trigger] out@[j]).name@ == fields@[j].0@ && reflects(
                    out@[j].value,
                    vals@[j]@,
                    fields@[j].1@,
                ),
        decreases vals.len() - i,
    {
        proof {
            assert(vv[i as int] == vals@[i as int]@);
            assert(fv[i as int].ty == fields@[i as int].1@);
        }
        let value: ValueReflection<'a> = match reflect_value_ref(&vals[i], &fields[i].1) {
            Err(e) => {
                return Err(e);
            },
            Ok(value) => value,
        };
        out.push(FieldReflection { name: fields[i].0.as_str(), value });
        i += 1;
    }
    Ok(out)
}

/// The values that field views show are the values that were viewed.
pub proof fn lemma_field_values_are(fields: Seq<FieldReflection>, vals: Seq<Value>)
    requires
        fields.len() == vals.len(),
        forall|i: int| 0 <= i < vals.len() ==> refl_value((#[trigger] fields[i]).value) == vals[i]@,
    ensures
        field_values(fields, fields.len()) == value_views(vals, vals.len()),
{
    lemma_field_values(fields, fields.len());
    lemma_value_views(vals, vals.len());
    assert(field_values(fields, fields.len()) =~= value_views(vals, vals.len()));
}

/// The read-only view of a struct: a view of every field, in declaration order.
pub fn reflect_struct_ref<'a>(vals: &'a Vec<Value>, mirror: &'a Struct) -> (r: Result<
    StructReflection<'a>,
    ReflectError,
>)
    ensures
        match reflect_error(ValueView::Struct(value_views(vals@, vals@.len())), mirror@) {
            None => r is Ok && reflects(
                ValueReflection::Struct(Box::new(r->Ok_0)),
                ValueView::Struct(value_views(vals@, vals@.len())),
                mirror@,
            ),
            Some(e) => r is Err && r->Err_0 == e,
        },
        r is Ok ==> r->Ok_0.mirror == mirror && r->Ok_0.fields@.len() == vals@.len(),
    decreases vals, 1nat,
{
    proof {
        lemma_value_views(vals@, vals@.len());
        lemma_field_views(mirror.fields@, mirror.fields@.len());
    }
    if vals.len() != mirror.fields.len() {
        return Err(ReflectError::Mismatch);
    }
    let fields: Vec<FieldReflection<'a>> = match reflect_fields_ref(vals, &mirror.fields) {
        Err(e) => {
            return Err(e);
        },
        Ok(fields) => fields,
    };
    proof {
        lemma_field_values_are(fields@, vals@);
    }
    Ok(StructReflection { name: mirror.name.as_str(), mirror, fields })
}

/// The read-only view of a tagged union: the variant that the value
/// holds and a view of every field of it.
fn reflect_enum_ref<'a>(idx: usize, vals: &'a Vec<Value>, mirror: &'a RustEnum) -> (r: Result<
    RustEnumReflection<'a>,
    ReflectError,
>)
    ensures
        match reflect_error(
            ValueView::RustEnum(idx as nat, value_views(vals@, vals@.len())),
            Type::RustEnum(*mirror)@,
        ) {
            None => r is Ok && reflects(
                ValueReflection::RustEnum(r->Ok_0),
                ValueView::RustEnum(idx as nat, value_views(vals@, vals@.len())),
                Type::RustEnum(*mirror)@,
            ),
            Some(e) => r is Err && r->Err_0 == e,
        },
    decreases vals, 1nat,
{
    proof {
        lemma_value_views(vals@, vals@.len());
        lemma_variant_views(mirror.variants@, mirror.variants@.len());
    }
    if idx >= mirror.variants.len() {
        return Err(ReflectError::Mismatch);
    }
    let variant = &mirror.variants[idx];
    proof {
        lemma_variant_field_views(variant.fields@, variant.fields@.len());
    }
    if vals.len() != variant.fields.len() {
        return Err(ReflectError::Mismatch);
    }
    let fields: Vec<FieldReflection<'a>> = match reflect_variant_fields_ref(
        vals,
        &variant.fields,
    ) {
        Err(e) => {
            return Err(e);
        },
        Ok(fields) => fields,
    };
    proof {
        lemma_field_values_are(fields@, vals@);
    }
    Ok(
        RustEnumReflection {
            name: mirror.name.as_str(),
            variant_name: variant.name.as_str(),
            variant_idx: idx,
            mirror,
            fields,
        },
    )
}

/// The read-only view of a value under its descriptor.
pub fn reflect_value_ref<'a>(v: &'a Value, ty: &'a Type) -> (r: Result<
    ValueReflection<'a>,
    ReflectError,
>)
    ensures
        reflected(r, v@, ty@),
    decreases v, 0nat,
{
    match (v, ty) {
        (Value::I32(x), Type::I32) => Ok(ValueReflection::I32(RefOrMut::Ref(x))),
        (Value::U32(x), Type::U32) => Ok(ValueReflection::U32(RefOrMut::Ref(x))),
        (Value::F32(x), Type::F32) => Ok(ValueReflection::F32(RefOrMut::Ref(x))),
        (Value::I64(x), Type::I64) => Ok(ValueReflection::I64(RefOrMut::Ref(x))),
        (Value::U64(x), Type::U64) => Ok(ValueReflection::U64(RefOrMut::Ref(x))),
        (Value::F64(x), Type::F64) => Ok(ValueReflection::F64(RefOrMut::Ref(x))),
        (Value::ISize(x), Type::ISize) => Ok(ValueReflection::ISize(RefOrMut::Ref(x))),
        (Value::USize(x), Type::USize) => Ok(ValueReflection::USize(RefOrMut::Ref(x))),
        (Value::Bool(x), Type::Bool) => Ok(ValueReflection::Bool(RefOrMut::Ref(x))),
        (Value::String(x), Type::String) => Ok(ValueReflection::String(RefOrMut::Ref(x))),
        (Value::CEnum(x), Type::CEnum(e)) => Ok(
            ValueReflection::CEnum(
                Box::new(
                    CEnumReflection {
                        name: e.name.as_str(),
                        val: RefOrMut::Ref(x),
                        variants: &e.variants,
                        mirror: e,
                    },
                ),
            ),
        ),
        (Value::Struct(vals), Type::Struct(s)) => match reflect_struct_ref(vals, s) {
            Ok(view) => Ok(ValueReflection::Struct(Box::new(view))),
            Err(e) => Err(e),
        },
        (Value::RustEnum(idx, vals), Type::RustEnum(e)) => match reflect_enum_ref(*idx, vals, e) {
            Ok(view) => Ok(ValueReflection::RustEnum(view)),
            Err(e) => Err(e),
        },
        (Value::Vec(store), Type::Vec(t)) => Ok(
            ValueReflection::Vec(Box::new(VecReflection { mirror: t, store: RefOrMut::Ref(store) })),
        ),
        (Value::HashMap(entries), Type::HashMap(t)) => Ok(
            ValueReflection::HashMap(
                Box::new(HMReflection { mirror: t, entries: RefOrMut::Ref(entries) }),
            ),
        ),
        (Value::HashSet(items), Type::HashSet(t)) => Ok(
            ValueReflection::HashSet(Box::new(HSReflection { mirror: t, items })),
        ),
        (Value::Option(slot), Type::Option(t)) => Ok(
            ValueReflection::Option(
                Box::new(OptionReflection { mirror: t, slot: RefOrMut::Ref(slot) }),
            ),
        ),
        (Value::Box(inner), Type::Box(t)) => match reflect_value_ref(inner, &t.inner) {
            Ok(view) => Ok(ValueReflection::Box(Box::new(BoxReflection { inner: view }))),
            Err(e) => Err(e),
        },
        _ => Err(ReflectError::Mismatch),
    }
}

/// The read-only view of a value under its descriptor.
pub fn reflect_ref<'a>(val: &'a Value, mirror: &'a Type) -> (r: Result<
    ValueReflection<'a>,
    ReflectError,
>)
    ensures
        reflected(r, val@, mirror@),
{
    reflect_value_ref(val, mirror)
}

impl<'a> VecReflection<'a> {
    /// The number of elements, read through the table.
    pub fn len(&self) -> (r: Result<usize, ReflectError>)
        ensures
            self.mirror.closed() ==> r == Err::<usize, ReflectError>(
                ReflectError::NotSupported,
            ),
            !self.mirror.closed() ==> r is Ok && r->Ok_0
                == self.store.target().count(),
    {
        if self.mirror.skip {
            return Err(ReflectError::NotSupported);
        }
        self.mirror.vtable.get_len(self.store.deref())
    }

    /// The read-only view of the element at `index`, reached through the table.
    pub fn get_ref(&self, index: usize) -> (r: Result<ValueReflection<'_>, ReflectError>)
        ensures
            self.mirror.closed() ==> r is Err && r->Err_0
                == ReflectError::NotSupported,
            !self.mirror.closed() && index >= self.store.target().count()
                ==> r is Err && r->Err_0 == ReflectError::OutOfBounds,
            !self.mirror.closed() && index < self.store.target().count()
                ==> reflected(r, self.store.target().items@[index as int]@, self.mirror.element@),
    {
        if self.mirror.skip {
            return Err(ReflectError::NotSupported);
        }
        match self.mirror.vtable.get_elem_ref(self.store.deref(), index) {
            Err(e) => Err(e),
            Ok(elem) => reflect_value_ref(elem, &self.mirror.element),
        }
    }
}

impl<'a> OptionReflection<'a> {
    /// The read-only view of what the optional value holds, reached
    /// through the table.
    pub fn get_ref(&self) -> (r: Result<Option<ValueReflection<'_>>, ReflectError>)
        ensures
            self.mirror.closed() ==> r is Err && r->Err_0
                == ReflectError::NotSupported,
            !self.mirror.closed() ==> (match self.slot.target() {
                None => r is Ok && r->Ok_0 is None,
                Some(b) => match reflect_error(b@, self.mirror.element@) {
                    None => r is Ok && r->Ok_0 is Some && reflects(
                        r->Ok_0->Some_0,
                        b@,
                        self.mirror.element@,
                    ),
                    Some(e) => r is Err && r->Err_0 == e,
                },
            }),
    {
        if self.mirror.skip {
            return Err(ReflectError::NotSupported);
        }
        match self.mirror.vtable.get_elem_ref(self.slot.deref()) {
            Err(e) => Err(e),
            Ok(None) => Ok(None),
            Ok(Some(inner)) => match reflect_value_ref(inner, &self.mirror.element) {
                Err(e) => Err(e),
                Ok(view) => Ok(Some(view)),
            },
        }
    }
}

impl<'a> HSReflection<'a> {
    /// Read-only views of all elements, in the order in which the set
    /// yields them. The first element that the element type does not
    /// describe makes the operation fail.
    #[verifier::loop_isolation(false)]
    pub fn get_elements_ref(&self) -> (r: Result<Vec<ValueReflection<'_>>, ReflectError>)
        ensures
            self.mirror.closed() ==> r is Err && r->Err_0
                == ReflectError::NotSupported,
            !self.mirror.closed() && r is Ok ==> r->Ok_0@.len()
                == self.items@.len() && (forall|i: int|
                0 <= i < self.items@.len() ==> reflects(
                    #[trigger] r->Ok_0@[i],
                    self.items@[i]@,
                    self.mirror.element@,
                )),
            !self.mirror.closed() ==> (r is Ok <==> forall|i: int|
                0 <= i < self.items@.len() ==> reflect_error(
                    (#[trigger] self.items@[i])@,
                    self.mirror.element@,
                ) is None),
            !self.mirror.closed() && r is Err ==> r->Err_0 == ReflectError::Mismatch,
    {
        if self.mirror.skip {
            return Err(ReflectError::NotSupported);
        }
        let all: &Vec<Value> = match self.mirror.vtable.get_elements_ref(self.items) {
            Err(e) => {
                return Err(e);
            },
            Ok(all) => all,
        };
        let mut out: Vec<ValueReflection<'_>> = Vec::new();
        let mut i: usize = 0;
        while i < all.len()
            invariant
                i <= all.len(),
                all == self.items,
                out@.len() == i,
                forall|j: int|
                    0 <= j < i ==> reflects(
                        #[trigger] out@[j],
                        self.items@[j]@,
                        self.mirror.element@,
                    ),
                forall|j: int|
                    0 <= j < i ==> reflect_error(
                        (#[trigger] self.items@[j])@,
                        self.mirror.element@,
                    ) is None,
            decreases all.len() - i,
        {
            match reflect_value_ref(&all[i], &self.mirror.element) {
                Err(e) => {
                    proof {
                        lemma_reflect_error_kind(self.items@[i as int]@, self.mirror.element@);
                    }
                    assert(reflect_error(self.items@[i as int]@, self.mirror.element@) is Some);
                    return Err(e);
                },
                Ok(view) => {
                    out.push(view);
                },
            }
            i += 1;
        }
        Ok(out)
    }
}

impl<'a> HMReflection<'a> {
    /// Read-only views of all entries, in the order in which the mapping
    /// yields them. The first key or value that its type does not
    /// describe makes the operation fail.
    #[verifier::loop_isolation(false)]
    pub fn get_elements_ref(&self) -> (r: Result<Vec<HMEntryView<'_>>, ReflectError>)
        ensures
            self.mirror.closed() ==> r is Err && r->Err_0
                == ReflectError::NotSupported,
            !self.mirror.closed() && r is Ok ==> r->Ok_0@.len()
                == self.entries.target()@.len() && (forall|i: int|
                0 <= i < r->Ok_0@.len() ==> reflects(
                    (#[trigger] r->Ok_0@[i]).key,
                    self.entries.target()@[i].0@,
                    self.mirror.key@,
                ) && reflects(r->Ok_0@[i].value, self.entries.target()@[i].1@, self.mirror.value@)),
            !self.mirror.closed() ==> (r is Ok <==> forall|i: int|
                0 <= i < self.entries.target()@.len() ==> reflect_error(
                    (#[trigger] self.entries.target()@[i]).0@,
                    self.mirror.key@,
                ) is None && reflect_error(self.entries.target()@[i].1@, self.mirror.value@)
                    is None),
            !self.mirror.closed() && r is Err ==> r->Err_0 == ReflectError::Mismatch,
    {
        if self.mirror.skip {
            return Err(ReflectError::NotSupported);
        }
        let entries: &Vec<(Value, Value)> = self.entries.deref();
        let all: &Vec<(Value, Value)> = match self.mirror.vtable.get_elements_ref(entries) {
            Err(e) => {
                return Err(e);
            },
            Ok(all) => all,
        };
        let mut out: Vec<HMEntryView<'_>> = Vec::new();
        let mut i: usize = 0;
        while i < all.len()
            invariant
                i <= all.len(),
                *all == self.entries.target(),
                out@.len() == i,
                forall|j: int|
                    0 <= j < i ==> reflects(
                        (#[trigger] out@[j]).key,
                        all@[j].0@,
                        self.mirror.key@,
                    ) && reflects(out@[j].value, all@[j].1@, self.mirror.value@),
                forall|j: int|
                    0 <= j < i ==> reflect_error((#[trigger] all@[j]).0@, self.mirror.key@)
                        is None && reflect_error(all@[j].1@, self.mirror.value@) is None,
            decreases all.len() - i,
        {
            let key: ValueReflection<'_> = match reflect_value_ref(&all[i].0, &self.mirror.key) {
                Err(e) => {
                    proof {
                        lemma_reflect_error_kind(all@[i as int].0@, self.mirror.key@);
                    }
                    assert(reflect_error(all@[i as int].0@, self.mirror.key@) is Some);
                    return Err(e);
                },
                Ok(view) => view,
            };
            let value: ValueReflection<'_> = match reflect_value_ref(
                &all[i].1,
                &self.mirror.value,
            ) {
                Err(e) => {
                    proof {
                        lemma_reflect_error_kind(all@[i as int].1@, self.mirror.value@);
                    }
                    assert(reflect_error(all@[i as int].1@, self.mirror.value@) is Some);
                    return Err(e);
                },
                Ok(view) => view,
            };
            out.push(
                HMEntryView { key, value, key_t: &self.mirror.key, value_t: &self.mirror.value },
            );
            i += 1;
        }
        Ok(out)
    }
}

} // verus!
