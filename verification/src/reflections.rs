//! The reflective view: a tree built from a value and its descriptor that
//! can be walked without knowing the described type. A struct shows its
//! fields at once; a container is entered on demand through its table.

use vstd::prelude::*;
use crate::descriptor::{
    CEnum,
    HMType,
    HSType,
    OptionType,
    RustEnum,
    Struct,
    Type,
    TypeView,
    VecType,
};
use crate::error::ReflectError;
use crate::value::{SeqStore, Value, ValueView, value_view};

verus! {

/// A leaf of a view: a shared borrow, through which nothing can be
/// changed, or an exclusive one.
pub enum RefOrMut<'a, T> {
    Ref(&'a T),
    Mut(&'a mut T),
}

impl<'a, T> RefOrMut<'a, T> {
    /// What the leaf shows.
    pub open spec fn target(&self) -> T {
        match *self {
            RefOrMut::Ref(x) => *x,
            RefOrMut::Mut(x) => *x,
        }
    }

    /// A read-only leaf.
    pub fn from_ref(r: &'a T) -> (leaf: Self)
        ensures
            leaf == RefOrMut::Ref(r),
    {
        RefOrMut::Ref(r)
    }

    /// A leaf that can be written.
    pub fn from_mut(r: &'a mut T) -> (leaf: Self)
        ensures
            match leaf {
                RefOrMut::Mut(x) => *x == *old(r) && *final(x) == *final(r),
                RefOrMut::Ref(_) => false,
            },
    {
        RefOrMut::Mut(r)
    }

    /// Reads the leaf.
    pub fn deref(&self) -> (r: &T)
        ensures
            *r == self.target(),
    {
        match self {
            RefOrMut::Ref(x) => x,
            RefOrMut::Mut(x) => x,
        }
    }

    /// The leaf for writing. A read-only leaf gives no such access: the
    /// operation fails.
    pub fn deref_mut(&mut self) -> (r: Result<&mut T, ReflectError>)
        ensures
            match *old(self) {
                RefOrMut::Ref(_) => r is Err && r->Err_0 == ReflectError::NotSupported
                    && *final(self) == *old(self),
                RefOrMut::Mut(x0) => r is Ok && *r->Ok_0 == *x0 && (match *final(self) {
                    RefOrMut::Mut(x1) => *x1 == *final(r->Ok_0) && *final(x1) == *final(x0),
                    RefOrMut::Ref(_) => false,
                }),
            },
    {
        match self {
            RefOrMut::Ref(_) => Err(ReflectError::NotSupported),
            RefOrMut::Mut(x) => Ok(&mut **x),
        }
    }

    /// Writes the leaf. A read-only leaf is left as it is and the
    /// operation fails.
    pub fn set(&mut self, v: T) -> (r: Result<(), ReflectError>)
        ensures
            match *old(self) {
                RefOrMut::Ref(_) => r == Err::<(), ReflectError>(ReflectError::NotSupported)
                    && *final(self) == *old(self),
                RefOrMut::Mut(x0) => r is Ok && (match *final(self) {
                    RefOrMut::Mut(x1) => *x1 == v && *final(x1) == *final(x0),
                    RefOrMut::Ref(_) => false,
                }),
            },
    {
        match self {
            RefOrMut::Ref(_) => Err(ReflectError::NotSupported),
            RefOrMut::Mut(x) => {
                **x = v;
                Ok(())
            },
        }
    }
}

/// View of a value.
pub enum ValueReflection<'a> {
    I32(RefOrMut<'a, i32>),
    U32(RefOrMut<'a, u32>),
    F32(RefOrMut<'a, String>),
    I64(RefOrMut<'a, i64>),
    U64(RefOrMut<'a, u64>),
    F64(RefOrMut<'a, String>),
    ISize(RefOrMut<'a, isize>),
    USize(RefOrMut<'a, usize>),
    Bool(RefOrMut<'a, bool>),
    String(RefOrMut<'a, String>),
    Struct(Box<StructReflection<'a>>),
    CEnum(Box<CEnumReflection<'a>>),
    Vec(Box<VecReflection<'a>>),
    HashMap(Box<HMReflection<'a>>),
    HashSet(Box<HSReflection<'a>>),
    Option(Box<OptionReflection<'a>>),
    RustEnum(RustEnumReflection<'a>),
    Box(Box<BoxReflection<'a>>),
}

/// View of one field: its name and the view of its value.
pub struct FieldReflection<'a> {
    pub name: &'a str,
    pub value: ValueReflection<'a>,
}

/// View of a struct: its fields in declaration order.
pub struct StructReflection<'a> {
    pub name: &'a str,
    pub mirror: &'a Struct,
    pub fields: Vec<FieldReflection<'a>>,
}

/// View of a boxed value: the view of what the box holds.
pub struct BoxReflection<'a> {
    pub inner: ValueReflection<'a>,
}

/// View of a plain enumeration: the discriminant and the declared variants.
pub struct CEnumReflection<'a> {
    pub name: &'a str,
    pub val: RefOrMut<'a, i32>,
    pub variants: &'a Vec<(i32, String)>,
    pub mirror: &'a CEnum,
}

/// View of a tagged union: the variant that the value holds and the
/// views of the variant's fields.
pub struct RustEnumReflection<'a> {
    pub name: &'a str,
    pub variant_name: &'a str,
    pub variant_idx: usize,
    pub mirror: &'a RustEnum,
    pub fields: Vec<FieldReflection<'a>>,
}

/// View of a sequence; the elements are reached through the table.
pub struct VecReflection<'a> {
    pub mirror: &'a VecType,
    pub store: RefOrMut<'a, SeqStore>,
}

/// View of a mapping; the entries are reached through the table.
pub struct HMReflection<'a> {
    pub mirror: &'a HMType,
    pub entries: RefOrMut<'a, Vec<(Value, Value)>>,
}

/// View of one entry of a mapping: the views of its key and of its value
/// and their types. The key is shown for reading only.
pub struct HMEntryView<'a> {
    pub key: ValueReflection<'a>,
    pub value: ValueReflection<'a>,
    pub key_t: &'a Type,
    pub value_t: &'a Type,
}

/// View of a set; the elements are reached through the table and are
/// never handed out for writing.
pub struct HSReflection<'a> {
    pub mirror: &'a HSType,
    pub items: &'a Vec<Value>,
}

/// View of an optional value; what it holds is reached through the table.
pub struct OptionReflection<'a> {
    pub mirror: &'a OptionType,
    pub slot: RefOrMut<'a, Option<Box<Value>>>,
}

/// The value that a view shows.
pub open spec fn refl_value(r: ValueReflection) -> ValueView
    decreases r,
{
    match r {
        ValueReflection::I32(x) => ValueView::I32(x.target()),
        ValueReflection::U32(x) => ValueView::U32(x.target()),
        ValueReflection::F32(x) => ValueView::F32(x.target()@),
        ValueReflection::I64(x) => ValueView::I64(x.target()),
        ValueReflection::U64(x) => ValueView::U64(x.target()),
        ValueReflection::F64(x) => ValueView::F64(x.target()@),
        ValueReflection::ISize(x) => ValueView::ISize(x.target()),
        ValueReflection::USize(x) => ValueView::USize(x.target()),
        ValueReflection::Bool(x) => ValueView::Bool(x.target()),
        ValueReflection::String(x) => ValueView::String(x.target()@),
        ValueReflection::Struct(s) => ValueView::Struct(field_values(s.fields@, s.fields@.len())),
        ValueReflection::CEnum(c) => ValueView::CEnum(c.val.target()),
        ValueReflection::Vec(v) => value_view(Value::Vec(v.store.target())),
        ValueReflection::HashMap(m) => value_view(Value::HashMap(m.entries.target())),
        ValueReflection::HashSet(h) => value_view(Value::HashSet(*h.items)),
        ValueReflection::Option(o) => value_view(Value::Option(o.slot.target())),
        ValueReflection::RustEnum(e) => ValueView::RustEnum(
            e.variant_idx as nat,
            field_values(e.fields@, e.fields@.len()),
        ),
        ValueReflection::Box(b) => ValueView::Box(Box::new(refl_value(b.inner))),
    }
}

/// The values that the first `n` field views show.
pub open spec fn field_values(fields: Seq<FieldReflection>, n: nat) -> Seq<ValueView>
    decreases fields, n,
{
    if n == 0 || n > fields.len() {
        Seq::empty()
    } else {
        field_values(fields, (n - 1) as nat).push(refl_value(fields[n - 1].value))
    }
}

/// The descriptor under which a view shows its value.
pub open spec fn refl_type(r: ValueReflection) -> TypeView
    decreases r,
{
    match r {
        ValueReflection::I32(_) => TypeView::I32,
        ValueReflection::U32(_) => TypeView::U32,
        ValueReflection::F32(_) => TypeView::F32,
        ValueReflection::I64(_) => TypeView::I64,
        ValueReflection::U64(_) => TypeView::U64,
        ValueReflection::F64(_) => TypeView::F64,
        ValueReflection::ISize(_) => TypeView::ISize,
        ValueReflection::USize(_) => TypeView::USize,
        ValueReflection::Bool(_) => TypeView::Bool,
        ValueReflection::String(_) => TypeView::String,
        ValueReflection::Struct(s) => s.mirror@,
        ValueReflection::CEnum(c) => Type::CEnum(*c.mirror)@,
        ValueReflection::Vec(v) => Type::Vec(*v.mirror)@,
        ValueReflection::HashMap(m) => Type::HashMap(*m.mirror)@,
        ValueReflection::HashSet(h) => Type::HashSet(*h.mirror)@,
        ValueReflection::Option(o) => Type::Option(*o.mirror)@,
        ValueReflection::RustEnum(e) => Type::RustEnum(*e.mirror)@,
        ValueReflection::Box(b) => TypeView::Box { inner: Box::new(refl_type(b.inner)) },
    }
}

/// A view is well formed where every struct and every tagged union in it
/// shows exactly the fields that its descriptor declares, each under its
/// name and its type.
pub open spec fn refl_wf(r: ValueReflection) -> bool
    decreases r,
{
    match r {
        ValueReflection::Struct(s) => s.name@ == s.mirror.name@ && s.fields@.len()
            == s.mirror.fields@.len() && (forall|i: int|
            0 <= i < s.fields@.len() ==> (#[trigger] s.fields@[i]).name@
                == s.mirror.fields@[i].name@ && refl_type(s.fields@[i].value)
                == s.mirror.fields@[i].ty@ && refl_wf(s.fields@[i].value)),
        ValueReflection::CEnum(c) => c.name@ == c.mirror.name@ && *c.variants == c.mirror.variants,
        ValueReflection::RustEnum(e) => e.name@ == e.mirror.name@ && e.variant_idx
            < e.mirror.variants@.len() && e.variant_name@
            == e.mirror.variants@[e.variant_idx as int].name@ && e.fields@.len()
            == e.mirror.variants@[e.variant_idx as int].fields@.len() && (forall|i: int|
            0 <= i < e.fields@.len() ==> (#[trigger] e.fields@[i]).name@
                == e.mirror.variants@[e.variant_idx as int].fields@[i].0@ && refl_type(
                e.fields@[i].value,
            ) == e.mirror.variants@[e.variant_idx as int].fields@[i].1@ && refl_wf(
                e.fields@[i].value,
            )),
        ValueReflection::Box(b) => refl_wf(b.inner),
        _ => true,
    }
}

/// Nothing in the view can be written through.
pub open spec fn refl_read_only(r: ValueReflection) -> bool
    decreases r,
{
    match r {
        ValueReflection::I32(x) => x is Ref,
        ValueReflection::U32(x) => x is Ref,
        ValueReflection::F32(x) => x is Ref,
        ValueReflection::I64(x) => x is Ref,
        ValueReflection::U64(x) => x is Ref,
        ValueReflection::F64(x) => x is Ref,
        ValueReflection::ISize(x) => x is Ref,
        ValueReflection::USize(x) => x is Ref,
        ValueReflection::Bool(x) => x is Ref,
        ValueReflection::String(x) => x is Ref,
        ValueReflection::Struct(s) => forall|i: int|
            0 <= i < s.fields@.len() ==> refl_read_only((#[trigger] s.fields@[i]).value),
        ValueReflection::CEnum(c) => c.val is Ref,
        ValueReflection::Vec(v) => v.store is Ref,
        ValueReflection::HashMap(m) => m.entries is Ref,
        ValueReflection::HashSet(_) => true,
        ValueReflection::Option(o) => o.slot is Ref,
        ValueReflection::RustEnum(e) => forall|i: int|
            0 <= i < e.fields@.len() ==> refl_read_only((#[trigger] e.fields@[i]).value),
        ValueReflection::Box(b) => refl_read_only(b.inner),
    }
}

/// Every leaf and every container in the view can be written through,
/// but for sets, which are shown for reading only.
pub open spec fn refl_writable(r: ValueReflection) -> bool
    decreases r,
{
    match r {
        ValueReflection::I32(x) => x is Mut,
        ValueReflection::U32(x) => x is Mut,
        ValueReflection::F32(x) => x is Mut,
        ValueReflection::I64(x) => x is Mut,
        ValueReflection::U64(x) => x is Mut,
        ValueReflection::F64(x) => x is Mut,
        ValueReflection::ISize(x) => x is Mut,
        ValueReflection::USize(x) => x is Mut,
        ValueReflection::Bool(x) => x is Mut,
        ValueReflection::String(x) => x is Mut,
        ValueReflection::Struct(s) => forall|i: int|
            0 <= i < s.fields@.len() ==> refl_writable((#[trigger] s.fields@[i]).value),
        ValueReflection::CEnum(c) => c.val is Mut,
        ValueReflection::Vec(v) => v.store is Mut,
        ValueReflection::HashMap(m) => m.entries is Mut,
        ValueReflection::HashSet(_) => true,
        ValueReflection::Option(o) => o.slot is Mut,
        ValueReflection::RustEnum(e) => forall|i: int|
            0 <= i < e.fields@.len() ==> refl_writable((#[trigger] e.fields@[i]).value),
        ValueReflection::Box(b) => refl_writable(b.inner),
    }
}

/// The values of the field views are as many as were asked for, each the
/// value that its view shows.
pub proof fn lemma_field_values(fields: Seq<FieldReflection>, n: nat)
    requires
        n <= fields.len(),
    ensures
        field_values(fields, n).len() == n,
        forall|k: int|
            0 <= k < n ==> #[trigger] field_values(fields, n)[k] == refl_value(fields[k].value),
    decreases n,
{
    if n > 0 {
        lemma_field_values(fields, (n - 1) as nat);
    }
}

/// The part of a view at a path. The fields of a struct and of a tagged
/// union are numbered in declaration order; what a box holds has the
/// number 0. A container has no parts: it is entered through its table.
pub open spec fn sub_view(r: ValueReflection, path: Seq<int>) -> Option<ValueReflection>
    decreases path.len(),
{
    if path.len() == 0 {
        Some(r)
    } else {
        match r {
            ValueReflection::Struct(s) => if 0 <= path[0] < s.fields@.len() {
                sub_view(s.fields@[path[0]].value, path.skip(1))
            } else {
                None
            },
            ValueReflection::RustEnum(e) => if 0 <= path[0] < e.fields@.len() {
                sub_view(e.fields@[path[0]].value, path.skip(1))
            } else {
                None
            },
            ValueReflection::Box(b) => if path[0] == 0 {
                sub_view(b.inner, path.skip(1))
            } else {
                None
            },
            _ => None,
        }
    }
}

/// The part of a value at a path, numbered as the parts of its view are.
pub open spec fn sub_value(v: Value, path: Seq<int>) -> Option<Value>
    decreases path.len(),
{
    if path.len() == 0 {
        Some(v)
    } else {
        match v {
            Value::Struct(vals) => if 0 <= path[0] < vals@.len() {
                sub_value(vals@[path[0]], path.skip(1))
            } else {
                None
            },
            Value::RustEnum(_, vals) => if 0 <= path[0] < vals@.len() {
                sub_value(vals@[path[0]], path.skip(1))
            } else {
                None
            },
            Value::Box(b) => if path[0] == 0 {
                sub_value(*b, path.skip(1))
            } else {
                None
            },
            _ => None,
        }
    }
}

} // verus!
