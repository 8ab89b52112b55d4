//! The type-descriptor model: an immutable tree that records, for every
//! described type, its layout and the shape of its fields, variants and
//! elements.

use vstd::prelude::*;
use crate::map::HMVtable;
use crate::option::OptionVtable;
use crate::set::HSVtable;
use crate::vec::VecVtable;

verus! {

/// Size and alignment of a described type, in bytes.
#[derive(Clone, Copy, Debug, PartialEq, Eq, Structural)]
pub struct Layout {
    pub size: usize,
    pub align: usize,
}

/// Descriptor of a type.
#[derive(Debug)]
pub enum Type {
    I32,
    U32,
    F32,
    I64,
    U64,
    F64,
    ISize,
    USize,
    Bool,
    String,
    Vec(VecType),
    HashMap(HMType),
    HashSet(HSType),
    Option(OptionType),
    Struct(Struct),
    CEnum(CEnum),
    RustEnum(RustEnum),
    Box(BoxType),
}

/// Descriptor of a sequence.
#[derive(Debug)]
pub struct VecType {
    pub element: Box<Type>,
    pub vtable: VecVtable,
    pub skip: bool,
    pub size: usize,
    pub align: usize,
}

/// Descriptor of a mapping.
#[derive(Debug)]
pub struct HMType {
    pub key: Box<Type>,
    pub value: Box<Type>,
    pub vtable: HMVtable,
    pub skip: bool,
    pub size: usize,
    pub align: usize,
}

/// Descriptor of a set.
#[derive(Debug)]
pub struct HSType {
    pub element: Box<Type>,
    pub vtable: HSVtable,
    pub skip: bool,
    pub size: usize,
    pub align: usize,
}

/// Descriptor of an optional value.
#[derive(Debug)]
pub struct OptionType {
    pub element: Box<Type>,
    pub vtable: OptionVtable,
    pub skip: bool,
    pub size: usize,
    pub align: usize,
}

/// One field of a struct: its name, its type and its byte offset from the
/// struct's base.
#[derive(Debug)]
pub struct Field {
    pub name: String,
    pub ty: Type,
    pub offset: usize,
}

/// Descriptor of a struct; the fields stand in declaration order.
#[derive(Debug)]
pub struct Struct {
    pub size: usize,
    pub align: usize,
    pub name: String,
    pub fields: Vec<Field>,
}

/// Descriptor of a plain enumeration, stored as a 32-bit signed integer.
#[derive(Debug)]
pub struct CEnum {
    pub size: usize,
    pub align: usize,
    pub name: String,
    pub variants: Vec<(i32, String)>,
}

/// One variant of a tagged union with its fields in declaration order.
/// Positional fields are named by their index.
#[derive(Debug)]
pub struct RustEnumVariant {
    pub name: String,
    pub fields: Vec<(String, Type)>,
}

/// Descriptor of a tagged union.
#[derive(Debug)]
pub struct RustEnum {
    pub size: usize,
    pub align: usize,
    pub name: String,
    pub variants: Vec<RustEnumVariant>,
}

/// Descriptor of a boxed value: a handle of fixed size around one inner type.
#[derive(Debug)]
pub struct BoxType {
    pub inner: Box<Type>,
}

/// Mathematical model of a field.
pub struct FieldView {
    pub name: Seq<char>,
    pub ty: TypeView,
    pub offset: nat,
}

/// Mathematical model of a variant of a tagged union.
pub struct VariantView {
    pub name: Seq<char>,
    pub fields: Seq<FieldView>,
}

/// Mathematical model of a descriptor: the same tree, with names as
/// sequences of characters.
pub enum TypeView {
    I32,
    U32,
    F32,
    I64,
    U64,
    F64,
    ISize,
    USize,
    Bool,
    String,
    Vec { element: Box<TypeView>, vtable: VecVtable, skip: bool, size: nat, align: nat },
    HashMap {
        key: Box<TypeView>,
        value: Box<TypeView>,
        vtable: HMVtable,
        skip: bool,
        size: nat,
        align: nat,
    },
    HashSet { element: Box<TypeView>, vtable: HSVtable, skip: bool, size: nat, align: nat },
    Option { element: Box<TypeView>, vtable: OptionVtable, skip: bool, size: nat, align: nat },
    Struct { name: Seq<char>, size: nat, align: nat, fields: Seq<FieldView> },
    CEnum { name: Seq<char>, size: nat, align: nat, variants: Seq<(int, Seq<char>)> },
    RustEnum { name: Seq<char>, size: nat, align: nat, variants: Seq<VariantView> },
    Box { inner: Box<TypeView> },
}

/// Model of a descriptor.
pub open spec fn type_view(ty: Type) -> TypeView
    decreases ty,
{
    match ty {
        Type::I32 => TypeView::I32,
        Type::U32 => TypeView::U32,
        Type::F32 => TypeView::F32,
        Type::I64 => TypeView::I64,
        Type::U64 => TypeView::U64,
        Type::F64 => TypeView::F64,
        Type::ISize => TypeView::ISize,
        Type::USize => TypeView::USize,
        Type::Bool => TypeView::Bool,
        Type::String => TypeView::String,
        Type::Vec(v) => TypeView::Vec {
            element: Box::new(type_view(*v.element)),
            vtable: v.vtable,
            skip: v.skip,
            size: v.size as nat,
            align: v.align as nat,
        },
        Type::HashMap(m) => TypeView::HashMap {
            key: Box::new(type_view(*m.key)),
            value: Box::new(type_view(*m.value)),
            vtable: m.vtable,
            skip: m.skip,
            size: m.size as nat,
            align: m.align as nat,
        },
        Type::HashSet(s) => TypeView::HashSet {
            element: Box::new(type_view(*s.element)),
            vtable: s.vtable,
            skip: s.skip,
            size: s.size as nat,
            align: s.align as nat,
        },
        Type::Option(o) => TypeView::Option {
            element: Box::new(type_view(*o.element)),
            vtable: o.vtable,
            skip: o.skip,
            size: o.size as nat,
            align: o.align as nat,
        },
        Type::Struct(s) => TypeView::Struct {
            name: s.name@,
            size: s.size as nat,
            align: s.align as nat,
            fields: field_views(s.fields@, s.fields@.len()),
        },
        Type::CEnum(e) => TypeView::CEnum {
            name: e.name@,
            size: e.size as nat,
            align: e.align as nat,
            variants: cenum_variant_views(e.variants@),
        },
        Type::RustEnum(e) => TypeView::RustEnum {
            name: e.name@,
            size: e.size as nat,
            align: e.align as nat,
            variants: variant_views(e.variants@, e.variants@.len()),
        },
        Type::Box(b) => TypeView::Box { inner: Box::new(type_view(*b.inner)) },
    }
}

/// Models of the first `n` fields of a struct.
pub open spec fn field_views(fields: Seq<Field>, n: nat) -> Seq<FieldView>
    decreases fields, n,
{
    if n == 0 || n > fields.len() {
        Seq::empty()
    } else {
        field_views(fields, (n - 1) as nat).push(
            FieldView {
                name: fields[n - 1].name@,
                ty: type_view(fields[n - 1].ty),
                offset: fields[n - 1].offset as nat,
            },
        )
    }
}

/// Models of the first `n` fields of a variant.
pub open spec fn variant_field_views(fields: Seq<(String, Type)>, n: nat) -> Seq<FieldView>
    decreases fields, n,
{
    if n == 0 || n > fields.len() {
        Seq::empty()
    } else {
        variant_field_views(fields, (n - 1) as nat).push(
            FieldView { name: fields[n - 1].0@, ty: type_view(fields[n - 1].1), offset: 0 },
        )
    }
}

/// Models of the first `n` variants of a tagged union.
pub open spec fn variant_views(variants: Seq<RustEnumVariant>, n: nat) -> Seq<VariantView>
    decreases variants, n,
{
    if n == 0 || n > variants.len() {
        Seq::empty()
    } else {
        variant_views(variants, (n - 1) as nat).push(
            VariantView {
                name: variants[n - 1].name@,
                fields: variant_field_views(
                    variants[n - 1].fields@,
                    variants[n - 1].fields@.len(),
                ),
            },
        )
    }
}

/// Models of the variants of a plain enumeration.
pub open spec fn cenum_variant_views(variants: Seq<(i32, String)>) -> Seq<(int, Seq<char>)> {
    Seq::new(variants.len(), |i: int| (variants[i].0 as int, variants[i].1@))
}

impl VecType {
    /// The sequence cannot be entered: it is marked to be skipped or has
    /// the table of a skipped one.
    pub open spec fn closed(&self) -> bool {
        self.skip || self.vtable.kind == crate::table::TableKind::Skip
    }
}

impl HMType {
    /// The mapping cannot be entered: it is marked to be skipped or has
    /// the table of a skipped one.
    pub open spec fn closed(&self) -> bool {
        self.skip || self.vtable.kind == crate::table::TableKind::Skip
    }
}

impl HSType {
    /// The set cannot be entered: it is marked to be skipped or has the
    /// table of a skipped one.
    pub open spec fn closed(&self) -> bool {
        self.skip || self.vtable.kind == crate::table::TableKind::Skip
    }
}

impl OptionType {
    /// The optional value cannot be entered: it is marked to be skipped
    /// or has the table of a skipped one.
    pub open spec fn closed(&self) -> bool {
        self.skip || self.vtable.kind == crate::table::TableKind::Skip
    }
}

impl View for Type {
    type V = TypeView;

    open spec fn view(&self) -> TypeView {
        type_view(*self)
    }
}

impl View for Field {
    type V = FieldView;

    open spec fn view(&self) -> FieldView {
        FieldView { name: self.name@, ty: type_view(self.ty), offset: self.offset as nat }
    }
}

impl View for Struct {
    type V = TypeView;

    open spec fn view(&self) -> TypeView {
        TypeView::Struct {
            name: self.name@,
            size: self.size as nat,
            align: self.align as nat,
            fields: field_views(self.fields@, self.fields@.len()),
        }
    }
}

impl View for RustEnumVariant {
    type V = VariantView;

    open spec fn view(&self) -> VariantView {
        VariantView {
            name: self.name@,
            fields: variant_field_views(self.fields@, self.fields@.len()),
        }
    }
}

/// The model of a field list has one entry per field, each the model of its field.
pub proof fn lemma_field_views(fields: Seq<Field>, n: nat)
    requires
        n <= fields.len(),
    ensures
        field_views(fields, n).len() == n,
        forall|k: int| 0 <= k < n ==> #[trigger] field_views(fields, n)[k] == fields[k]@,
    decreases n,
{
    if n > 0 {
        lemma_field_views(fields, (n - 1) as nat);
    }
}

/// The model of a variant's field list has one entry per field.
pub proof fn lemma_variant_field_views(fields: Seq<(String, Type)>, n: nat)
    requires
        n <= fields.len(),
    ensures
        variant_field_views(fields, n).len() == n,
        forall|k: int|
            0 <= k < n ==> #[trigger] variant_field_views(fields, n)[k] == (FieldView {
                name: fields[k].0@,
                ty: type_view(fields[k].1),
                offset: 0,
            }),
    decreases n,
{
    if n > 0 {
        lemma_variant_field_views(fields, (n - 1) as nat);
    }
}

/// The model of a variant list has one entry per variant, each the model of its variant.
pub proof fn lemma_variant_views(variants: Seq<RustEnumVariant>, n: nat)
    requires
        n <= variants.len(),
    ensures
        variant_views(variants, n).len() == n,
        forall|k: int| 0 <= k < n ==> #[trigger] variant_views(variants, n)[k] == variants[k]@,
    decreases n,
{
    if n > 0 {
        lemma_variant_views(variants, (n - 1) as nat);
    }
}

/// Size and alignment that a descriptor's model records: the fixed layout
/// of a primitive kind, the embedded size and alignment of every other
/// kind. A floating-point number is laid out as the unsigned integer of
/// its width; a box is one pointer wide.
pub open spec fn layout_of(ty: TypeView) -> (nat, nat) {
    match ty {
        TypeView::I32 => (vstd::layout::size_of::<i32>(), vstd::layout::align_of::<i32>()),
        TypeView::U32 => (vstd::layout::size_of::<u32>(), vstd::layout::align_of::<u32>()),
        TypeView::F32 => (vstd::layout::size_of::<u32>(), vstd::layout::align_of::<u32>()),
        TypeView::I64 => (vstd::layout::size_of::<i64>(), vstd::layout::align_of::<i64>()),
        TypeView::U64 => (vstd::layout::size_of::<u64>(), vstd::layout::align_of::<u64>()),
        TypeView::F64 => (vstd::layout::size_of::<u64>(), vstd::layout::align_of::<u64>()),
        TypeView::ISize => (vstd::layout::size_of::<isize>(), vstd::layout::align_of::<isize>()),
        TypeView::USize => (vstd::layout::size_of::<usize>(), vstd::layout::align_of::<usize>()),
        TypeView::Bool => (vstd::layout::size_of::<bool>(), vstd::layout::align_of::<bool>()),
        TypeView::String => (
            vstd::layout::size_of::<String>(),
            vstd::layout::align_of::<String>(),
        ),
        TypeView::Vec { size, align, .. } => (size, align),
        TypeView::HashMap { size, align, .. } => (size, align),
        TypeView::HashSet { size, align, .. } => (size, align),
        TypeView::Option { size, align, .. } => (size, align),
        TypeView::Struct { size, align, .. } => (size, align),
        TypeView::CEnum { size, align, .. } => (size, align),
        TypeView::RustEnum { size, align, .. } => (size, align),
        TypeView::Box { .. } => (vstd::layout::size_of::<usize>(), vstd::layout::align_of::<usize>()),
    }
}

impl Type {
    /// Size and alignment of the described type, by a closed case analysis.
    pub fn layout(&self) -> (l: Layout)
        ensures
            (l.size as nat, l.align as nat) == layout_of(self@),
            self@ is I32 || self@ is U32 || self@ is F32 ==> l.size == 4,
            self@ is I64 || self@ is U64 || self@ is F64 ==> l.size == 8,
            self@ is Bool ==> l.size == 1,
            self@ is ISize || self@ is USize || self@ is Box ==> l.size * 8 == usize::BITS,
    {
        broadcast use vstd::layout::layout_of_primitives;

        match self {
            Type::I32 => Layout {
                size: core::mem::size_of::<i32>(),
                align: core::mem::align_of::<i32>(),
            },
            Type::U32 => Layout {
                size: core::mem::size_of::<u32>(),
                align: core::mem::align_of::<u32>(),
            },
            Type::F32 => Layout {
                size: core::mem::size_of::<u32>(),
                align: core::mem::align_of::<u32>(),
            },
            Type::I64 => Layout {
                size: core::mem::size_of::<i64>(),
                align: core::mem::align_of::<i64>(),
            },
            Type::U64 => Layout {
                size: core::mem::size_of::<u64>(),
                align: core::mem::align_of::<u64>(),
            },
            Type::F64 => Layout {
                size: core::mem::size_of::<u64>(),
                align: core::mem::align_of::<u64>(),
            },
            Type::ISize => Layout {
                size: core::mem::size_of::<isize>(),
                align: core::mem::align_of::<isize>(),
            },
            Type::USize => Layout {
                size: core::mem::size_of::<usize>(),
                align: core::mem::align_of::<usize>(),
            },
            Type::Bool => Layout {
                size: core::mem::size_of::<bool>(),
                align: core::mem::align_of::<bool>(),
            },
            Type::String => Layout {
                size: core::mem::size_of::<String>(),
                align: core::mem::align_of::<String>(),
            },
            Type::Vec(v) => Layout { size: v.size, align: v.align },
            Type::HashMap(m) => Layout { size: m.size, align: m.align },
            Type::HashSet(s) => Layout { size: s.size, align: s.align },
            Type::Option(o) => Layout { size: o.size, align: o.align },
            Type::Struct(s) => Layout { size: s.size, align: s.align },
            Type::CEnum(e) => Layout { size: e.size, align: e.align },
            Type::RustEnum(e) => Layout { size: e.size, align: e.align },
            Type::Box(_) => Layout {
                size: core::mem::size_of::<usize>(),
                align: core::mem::align_of::<usize>(),
            },
        }
    }
}

} // verus!
