//! Where descriptors come from: every type that can be described names
//! its own descriptor, and every container names the descriptor under
//! which it is skipped.

use vstd::prelude::*;
use std::collections::{HashMap, HashSet};
use std::hash::Hash;
use crate::descriptor::{HMType, HSType, OptionType, Struct, Type, TypeView, VecType};
use crate::map::{EmptyHMVtableCreator, HMVtable, HMVtableCreator};
use crate::option::{EmptyOptionVtableCreator, OptionVtable, OptionVtableCreator};
use crate::set::{EmptyHSVtableCreator, HSVtable, HSVtableCreator};
use crate::table::TableKind;
use crate::vec::{EmptyVecVtableCreator, VecVtable, VecVtableCreator};

verus! {

/// A type that has a descriptor.
pub trait Quicksilver {
    /// The model of the type's descriptor.
    spec fn mirror_view() -> TypeView;

    /// The type's descriptor.
    fn mirror() -> (r: Type)
        ensures
            r@ == Self::mirror_view(),
    ;
}

/// A container that can be marked to be skipped.
pub trait EmptyContainer {
    /// The model of the descriptor under which the container is skipped.
    spec fn empty_view() -> TypeView;

    /// The descriptor under which the container is skipped: with the
    /// table of a skipped container and a placeholder for what it holds.
    fn empty() -> (r: Type)
        ensures
            r@ == Self::empty_view(),
    ;
}

/// A type whose values can be the elements of a sequence.
pub trait TableAble {

}

/// The name of the placeholder that stands for what a skipped container holds.
pub open spec fn skipped_name() -> Seq<char> {
    seq!['s', 'k', 'i', 'p', 'p', 'e', 'd']
}

/// The model of the placeholder: a struct without fields and without size.
pub open spec fn empty_struct_view() -> TypeView {
    TypeView::Struct { name: skipped_name(), size: 0, align: 0, fields: Seq::empty() }
}

/// The placeholder that stands for what a skipped container holds.
pub fn empty_struct() -> (r: Type)
    ensures
        r@ == empty_struct_view(),
{
    proof {
        reveal_strlit("skipped");
        assert("skipped"@ =~= skipped_name());
    }
    let fields: Vec<crate::descriptor::Field> = Vec::new();
    let r = Type::Struct(Struct { size: 0, align: 0, name: "skipped".to_owned(), fields });
    proof {
        assert(crate::descriptor::field_views(fields@, 0) =~= Seq::empty());
    }
    r
}

impl Quicksilver for bool {
    open spec fn mirror_view() -> TypeView {
        TypeView::Bool
    }

    fn mirror() -> (r: Type) {
        Type::Bool
    }
}

impl Quicksilver for u32 {
    open spec fn mirror_view() -> TypeView {
        TypeView::U32
    }

    fn mirror() -> (r: Type) {
        Type::U32
    }
}

impl Quicksilver for i32 {
    open spec fn mirror_view() -> TypeView {
        TypeView::I32
    }

    fn mirror() -> (r: Type) {
        Type::I32
    }
}

impl Quicksilver for u64 {
    open spec fn mirror_view() -> TypeView {
        TypeView::U64
    }

    fn mirror() -> (r: Type) {
        Type::U64
    }
}

impl Quicksilver for i64 {
    open spec fn mirror_view() -> TypeView {
        TypeView::I64
    }

    fn mirror() -> (r: Type) {
        Type::I64
    }
}

impl Quicksilver for usize {
    open spec fn mirror_view() -> TypeView {
        TypeView::USize
    }

    fn mirror() -> (r: Type) {
        Type::USize
    }
}

impl Quicksilver for isize {
    open spec fn mirror_view() -> TypeView {
        TypeView::ISize
    }

    fn mirror() -> (r: Type) {
        Type::ISize
    }
}

impl Quicksilver for String {
    open spec fn mirror_view() -> TypeView {
        TypeView::String
    }

    fn mirror() -> (r: Type) {
        Type::String
    }
}

impl<T: Quicksilver> Quicksilver for Vec<T> {
    open spec fn mirror_view() -> TypeView {
        TypeView::Vec {
            element: Box::new(T::mirror_view()),
            vtable: VecVtable { kind: TableKind::Live },
            skip: false,
            size: vstd::layout::size_of::<Vec<T>>(),
            align: vstd::layout::align_of::<Vec<T>>(),
        }
    }

    fn mirror() -> (r: Type) {
        Type::Vec(
            VecType {
                element: Box::new(T::mirror()),
                vtable: VecVtableCreator::vtable(),
                skip: false,
                size: core::mem::size_of::<Vec<T>>(),
                align: core::mem::align_of::<Vec<T>>(),
            },
        )
    }
}

impl<Key: Quicksilver + Eq + Hash, Value: Quicksilver> Quicksilver for HashMap<Key, Value> {
    open spec fn mirror_view() -> TypeView {
        TypeView::HashMap {
            key: Box::new(Key::mirror_view()),
            value: Box::new(Value::mirror_view()),
            vtable: HMVtable { kind: TableKind::Live },
            skip: false,
            size: vstd::layout::size_of::<HashMap<Key, Value>>(),
            align: vstd::layout::align_of::<HashMap<Key, Value>>(),
        }
    }

    fn mirror() -> (r: Type) {
        Type::HashMap(
            HMType {
                key: Box::new(Key::mirror()),
                value: Box::new(Value::mirror()),
                vtable: HMVtableCreator::vtable(),
                skip: false,
                size: core::mem::size_of::<HashMap<Key, Value>>(),
                align: core::mem::align_of::<HashMap<Key, Value>>(),
            },
        )
    }
}

impl<T: Quicksilver + Eq + Hash> Quicksilver for HashSet<T> {
    open spec fn mirror_view() -> TypeView {
        TypeView::HashSet {
            element: Box::new(T::mirror_view()),
            vtable: HSVtable { kind: TableKind::Live },
            skip: false,
            size: vstd::layout::size_of::<HashSet<T>>(),
            align: vstd::layout::align_of::<HashSet<T>>(),
        }
    }

    fn mirror() -> (r: Type) {
        Type::HashSet(
            HSType {
                element: Box::new(T::mirror()),
                vtable: HSVtableCreator::vtable(),
                skip: false,
                size: core::mem::size_of::<HashSet<T>>(),
                align: core::mem::align_of::<HashSet<T>>(),
            },
        )
    }
}

impl<T: Quicksilver> Quicksilver for Option<T> {
    open spec fn mirror_view() -> TypeView {
        TypeView::Option {
            element: Box::new(T::mirror_view()),
            vtable: OptionVtable { kind: TableKind::Live },
            skip: false,
            size: vstd::layout::size_of::<Option<T>>(),
            align: vstd::layout::align_of::<Option<T>>(),
        }
    }

    fn mirror() -> (r: Type) {
        Type::Option(
            OptionType {
                element: Box::new(T::mirror()),
                vtable: OptionVtableCreator::vtable(),
                skip: false,
                size: core::mem::size_of::<Option<T>>(),
                align: core::mem::align_of::<Option<T>>(),
            },
        )
    }
}

impl<T> EmptyContainer for Vec<T> {
    open spec fn empty_view() -> TypeView {
        TypeView::Vec {
            element: Box::new(empty_struct_view()),
            vtable: VecVtable { kind: TableKind::Skip },
            skip: true,
            size: vstd::layout::size_of::<Vec<T>>(),
            align: vstd::layout::align_of::<Vec<T>>(),
        }
    }

    fn empty() -> (r: Type) {
        Type::Vec(
            VecType {
                element: Box::new(empty_struct()),
                vtable: EmptyVecVtableCreator::vtable(),
                skip: true,
                size: core::mem::size_of::<Vec<T>>(),
                align: core::mem::align_of::<Vec<T>>(),
            },
        )
    }
}

impl<K: Eq + Hash, V> EmptyContainer for HashMap<K, V> {
    open spec fn empty_view() -> TypeView {
        TypeView::HashMap {
            key: Box::new(empty_struct_view()),
            value: Box::new(empty_struct_view()),
            vtable: HMVtable { kind: TableKind::Skip },
            skip: true,
            size: vstd::layout::size_of::<HashMap<K, V>>(),
            align: vstd::layout::align_of::<HashMap<K, V>>(),
        }
    }

    fn empty() -> (r: Type) {
        Type::HashMap(
            HMType {
                key: Box::new(empty_struct()),
                value: Box::new(empty_struct()),
                vtable: EmptyHMVtableCreator::vtable(),
                skip: true,
                size: core::mem::size_of::<HashMap<K, V>>(),
                align: core::mem::align_of::<HashMap<K, V>>(),
            },
        )
    }
}

impl<T> EmptyContainer for Option<T> {
    open spec fn empty_view() -> TypeView {
        TypeView::Option {
            element: Box::new(empty_struct_view()),
            vtable: OptionVtable { kind: TableKind::Skip },
            skip: true,
            size: vstd::layout::size_of::<Option<T>>(),
            align: vstd::layout::align_of::<Option<T>>(),
        }
    }

    fn empty() -> (r: Type) {
        Type::Option(
            OptionType {
                element: Box::new(empty_struct()),
                vtable: EmptyOptionVtableCreator::vtable(),
                skip: true,
                size: core::mem::size_of::<Option<T>>(),
                align: core::mem::align_of::<Option<T>>(),
            },
        )
    }
}

impl<K: Eq + Hash> EmptyContainer for HashSet<K> {
    open spec fn empty_view() -> TypeView {
        TypeView::HashSet {
            element: Box::new(empty_struct_view()),
            vtable: HSVtable { kind: TableKind::Skip },
            skip: true,
            size: vstd::layout::size_of::<HashSet<K>>(),
            align: vstd::layout::align_of::<HashSet<K>>(),
        }
    }

    fn empty() -> (r: Type) {
        Type::HashSet(
            HSType {
                element: Box::new(empty_struct()),
                vtable: EmptyHSVtableCreator::vtable(),
                skip: true,
                size: core::mem::size_of::<HashSet<K>>(),
                align: core::mem::align_of::<HashSet<K>>(),
            },
        )
    }
}

impl TableAble for u32 {

}

impl TableAble for i32 {

}

impl TableAble for String {

}

impl<T: TableAble> TableAble for Vec<T> {

}

} // verus!
