use quicksilver::descriptor::{Layout, Type};
use quicksilver::error::ReflectError;
use quicksilver::map::{EmptyHMVtableCreator, HMVtableCreator};
use quicksilver::mirror::{empty_struct, EmptyContainer, Quicksilver};
use quicksilver::option::{EmptyOptionVtableCreator, OptionVtableCreator};
use quicksilver::set::{EmptyHSVtableCreator, HSVtableCreator};
use quicksilver::table::TableKind;
use quicksilver::value::Value;
use quicksilver::vec::{EmptyVecVtableCreator, VecVtableCreator};

#[test]
fn sequence_table() {
    let table = VecVtableCreator::vtable();
    assert_eq!(table.kind, TableKind::Live);
    let mut store = table.new_at(2);
    assert_eq!((store.items.len(), store.len, store.cap), (0, 0, 2));
    assert_eq!(table.get_len(&store), Ok(0));
    assert_eq!(table.write_at(&mut store, 0, Value::I32(7)), Ok(()));
    assert_eq!(table.write_at(&mut store, 1, Value::I32(8)), Ok(()));
    // no slot is reserved for a third element
    assert_eq!(table.write_at(&mut store, 2, Value::I32(9)), Err(ReflectError::OutOfBounds));
    // written slots do not count before the length is set
    assert_eq!(table.get_len(&store), Ok(0));
    assert!(matches!(table.get_elem_ref(&store, 0), Err(ReflectError::OutOfBounds)));
    assert_eq!(table.set_len(&mut store, 3), Err(ReflectError::OutOfBounds));
    assert_eq!(table.set_len(&mut store, 2), Ok(()));
    assert_eq!(table.get_len(&store), Ok(2));
    assert!(matches!(table.get_elem_ref(&store, 1), Ok(Value::I32(8))));
    assert!(matches!(table.get_elem_ref(&store, 2), Err(ReflectError::OutOfBounds)));
    // the third element fits once the storage has grown
    assert_eq!(table.reserve(&mut store, 1), Ok(()));
    assert_eq!(store.cap, 3);
    assert_eq!(table.reserve(&mut store, 1), Ok(()));
    assert_eq!(store.cap, 3);
    assert_eq!(table.reserve(&mut store, usize::MAX), Err(ReflectError::OutOfBounds));
    assert_eq!(table.write_at(&mut store, 2, Value::I32(9)), Ok(()));
    assert_eq!(table.write_at(&mut store, 0, Value::I32(1)), Ok(()));
    assert!(matches!(table.get_elem_ref(&store, 0), Ok(Value::I32(1))));
    *table.get_elem(&mut store, 1).unwrap() = Value::I32(5);
    assert!(matches!(table.get_elem_ref(&store, 1), Ok(Value::I32(5))));
    assert!(matches!(table.get_elem(&mut store, 2), Err(ReflectError::OutOfBounds)));
}

#[test]
fn skipped_sequence_table() {
    let table = EmptyVecVtableCreator::vtable();
    assert_eq!(table.kind, TableKind::Skip);
    let mut store = table.new_at(4);
    assert_eq!((store.items.len(), store.len, store.cap), (0, 0, 4));
    assert_eq!(table.set_len(&mut store, 0), Err(ReflectError::NotSupported));
    assert_eq!(table.reserve(&mut store, 1), Err(ReflectError::NotSupported));
    assert_eq!(table.get_len(&store), Err(ReflectError::NotSupported));
    assert_eq!(table.write_at(&mut store, 0, Value::I32(1)), Err(ReflectError::NotSupported));
    assert!(matches!(table.get_elem_ref(&store, 0), Err(ReflectError::NotSupported)));
    assert!(matches!(table.get_elem(&mut store, 0), Err(ReflectError::NotSupported)));
    assert_eq!(store.items.len(), 0);
}

#[test]
fn mapping_table() {
    let table = HMVtableCreator::vtable();
    let mut entries = table.new_at();
    assert!(entries.is_empty());
    table.fill_with(&mut entries, Value::I32(1), Value::Bool(true)).unwrap();
    table.fill_with(&mut entries, Value::I32(2), Value::Bool(true)).unwrap();
    table.fill_with(&mut entries, Value::I32(1), Value::Bool(false)).unwrap();
    assert_eq!(entries.len(), 2);
    assert!(entries[0].0.same(&Value::I32(1)) && entries[0].1.same(&Value::Bool(false)));
    assert!(entries[1].0.same(&Value::I32(2)) && entries[1].1.same(&Value::Bool(true)));
    assert_eq!(table.get_elements_ref(&entries).unwrap().len(), 2);
    for (key, value) in table.get_elements(&mut entries).unwrap() {
        if key.same(&Value::I32(2)) {
            *value = Value::Bool(false);
        }
    }
    assert!(entries[1].1.same(&Value::Bool(false)));

    let skipped = EmptyHMVtableCreator::vtable();
    let mut entries = skipped.new_at();
    assert!(entries.is_empty());
    assert_eq!(
        skipped.fill_with(&mut entries, Value::I32(1), Value::I32(1)),
        Err(ReflectError::NotSupported)
    );
    assert!(entries.is_empty());
    assert!(matches!(skipped.get_elements_ref(&entries), Err(ReflectError::NotSupported)));
    assert!(matches!(skipped.get_elements(&mut entries), Err(ReflectError::NotSupported)));
}

#[test]
fn set_table() {
    let table = HSVtableCreator::vtable();
    let mut items = table.new_at();
    table.fill_with(&mut items, Value::I32(1)).unwrap();
    table.fill_with(&mut items, Value::I32(2)).unwrap();
    table.fill_with(&mut items, Value::I32(1)).unwrap();
    assert_eq!(items.len(), 2);
    assert_eq!(table.get_elements_ref(&items).unwrap().len(), 2);

    let skipped = EmptyHSVtableCreator::vtable();
    let mut items = skipped.new_at();
    assert_eq!(skipped.fill_with(&mut items, Value::I32(1)), Err(ReflectError::NotSupported));
    assert!(matches!(skipped.get_elements_ref(&items), Err(ReflectError::NotSupported)));
}

#[test]
fn option_table() {
    let table = OptionVtableCreator::vtable();
    let mut slot = table.new_at();
    assert!(slot.is_none());
    assert!(matches!(table.get_elem_ref(&slot), Ok(None)));
    table.set(&mut slot, Some(Value::I32(3))).unwrap();
    assert!(matches!(table.get_elem_ref(&slot), Ok(Some(Value::I32(3)))));
    *table.get_elem(&mut slot).unwrap().unwrap() = Value::I32(4);
    assert!(matches!(table.get_elem_ref(&slot), Ok(Some(Value::I32(4)))));
    table.set(&mut slot, None).unwrap();
    assert!(slot.is_none());

    let skipped = EmptyOptionVtableCreator::vtable();
    let mut slot = skipped.new_at();
    assert!(slot.is_none());
    assert_eq!(skipped.set(&mut slot, Some(Value::I32(3))), Err(ReflectError::NotSupported));
    assert!(slot.is_none());
    assert!(matches!(skipped.get_elem_ref(&slot), Err(ReflectError::NotSupported)));
    assert!(matches!(skipped.get_elem(&mut slot), Err(ReflectError::NotSupported)));
}

#[test]
fn layouts() {
    assert_eq!(Type::I32.layout(), Layout { size: 4, align: 4 });
    assert_eq!(Type::U32.layout(), Layout { size: 4, align: 4 });
    assert_eq!(Type::F32.layout(), Layout { size: 4, align: 4 });
    assert_eq!(Type::I64.layout().size, 8);
    assert_eq!(Type::U64.layout().size, 8);
    assert_eq!(Type::F64.layout().size, 8);
    assert_eq!(Type::Bool.layout(), Layout { size: 1, align: 1 });
    assert_eq!(Type::USize.layout().size, std::mem::size_of::<usize>());
    assert_eq!(Type::ISize.layout().size, std::mem::size_of::<isize>());
    assert_eq!(Type::String.layout().size, std::mem::size_of::<String>());
    assert_eq!(Type::String.layout().align, std::mem::align_of::<String>());
    let vec_type = <Vec<i32> as Quicksilver>::mirror();
    assert_eq!(vec_type.layout().size, std::mem::size_of::<Vec<i32>>());
    assert_eq!(vec_type.layout().align, std::mem::align_of::<Vec<i32>>());
    assert_eq!(empty_struct().layout(), Layout { size: 0, align: 0 });
}

#[test]
fn descriptors_of_described_types() {
    assert!(matches!(<i32 as Quicksilver>::mirror(), Type::I32));
    assert!(matches!(<String as Quicksilver>::mirror(), Type::String));
    let Type::Vec(v) = <Vec<Option<u64>> as Quicksilver>::mirror() else { panic!() };
    assert!(!v.skip);
    assert_eq!(v.vtable.kind, TableKind::Live);
    let Type::Option(o) = *v.element else { panic!() };
    assert!(matches!(*o.element, Type::U64));
    let Type::HashMap(m) = <std::collections::HashMap<u32, String> as Quicksilver>::mirror()
    else {
        panic!()
    };
    assert!(matches!(*m.key, Type::U32));
    assert!(matches!(*m.value, Type::String));
    let Type::Vec(v) = <Vec<i32> as EmptyContainer>::empty() else { panic!() };
    assert!(v.skip);
    assert_eq!(v.vtable.kind, TableKind::Skip);
    let Type::Struct(s) = *v.element else { panic!() };
    assert_eq!(s.name, "skipped");
    assert!(s.fields.is_empty());
}
