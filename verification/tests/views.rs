use quicksilver::descriptor::{Field, HMType, Struct, Type, VecType};
use quicksilver::error::ReflectError;
use quicksilver::json::{encode, value_to_json};
use quicksilver::map::{EmptyHMVtableCreator, HMVtableCreator};
use quicksilver::mirror::{EmptyContainer, Quicksilver};
use quicksilver::reflections::{RefOrMut, ValueReflection};
use quicksilver::reflections_mut::{reflect, reflect_value};
use quicksilver::reflections_ref::{reflect_ref, reflect_struct_ref, reflect_value_ref};
use quicksilver::value::{SeqStore, Value};
use quicksilver::vec::EmptyVecVtableCreator;

fn seq(items: Vec<Value>) -> Value {
    let len = items.len();
    Value::Vec(SeqStore { items, len, cap: len })
}

#[test]
fn read_only_leaves_refuse_writes() {
    let val = Value::I32(5);
    let mut view = reflect_ref(&val, &Type::I32).unwrap();
    let ValueReflection::I32(leaf) = &mut view else { panic!() };
    assert_eq!(*leaf.deref(), 5);
    assert_eq!(leaf.set(6), Err(ReflectError::NotSupported));
    assert!(matches!(leaf.deref_mut(), Err(ReflectError::NotSupported)));
    assert_eq!(*leaf.deref(), 5);
}

#[test]
fn leaves_from_borrows() {
    let x = 3;
    let mut leaf = RefOrMut::from_ref(&x);
    assert_eq!(leaf.set(4), Err(ReflectError::NotSupported));
    let mut y = 3;
    {
        let mut leaf = RefOrMut::from_mut(&mut y);
        assert_eq!(leaf.set(4), Ok(()));
        assert_eq!(*leaf.deref(), 4);
    }
    assert_eq!(y, 4);
}

#[test]
fn a_view_needs_the_described_shape() {
    assert!(matches!(reflect_ref(&Value::I32(1), &Type::U32), Err(ReflectError::Mismatch)));
    let mut val = Value::Bool(true);
    assert!(matches!(reflect(&mut val, &Type::String), Err(ReflectError::Mismatch)));
    let mirror = Struct {
        size: 4,
        align: 4,
        name: "One".to_string(),
        fields: vec![Field { name: "a".to_string(), ty: Type::I32, offset: 0 }],
    };
    assert!(matches!(reflect_struct_ref(&vec![], &mirror), Err(ReflectError::Mismatch)));
    assert!(matches!(
        reflect_struct_ref(&vec![Value::Bool(true)], &mirror),
        Err(ReflectError::Mismatch)
    ));
    let vals = vec![Value::I32(1)];
    let view = reflect_struct_ref(&vals, &mirror).unwrap();
    assert_eq!(view.name, "One");
    assert_eq!(view.to_json().unwrap(), r#"{"a":1}"#);
    assert!(matches!(encode(&Value::I32(1), &Type::U32), Err(ReflectError::Mismatch)));
}

#[test]
fn sequences_are_entered_on_demand() {
    let ty = <Vec<i32> as Quicksilver>::mirror();
    let mut val = seq(vec![Value::I32(1), Value::I32(2)]);
    {
        let view = reflect_value_ref(&val, &ty).unwrap();
        let ValueReflection::Vec(v) = &view else { panic!() };
        assert_eq!(v.len(), Ok(2));
        assert!(matches!(v.get_ref(1), Ok(ValueReflection::I32(x)) if *x.deref() == 2));
        assert!(matches!(v.get_ref(2), Err(ReflectError::OutOfBounds)));
    }
    {
        let mut view = reflect_value_ref(&val, &ty).unwrap();
        let ValueReflection::Vec(v) = &mut view else { panic!() };
        assert!(matches!(v.get(0), Err(ReflectError::NotSupported)));
    }
    {
        let mut view = reflect_value(&mut val, &ty).unwrap();
        let ValueReflection::Vec(v) = &mut view else { panic!() };
        let ValueReflection::I32(mut leaf) = v.get(0).unwrap() else { panic!() };
        leaf.set(10).unwrap();
        assert!(matches!(v.get(5), Err(ReflectError::OutOfBounds)));
    }
    assert!(val.same(&seq(vec![Value::I32(10), Value::I32(2)])));
}

#[test]
fn an_element_of_the_wrong_kind_is_found_on_access() {
    let ty = <Vec<i32> as Quicksilver>::mirror();
    let val = seq(vec![Value::I32(1), Value::Bool(true)]);
    let view = reflect_value_ref(&val, &ty).unwrap();
    let ValueReflection::Vec(v) = &view else { panic!() };
    assert!(v.get_ref(0).is_ok());
    assert!(matches!(v.get_ref(1), Err(ReflectError::Mismatch)));
    assert!(matches!(value_to_json(&view), Err(ReflectError::Mismatch)));
}

#[test]
fn skipped_containers_refuse_access() {
    let ty = <Vec<i32> as EmptyContainer>::empty();
    let mut val = seq(vec![Value::I32(1)]);
    {
        let view = reflect_value_ref(&val, &ty).unwrap();
        assert_eq!(value_to_json(&view).unwrap(), "[]");
        let ValueReflection::Vec(v) = &view else { panic!() };
        assert_eq!(v.len(), Err(ReflectError::NotSupported));
        assert!(matches!(v.get_ref(0), Err(ReflectError::NotSupported)));
    }
    let mut view = reflect_value(&mut val, &ty).unwrap();
    let ValueReflection::Vec(v) = &mut view else { panic!() };
    assert!(matches!(v.get(0), Err(ReflectError::NotSupported)));

    let ty = <Option<i32> as EmptyContainer>::empty();
    let mut val = Value::Option(Some(Box::new(Value::I32(1))));
    {
        let view = reflect_value_ref(&val, &ty).unwrap();
        let ValueReflection::Option(o) = &view else { panic!() };
        assert!(matches!(o.get_ref(), Err(ReflectError::NotSupported)));
    }
    let mut view = reflect_value(&mut val, &ty).unwrap();
    let ValueReflection::Option(o) = &mut view else { panic!() };
    assert!(matches!(o.get(), Err(ReflectError::NotSupported)));

    let ty = <std::collections::HashSet<i32> as EmptyContainer>::empty();
    let val = Value::HashSet(vec![Value::I32(1)]);
    let view = reflect_value_ref(&val, &ty).unwrap();
    let ValueReflection::HashSet(h) = &view else { panic!() };
    assert!(matches!(h.get_elements_ref(), Err(ReflectError::NotSupported)));
}

#[test]
fn a_table_that_does_not_fit_the_mark_fails_the_encoding() {
    let ty = Type::Vec(VecType {
        element: Box::new(Type::I32),
        vtable: EmptyVecVtableCreator::vtable(),
        skip: false,
        size: 24,
        align: 8,
    });
    assert!(matches!(encode(&seq(vec![]), &ty), Err(ReflectError::NotSupported)));
    let ty = Type::HashMap(HMType {
        key: Box::new(Type::I32),
        value: Box::new(Type::I32),
        vtable: EmptyHMVtableCreator::vtable(),
        skip: false,
        size: 48,
        align: 8,
    });
    assert!(matches!(encode(&Value::HashMap(vec![]), &ty), Err(ReflectError::NotSupported)));
}

#[test]
fn optional_values_are_entered_on_demand() {
    let ty = <Option<String> as Quicksilver>::mirror();
    let mut val = Value::Option(Some(Box::new(Value::String("a".to_string()))));
    {
        let view = reflect_value_ref(&val, &ty).unwrap();
        let ValueReflection::Option(o) = &view else { panic!() };
        let inner = o.get_ref().unwrap().unwrap();
        assert!(matches!(inner, ValueReflection::String(s) if s.deref() == "a"));
    }
    {
        let mut view = reflect_value(&mut val, &ty).unwrap();
        let ValueReflection::Option(o) = &mut view else { panic!() };
        let ValueReflection::String(mut leaf) = o.get().unwrap().unwrap() else { panic!() };
        leaf.set("b".to_string()).unwrap();
    }
    assert!(val.same(&Value::Option(Some(Box::new(Value::String("b".to_string()))))));
    let none = Value::Option(None);
    let view = reflect_value_ref(&none, &ty).unwrap();
    let ValueReflection::Option(o) = &view else { panic!() };
    assert!(o.get_ref().unwrap().is_none());
}

#[test]
fn entries_of_a_mapping() {
    let ty = Type::HashMap(HMType {
        key: Box::new(Type::U32),
        value: Box::new(Type::String),
        vtable: HMVtableCreator::vtable(),
        skip: false,
        size: 48,
        align: 8,
    });
    let mut val = Value::HashMap(vec![
        (Value::U32(1), Value::String("one".to_string())),
        (Value::U32(2), Value::String("two".to_string())),
    ]);
    {
        let view = reflect_value_ref(&val, &ty).unwrap();
        let ValueReflection::HashMap(m) = &view else { panic!() };
        let entries = m.get_elements_ref().unwrap();
        assert_eq!(entries.len(), 2);
        assert!(matches!(&entries[1].key, ValueReflection::U32(k) if *k.deref() == 2));
        assert!(matches!(&entries[1].value, ValueReflection::String(v) if v.deref() == "two"));
        assert!(matches!(entries[0].key_t, Type::U32));
        assert!(matches!(entries[0].value_t, Type::String));
    }
    {
        let mut view = reflect_value_ref(&val, &ty).unwrap();
        let ValueReflection::HashMap(m) = &mut view else { panic!() };
        assert!(matches!(m.get_elements(), Err(ReflectError::NotSupported)));
    }
    {
        let mut view = reflect_value(&mut val, &ty).unwrap();
        let ValueReflection::HashMap(m) = &mut view else { panic!() };
        let mut entries = m.get_elements().unwrap();
        assert_eq!(entries.len(), 2);
        assert!(matches!(&entries[0].key, ValueReflection::U32(k) if *k.deref() == 1));
        // the key of an entry is shown for reading only
        let ValueReflection::U32(key) = &mut entries[0].key else { panic!() };
        assert_eq!(key.set(9), Err(ReflectError::NotSupported));
        let ValueReflection::String(value) = &mut entries[0].value else { panic!() };
        value.set("uno".to_string()).unwrap();
    }
    assert!(val.same(&Value::HashMap(vec![
        (Value::U32(1), Value::String("uno".to_string())),
        (Value::U32(2), Value::String("two".to_string())),
    ])));
}

#[test]
fn elements_of_a_set_are_read_only() {
    let ty = <std::collections::HashSet<i32> as Quicksilver>::mirror();
    let mut val = Value::HashSet(vec![Value::I32(1), Value::I32(2)]);
    let mut view = reflect_value(&mut val, &ty).unwrap();
    let ValueReflection::HashSet(h) = &mut view else { panic!() };
    let mut elements = h.get_elements_ref().unwrap();
    assert_eq!(elements.len(), 2);
    let ValueReflection::I32(leaf) = &mut elements[0] else { panic!() };
    assert_eq!(leaf.set(5), Err(ReflectError::NotSupported));
}

#[test]
fn values_compare_by_what_they_show() {
    let a = Value::Vec(SeqStore { items: vec![Value::I32(1), Value::I32(2)], len: 1, cap: 8 });
    let b = Value::Vec(SeqStore { items: vec![Value::I32(1)], len: 1, cap: 1 });
    assert!(a.same(&b));
    let c = Value::Vec(SeqStore { items: vec![Value::I32(1)], len: 5, cap: 1 });
    assert!(b.same(&c));
    assert!(!a.same(&Value::HashSet(vec![Value::I32(1)])));
    assert!(!Value::F32("1".to_string()).same(&Value::F64("1".to_string())));
    assert!(!Value::RustEnum(0, vec![]).same(&Value::RustEnum(1, vec![])));
    assert!(Value::Option(None).same(&Value::Option(None)));
    assert!(!Value::Option(None).same(&Value::Option(Some(Box::new(Value::I32(1))))));
}

#[test]
fn a_skip_mark_closes_a_container_whatever_its_table() {
    let ty = Type::Vec(VecType {
        element: Box::new(Type::I32),
        vtable: quicksilver::vec::VecVtableCreator::vtable(),
        skip: true,
        size: 24,
        align: 8,
    });
    let mut val = seq(vec![Value::I32(1)]);
    {
        let view = reflect_value_ref(&val, &ty).unwrap();
        assert_eq!(value_to_json(&view).unwrap(), "[]");
        let ValueReflection::Vec(v) = &view else { panic!() };
        assert_eq!(v.len(), Err(ReflectError::NotSupported));
        assert!(matches!(v.get_ref(0), Err(ReflectError::NotSupported)));
    }
    let mut view = reflect_value(&mut val, &ty).unwrap();
    let ValueReflection::Vec(v) = &mut view else { panic!() };
    assert!(matches!(v.get(0), Err(ReflectError::NotSupported)));
}

#[test]
fn writes_through_a_boxed_leaf_reach_the_value() {
    let ty = Type::Box(quicksilver::descriptor::BoxType { inner: Box::new(Type::Bool) });
    let mut val = Value::Box(Box::new(Value::Bool(false)));
    {
        let mut view = reflect(&mut val, &ty).unwrap();
        let ValueReflection::Box(b) = &mut view else { panic!() };
        let ValueReflection::Bool(leaf) = &mut b.inner else { panic!() };
        leaf.set(true).unwrap();
    }
    assert!(val.same(&Value::Box(Box::new(Value::Bool(true)))));
}
