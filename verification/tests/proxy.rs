use quicksilver::descriptor::{
    Field, HMType, RustEnum, RustEnumVariant, Struct, Type, VecType,
};
use quicksilver::json::from_json;
use quicksilver::map::HMVtableCreator;
use quicksilver::reflections_ref::reflect_ref;
use quicksilver::value::{SeqStore, Value};
use quicksilver::vec::VecVtableCreator;

fn field(name: &str, ty: Type, offset: usize) -> Field {
    Field { name: name.to_string(), ty, offset }
}

fn entity_wrapper_type() -> Type {
    Type::Struct(Struct {
        size: 8,
        align: 4,
        name: "EntityWrapper".to_string(),
        fields: vec![field("id", Type::U32, 0), field("generation", Type::U32, 4)],
    })
}

fn entity(id: u32, generation: u32) -> Value {
    Value::Struct(vec![Value::U32(id), Value::U32(generation)])
}

fn seq(items: Vec<Value>) -> Value {
    let len = items.len();
    Value::Vec(SeqStore { items, len, cap: len })
}

fn entity_vec_type() -> Type {
    Type::Vec(VecType {
        element: Box::new(entity_wrapper_type()),
        vtable: VecVtableCreator::vtable(),
        skip: false,
        size: 24,
        align: 8,
    })
}

fn container_type() -> Type {
    Type::Struct(Struct {
        size: 80,
        align: 8,
        name: "Container".to_string(),
        fields: vec![
            field("leader", entity_wrapper_type(), 72),
            field("followers", entity_vec_type(), 0),
            field(
                "mappings",
                Type::HashMap(HMType {
                    key: Box::new(Type::U32),
                    value: Box::new(entity_wrapper_type()),
                    vtable: HMVtableCreator::vtable(),
                    skip: false,
                    size: 48,
                    align: 8,
                }),
                24,
            ),
        ],
    })
}

#[test]
fn subst_roundtrip() {
    let ty = container_type();
    let val = Value::Struct(vec![
        entity(1, 1),
        seq(vec![entity(2, 1), entity(3, 701), entity(4, 1)]),
        Value::HashMap(vec![(Value::U32(23), entity(23, 12))]),
    ]);
    let s = reflect_ref(&val, &ty).unwrap().to_json().unwrap();
    println!("{}", &s);
    assert_eq!(
        s,
        r#"{"leader":{"id":1,"generation":1},"followers":[{"id":2,"generation":1},{"id":3,"generation":701},{"id":4,"generation":1}],"mappings":[{"key":23,"value":{"id":23,"generation":12}}]}"#
    );
    let val2 = from_json(&s, &ty).unwrap();
    assert!(val.same(&val2));
}

fn container_enum_type() -> Type {
    Type::RustEnum(RustEnum {
        size: 32,
        align: 8,
        name: "ContainerEnum".to_string(),
        variants: vec![
            RustEnumVariant {
                name: "One".to_string(),
                fields: vec![("0".to_string(), entity_wrapper_type())],
            },
            RustEnumVariant {
                name: "More".to_string(),
                fields: vec![("followers".to_string(), entity_vec_type())],
            },
        ],
    })
}

#[test]
fn subst_roundtrip_enum_one() {
    let ty = container_enum_type();
    let val = Value::RustEnum(0, vec![entity(1, 1)]);
    let s = reflect_ref(&val, &ty).unwrap().to_json().unwrap();
    println!("{}", &s);
    assert_eq!(s, r#"{"__enum_variant":"One","0":{"id":1,"generation":1}}"#);
    let val2 = from_json(&s, &ty).unwrap();
    assert!(val.same(&val2));
}

#[test]
fn subst_roundtrip_enum_more() {
    let ty = container_enum_type();
    let val = Value::RustEnum(1, vec![seq(vec![entity(2, 1), entity(3, 701), entity(4, 1)])]);
    let s = reflect_ref(&val, &ty).unwrap().to_json().unwrap();
    println!("{}", &s);
    let val2 = from_json(&s, &ty).unwrap();
    assert!(val.same(&val2));
}
