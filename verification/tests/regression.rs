use quicksilver::descriptor::{CEnum, Field, HMType, Struct, Type, VecType};
use quicksilver::json::from_json;
use quicksilver::map::HMVtableCreator;
use quicksilver::reflections_ref::reflect_ref;
use quicksilver::value::{SeqStore, Value};
use quicksilver::vec::VecVtableCreator;

fn field(name: &str, ty: Type, offset: usize) -> Field {
    Field { name: name.to_string(), ty, offset }
}

fn fpos_type() -> Type {
    Type::Struct(Struct {
        size: 8,
        align: 4,
        name: "FPos".to_string(),
        fields: vec![field("x", Type::F32, 0), field("y", Type::F32, 4)],
    })
}

fn drawpos_type() -> Type {
    Type::Struct(Struct {
        size: 8,
        align: 4,
        name: "DrawPos".to_string(),
        fields: vec![field("0", fpos_type(), 0)],
    })
}

#[test]
fn drawpos_deser() {
    let s = r#"{"0":{"x":384,"y":192}}"#;
    let val2 = from_json(&s, &drawpos_type()).unwrap();
    let expected = Value::Struct(vec![Value::Struct(vec![
        Value::F32("384".to_string()),
        Value::F32("192".to_string()),
    ])]);
    assert!(val2.same(&expected));
}

fn my_enum_type() -> Type {
    Type::CEnum(CEnum {
        size: 4,
        align: 4,
        name: "MyEnum".to_string(),
        variants: vec![(0, "A".to_string()), (1, "B".to_string()), (2, "C".to_string())],
    })
}

fn pair_type() -> Type {
    Type::Struct(Struct {
        size: 32,
        align: 8,
        name: "Pair".to_string(),
        fields: vec![field("0", Type::U32, 24), field("1", Type::String, 0)],
    })
}

fn hm_holder_type() -> Type {
    Type::Struct(Struct {
        size: 48,
        align: 8,
        name: "HMHolder".to_string(),
        fields: vec![field(
            "map",
            Type::HashMap(HMType {
                key: Box::new(Type::String),
                value: Box::new(Type::Vec(VecType {
                    element: Box::new(pair_type()),
                    vtable: VecVtableCreator::vtable(),
                    skip: false,
                    size: 24,
                    align: 8,
                })),
                vtable: HMVtableCreator::vtable(),
                skip: false,
                size: 48,
                align: 8,
            }),
            0,
        )],
    })
}

fn seq(items: Vec<Value>) -> Value {
    let len = items.len();
    Value::Vec(SeqStore { items, len, cap: len })
}

// this wasn't actually a bug, but I'll leave the test in to see that this case is working
#[test]
fn vec_in_hashmap() {
    let ty = hm_holder_type();
    let payload = reflect_ref(&Value::CEnum(0), &my_enum_type()).unwrap().to_json().unwrap();
    assert_eq!(payload, "0");
    let val = Value::Struct(vec![Value::HashMap(vec![(
        Value::String("MyKey".to_string()),
        seq(vec![Value::Struct(vec![Value::U32(0), Value::String(payload)])]),
    )])]);
    let s = reflect_ref(&val, &ty).unwrap().to_json().unwrap();
    println!("{}", &s);
    assert_eq!(s, r#"{"map":[{"key":"MyKey","value":[{"0":0,"1":"0"}]}]}"#);
    let val2 = from_json(&s, &ty).unwrap();
    assert!(val.same(&val2));
}
