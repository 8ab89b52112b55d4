use std::collections::HashMap;

use quicksilver::descriptor::{Field, HMType, Struct, Type, VecType};
use quicksilver::json::from_json;
use quicksilver::map::HMVtableCreator;
use quicksilver::mirror::EmptyContainer;
use quicksilver::reflections_ref::reflect_ref;
use quicksilver::value::{SeqStore, Value};
use quicksilver::vec::VecVtableCreator;

fn field(name: &str, ty: Type, offset: usize) -> Field {
    Field { name: name.to_string(), ty, offset }
}

fn point_type() -> Type {
    Type::Struct(Struct {
        size: 8,
        align: 4,
        name: "Point".to_string(),
        fields: vec![field("x", Type::I32, 0), field("y", Type::I32, 4)],
    })
}

fn point(x: i32, y: i32) -> Value {
    Value::Struct(vec![Value::I32(x), Value::I32(y)])
}

fn seq(items: Vec<Value>) -> Value {
    let len = items.len();
    Value::Vec(SeqStore { items, len, cap: len })
}

fn string(s: &str) -> Value {
    Value::String(s.to_string())
}

fn vec_holder_type() -> Type {
    Type::Struct(Struct {
        size: 56,
        align: 8,
        name: "VecHolder".to_string(),
        fields: vec![
            field("name", Type::String, 0),
            field("age", Type::I32, 48),
            field("alive", Type::Bool, 52),
            field(
                "values",
                Type::Vec(VecType {
                    element: Box::new(point_type()),
                    vtable: VecVtableCreator::vtable(),
                    skip: false,
                    size: 24,
                    align: 8,
                }),
                24,
            ),
        ],
    })
}

#[test]
fn containers_vec_roundtrip() {
    let ty = vec_holder_type();
    let val = Value::Struct(vec![
        string("Kampffrosch"),
        Value::I32(30),
        Value::Bool(true),
        seq(vec![point(1, 2), point(2, 4), point(3, 6)]),
    ]);
    let s = reflect_ref(&val, &ty).unwrap().to_json().unwrap();
    assert_eq!(
        s,
        r#"{"name":"Kampffrosch","age":30,"alive":true,"values":[{"x":1,"y":2},{"x":2,"y":4},{"x":3,"y":6}]}"#
    );
    let val2 = from_json(&s, &ty).unwrap();
    assert!(val.same(&val2));
}

fn hm_holder_type() -> Type {
    Type::Struct(Struct {
        size: 48,
        align: 8,
        name: "HMHolder".to_string(),
        fields: vec![field(
            "map",
            Type::HashMap(HMType {
                key: Box::new(point_type()),
                value: Box::new(Type::String),
                vtable: HMVtableCreator::vtable(),
                skip: false,
                size: 48,
                align: 8,
            }),
            0,
        )],
    })
}

fn same_entries(a: &Value, b: &Value) -> bool {
    let (Value::HashMap(x), Value::HashMap(y)) = (a, b) else {
        return false;
    };
    x.len() == y.len()
        && x.iter().all(|(k, v)| y.iter().any(|(k2, v2)| k.same(k2) && v.same(v2)))
}

#[test]
fn containers_hm_roundtrip() {
    let ty = hm_holder_type();
    let val = Value::Struct(vec![Value::HashMap(vec![
        (point(1, 2), string("Point of no return")),
        (point(2, 2), string("Point of its really too late now")),
        (point(3, 2), string("Point of deep regret")),
    ])]);
    let s = reflect_ref(&val, &ty).unwrap().to_json().unwrap();
    println!("{}", &s);
    let val2 = from_json(&s, &ty).unwrap();
    let (Value::Struct(a), Value::Struct(b)) = (&val, &val2) else { panic!() };
    assert!(same_entries(&a[0], &b[0]));
    assert!(val.same(&val2));
}

fn hm_holder2_type() -> Type {
    Type::Struct(Struct {
        size: 72,
        align: 8,
        name: "HMHolder2".to_string(),
        fields: vec![
            field("name", Type::String, 0),
            field("map", <HashMap<u8, u8> as EmptyContainer>::empty(), 24),
        ],
    })
}

#[test]
fn hm_roundtrip_skipped() {
    let ty = hm_holder2_type();
    let mut val = Value::Struct(vec![
        string("blab"),
        Value::HashMap(vec![
            (point(1, 2), Value::Box(Box::new(string("Point of no return")))),
            (point(2, 2), Value::Box(Box::new(string("Point of its really too late now")))),
        ]),
    ]);
    let s = reflect_ref(&val, &ty).unwrap().to_json().unwrap();
    println!("{}", &s);
    assert_eq!(s, r#"{"name":"blab","map":[]}"#);
    let val2 = from_json(&s, &ty).unwrap();
    assert!(!val.same(&val2));
    let Value::Struct(fields) = &mut val else { panic!() };
    let Value::HashMap(entries) = &mut fields[1] else { panic!() };
    entries.clear();
    assert!(val.same(&val2));
}

fn my_data_type() -> Type {
    Type::Struct(Struct {
        size: 56,
        align: 8,
        name: "MyData".to_string(),
        fields: vec![
            field("id", Type::U32, 0),
            field("name", Type::String, 8),
            field("value", Type::F32, 32),
            field("location", point_type(), 36),
            field("is_active", Type::USize, 48),
        ],
    })
}

#[test]
fn containers_test_json_serialization() {
    let my_data = Value::Struct(vec![
        Value::U32(789),
        string("Another \"Test\" String with \\backslashes\\"),
        Value::F32(format!("{}", 123.45f32)),
        point(-5, 30),
        Value::USize(1),
    ]);
    let ty = my_data_type();

    let reflected_data = reflect_ref(&my_data, &ty).unwrap();
    let json_string = reflected_data.to_json().unwrap();

    let expected_json = r#"{"id":789,"name":"Another \"Test\" String with \\backslashes\\","value":123.45,"location":{"x":-5,"y":30},"is_active":1}"#;

    assert_eq!(json_string, expected_json);

    let deserialized = from_json(&json_string, &ty).unwrap();
    assert!(my_data.same(&deserialized));
}
