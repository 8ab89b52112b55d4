use quicksilver::descriptor::{Field, Struct, Type, VecType};
use quicksilver::json::from_json;
use quicksilver::reflections::ValueReflection;
use quicksilver::reflections_mut::reflect;
use quicksilver::value::{SeqStore, Value};
use quicksilver::vec::VecVtableCreator;

fn field(name: &str, ty: Type, offset: usize) -> Field {
    Field { name: name.to_string(), ty, offset }
}

fn point_type() -> Type {
    Type::Struct(Struct {
        size: 8,
        align: 4,
        name: "Point".to_string(),
        fields: vec![field("x", Type::I32, 0), field("y", Type::I32, 4)],
    })
}

fn my_data_type() -> Type {
    Type::Struct(Struct {
        size: 48,
        align: 8,
        name: "MyData".to_string(),
        fields: vec![
            field("id", Type::U32, 0),
            field("name", Type::String, 8),
            field("value", Type::F32, 32),
            field("location", point_type(), 36),
            field("is_active", Type::I32, 44),
        ],
    })
}

fn to_json_string(val: &mut Value, ty: &Type) -> String {
    let view = reflect(val, ty).unwrap();
    let ValueReflection::Struct(s) = &view else { panic!() };
    s.to_json_string().unwrap()
}

#[test]
fn json_test_json_serialization() {
    let mut my_data = Value::Struct(vec![
        Value::U32(789),
        Value::String("Another \"Test\" String with \\backslashes\\".to_string()),
        Value::F32(format!("{}", 123.45f32)),
        Value::Struct(vec![Value::I32(-5), Value::I32(30)]),
        Value::I32(1),
    ]);
    let ty = my_data_type();

    let json_string = to_json_string(&mut my_data, &ty);

    let expected_json = r#"{"id":789,"name":"Another \"Test\" String with \\backslashes\\","value":123.45,"location":{"x":-5,"y":30},"is_active":1}"#;

    assert_eq!(json_string, expected_json);

    let deserialized = from_json(&json_string, &ty).unwrap();
    assert!(my_data.same(&deserialized));
}

fn vec_holder_type() -> Type {
    Type::Struct(Struct {
        size: 56,
        align: 8,
        name: "VecHolder".to_string(),
        fields: vec![
            field("name", Type::String, 0),
            field("age", Type::I32, 48),
            field(
                "values",
                Type::Vec(VecType {
                    element: Box::new(Type::I32),
                    vtable: VecVtableCreator::vtable(),
                    skip: false,
                    size: 24,
                    align: 8,
                }),
                24,
            ),
        ],
    })
}

#[test]
fn json_vec_roundtrip() {
    let ty = vec_holder_type();
    let items: Vec<Value> = vec![1, 2, 3, 4, 5].into_iter().map(Value::I32).collect();
    let mut val = Value::Struct(vec![
        Value::String("Kampffrosch".to_string()),
        Value::I32(30),
        Value::Vec(SeqStore { items, len: 5, cap: 5 }),
    ]);
    let s = to_json_string(&mut val, &ty);
    assert_eq!(s, r#"{"name":"Kampffrosch","age":30,"values":[1,2,3,4,5]}"#);
    let val2 = from_json(&s, &ty).unwrap();
    assert!(val.same(&val2));
}
