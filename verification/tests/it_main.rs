use quicksilver::descriptor::{Field, HMType, Struct, Type, VecType};
use quicksilver::json::from_json;
use quicksilver::map::HMVtableCreator;
use quicksilver::reflections::ValueReflection;
use quicksilver::reflections_mut::reflect;
use quicksilver::value::{SeqStore, Value};
use quicksilver::vec::VecVtableCreator;

fn field(name: &str, ty: Type, offset: usize) -> Field {
    Field { name: name.to_string(), ty, offset }
}

fn point_type() -> Type {
    Type::Struct(Struct {
        size: 8,
        align: 4,
        name: "Point".to_string(),
        fields: vec![field("x", Type::I32, 0), field("y", Type::I32, 4)],
    })
}

fn point(x: i32, y: i32) -> Value {
    Value::Struct(vec![Value::I32(x), Value::I32(y)])
}

fn seq(items: Vec<Value>) -> Value {
    let len = items.len();
    Value::Vec(SeqStore { items, len, cap: len })
}

fn string(s: &str) -> Value {
    Value::String(s.to_string())
}

fn to_json_string(val: &mut Value, ty: &Type) -> String {
    let view = reflect(val, ty).unwrap();
    let ValueReflection::Struct(s) = &view else { panic!() };
    s.to_json_string().unwrap()
}

#[test]
fn main_vec_roundtrip() {
    let ty = Type::Struct(Struct {
        size: 56,
        align: 8,
        name: "VecHolder".to_string(),
        fields: vec![
            field("name", Type::String, 0),
            field("age", Type::I32, 48),
            field("alive", Type::Bool, 52),
            field(
                "values",
                Type::Vec(VecType {
                    element: Box::new(point_type()),
                    vtable: VecVtableCreator::vtable(),
                    skip: false,
                    size: 24,
                    align: 8,
                }),
                24,
            ),
        ],
    });
    let mut val = Value::Struct(vec![
        string("Kampffrosch"),
        Value::I32(30),
        Value::Bool(true),
        seq(vec![point(1, 2), point(2, 4), point(3, 6)]),
    ]);
    let s = to_json_string(&mut val, &ty);
    let val2 = from_json(&s, &ty).unwrap();
    assert!(val.same(&val2));
}

#[test]
fn main_hm_roundtrip() {
    let ty = Type::Struct(Struct {
        size: 48,
        align: 8,
        name: "HMHolder".to_string(),
        fields: vec![field(
            "map",
            Type::HashMap(HMType {
                key: Box::new(point_type()),
                value: Box::new(Type::String),
                vtable: HMVtableCreator::vtable(),
                skip: false,
                size: 48,
                align: 8,
            }),
            0,
        )],
    });
    let mut val = Value::Struct(vec![Value::HashMap(vec![
        (point(1, 2), string("Point of no return")),
        (point(2, 2), string("Point of its really too late now")),
        (point(3, 2), string("Point of deep regret")),
    ])]);
    let s = to_json_string(&mut val, &ty);
    let val2 = from_json(&s, &ty).unwrap();
    assert!(val.same(&val2));
}
