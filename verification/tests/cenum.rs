use quicksilver::descriptor::{CEnum, Field, Struct, Type};
use quicksilver::json::from_json;
use quicksilver::reflections_ref::reflect_ref;
use quicksilver::value::Value;

fn number_type() -> Type {
    Type::CEnum(CEnum {
        size: 4,
        align: 4,
        name: "Number".to_string(),
        variants: vec![
            (0, "Zero".to_string()),
            (1, "One".to_string()),
            (2, "Two".to_string()),
            (3, "Four".to_string()),
        ],
    })
}

fn container_type() -> Type {
    Type::Struct(Struct {
        size: 4,
        align: 4,
        name: "Container".to_string(),
        fields: vec![Field { name: "number".to_string(), ty: number_type(), offset: 0 }],
    })
}

#[test]
fn enum_roundtrip() {
    let ty = container_type();
    let val = Value::Struct(vec![Value::CEnum(2)]);
    let s = reflect_ref(&val, &ty).unwrap().to_json().unwrap();
    println!("{}", &s);
    assert_eq!(s, r#"{"number":2}"#);
    let val2 = from_json(&s, &ty).unwrap();
    assert!(val.same(&val2));
}

#[test]
fn enum_roundtrip_naked() {
    let ty = number_type();
    let val = Value::CEnum(2);
    let s = reflect_ref(&val, &ty).unwrap().to_json().unwrap();
    println!("reflected val = {}", &s);
    assert_eq!(s, "2");
    let val2 = from_json(&s, &ty).unwrap();
    assert!(val.same(&val2));
}
