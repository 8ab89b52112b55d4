use quicksilver::descriptor::{Field, RustEnum, RustEnumVariant, Struct, Type};
use quicksilver::error::DecodeError;
use quicksilver::json::from_json;
use quicksilver::reflections::ValueReflection;
use quicksilver::reflections_mut::reflect;
use quicksilver::reflections_ref::reflect_ref;
use quicksilver::value::Value;

fn ability_type() -> Type {
    Type::RustEnum(RustEnum {
        size: 32,
        align: 8,
        name: "Ability".to_string(),
        variants: vec![
            RustEnumVariant { name: "DoNothing".to_string(), fields: vec![] },
            RustEnumVariant {
                name: "Attack".to_string(),
                fields: vec![("who".to_string(), Type::String), ("damage".to_string(), Type::I32)],
            },
            RustEnumVariant {
                name: "Shout".to_string(),
                fields: vec![("0".to_string(), Type::String)],
            },
        ],
    })
}

fn container_type() -> Type {
    Type::Struct(Struct {
        size: 32,
        align: 8,
        name: "Container".to_string(),
        fields: vec![Field { name: "ability".to_string(), ty: ability_type(), offset: 0 }],
    })
}

fn do_nothing() -> Value {
    Value::RustEnum(0, vec![])
}

fn attack(who: &str, damage: i32) -> Value {
    Value::RustEnum(1, vec![Value::String(who.to_string()), Value::I32(damage)])
}

fn shout(what: &str) -> Value {
    Value::RustEnum(2, vec![Value::String(what.to_string())])
}

#[test]
fn rust_enum_roundtrip() {
    let ty = container_type();
    let mut val = Value::Struct(vec![attack("Goblin", 33)]);
    let s = reflect(&mut val, &ty).unwrap().to_json().unwrap();
    println!("{}", &s);
    assert_eq!(s, r#"{"ability":{"__enum_variant":"Attack","who":"Goblin","damage":33}}"#);
    let val2 = from_json(&s, &ty).unwrap();
    assert!(val.same(&val2));
}

#[test]
fn rust_enum_roundtrip_ref() {
    let ty = container_type();
    let val = Value::Struct(vec![shout("I am the greatest!")]);
    let s = reflect_ref(&val, &ty).unwrap().to_json().unwrap();
    println!("{}", &s);
    assert_eq!(s, r#"{"ability":{"__enum_variant":"Shout","0":"I am the greatest!"}}"#);
}

#[test]
fn every_variant_kind_round_trips() {
    let ty = ability_type();
    for val in [do_nothing(), attack("Goblin", 33), shout("I am the greatest!")] {
        let s = reflect_ref(&val, &ty).unwrap().to_json().unwrap();
        let val2 = from_json(&s, &ty).unwrap();
        assert!(val.same(&val2));
    }
    let s = reflect_ref(&do_nothing(), &ty).unwrap().to_json().unwrap();
    assert_eq!(s, r#"{"__enum_variant":"DoNothing"}"#);
}

#[test]
fn unknown_variant_is_a_failure() {
    let ty = ability_type();
    let r = from_json(r#"{"__enum_variant":"Retreat"}"#, &ty);
    assert!(matches!(r, Err(DecodeError::UnknownVariant)));
    let r = from_json(r#"{"__enum_variant":"attack","who":"Goblin","damage":33}"#, &ty);
    assert!(matches!(r, Err(DecodeError::UnknownVariant)));
}

#[test]
fn view_of_a_tagged_union_names_its_variant() {
    let ty = ability_type();
    let val = attack("Goblin", 33);
    let view = reflect_ref(&val, &ty).unwrap();
    let ValueReflection::RustEnum(e) = &view else { panic!() };
    assert_eq!(e.name, "Ability");
    assert_eq!(e.variant_name, "Attack");
    assert_eq!(e.variant_idx, 1);
    assert_eq!(e.fields.len(), 2);
    assert_eq!(e.fields[0].name, "who");
    assert_eq!(e.fields[1].name, "damage");
}
