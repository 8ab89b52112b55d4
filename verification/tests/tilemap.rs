use quicksilver::descriptor::{CEnum, Field, Struct, Type, VecType};
use quicksilver::json::from_json;
use quicksilver::reflections_ref::reflect_ref;
use quicksilver::value::{SeqStore, Value};
use quicksilver::vec::VecVtableCreator;

fn field(name: &str, ty: Type, offset: usize) -> Field {
    Field { name: name.to_string(), ty, offset }
}

fn tile_type() -> Type {
    Type::CEnum(CEnum {
        size: 4,
        align: 4,
        name: "Tile".to_string(),
        variants: vec![(0, "Floor".to_string()), (1, "Wall".to_string())],
    })
}

fn tilemap_type() -> Type {
    Type::Struct(Struct {
        size: 32,
        align: 8,
        name: "Tilemap".to_string(),
        fields: vec![
            field(
                "tiles",
                Type::Vec(VecType {
                    element: Box::new(tile_type()),
                    vtable: VecVtableCreator::vtable(),
                    skip: false,
                    size: 24,
                    align: 8,
                }),
                0,
            ),
            field("width", Type::I32, 24),
            field("height", Type::I32, 28),
        ],
    })
}

fn seq(items: Vec<Value>) -> Value {
    let len = items.len();
    Value::Vec(SeqStore { items, len, cap: len })
}

#[test]
fn tilemap_roundtrip() {
    let ty = tilemap_type();
    let mut tiles = Vec::new();
    for _ in 0..25 {
        tiles.push(Value::CEnum(1));
    }
    let val = Value::Struct(vec![seq(tiles), Value::I32(5), Value::I32(5)]);
    let s = reflect_ref(&val, &ty).unwrap().to_json().unwrap();
    let val2 = from_json(&s, &ty).unwrap();
    assert!(val.same(&val2));
    let Value::Struct(fields) = &val2 else { panic!() };
    let Value::Vec(store) = &fields[0] else { panic!() };
    assert_eq!(store.len, 25);
}
