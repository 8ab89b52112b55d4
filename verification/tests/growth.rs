use quicksilver::descriptor::{HSType, OptionType, Struct, Field, Type, VecType};
use quicksilver::error::DecodeError;
use quicksilver::json::{encode, from_json};
use quicksilver::mirror::{EmptyContainer, Quicksilver};
use quicksilver::option::OptionVtableCreator;
use quicksilver::set::HSVtableCreator;
use quicksilver::value::{SeqStore, Value};
use quicksilver::vec::VecVtableCreator;

fn numbers(n: i32) -> (Value, String) {
    let items: Vec<Value> = (0..n).map(|i| Value::I32(i * 3 - 7)).collect();
    let text: Vec<String> = (0..n).map(|i| format!("{}", i * 3 - 7)).collect();
    let len = items.len();
    (Value::Vec(SeqStore { items, len, cap: len }), format!("[{}]", text.join(",")))
}

#[test]
fn sequences_of_every_length_are_decoded() {
    let ty = <Vec<i32> as Quicksilver>::mirror();
    for n in [0, 1, 3, 4, 5, 11, 12, 13, 20, 21, 100] {
        let (val, text) = numbers(n);
        assert_eq!(encode(&val, &ty).unwrap(), text);
        let back = from_json(&text, &ty).unwrap();
        let Value::Vec(store) = &back else { panic!() };
        assert_eq!(store.len, n as usize);
        assert_eq!(store.items.len(), n as usize);
        for i in 0..n {
            assert!(matches!(store.items[i as usize], Value::I32(x) if x == i * 3 - 7));
        }
        assert!(val.same(&back));
    }
}

#[test]
fn storage_grows_by_eight_from_four() {
    let ty = <Vec<i32> as Quicksilver>::mirror();
    for (n, cap) in [(0, 4), (1, 4), (4, 4), (5, 12), (12, 12), (13, 20)] {
        let (_, text) = numbers(n);
        let back = from_json(&text, &ty).unwrap();
        let Value::Vec(store) = &back else { panic!() };
        assert_eq!(store.cap, cap);
    }
}

#[test]
fn nested_sequences() {
    let ty = <Vec<Vec<u64>> as Quicksilver>::mirror();
    let back = from_json("[[1,2],[],[3]]", &ty).unwrap();
    assert_eq!(encode(&back, &ty).unwrap(), "[[1,2],[],[3]]");
}

#[test]
fn malformed_sequences() {
    let ty = <Vec<i32> as Quicksilver>::mirror();
    assert!(matches!(from_json("[1,2", &ty), Err(DecodeError::UnexpectedEnd)));
    assert!(matches!(from_json("[1 2]", &ty), Err(DecodeError::Malformed)));
    assert!(matches!(from_json("[1,,2]", &ty), Err(DecodeError::Malformed)));
    assert!(matches!(from_json("1,2]", &ty), Err(DecodeError::Malformed)));
    assert!(matches!(from_json("", &ty), Err(DecodeError::UnexpectedEnd)));
    assert!(matches!(from_json("[1,2147483648]", &ty), Err(DecodeError::OutOfRange)));
}

#[test]
fn optional_values() {
    let ty = Type::Option(OptionType {
        element: Box::new(Type::Struct(Struct {
            size: 8,
            align: 4,
            name: "Point".to_string(),
            fields: vec![
                Field { name: "x".to_string(), ty: Type::I32, offset: 0 },
                Field { name: "y".to_string(), ty: Type::I32, offset: 4 },
            ],
        })),
        vtable: OptionVtableCreator::vtable(),
        skip: false,
        size: 12,
        align: 4,
    });
    let some = Value::Option(Some(Box::new(Value::Struct(vec![Value::I32(1), Value::I32(2)]))));
    let none = Value::Option(None);
    assert_eq!(encode(&some, &ty).unwrap(), r#"[{"x":1,"y":2}]"#);
    assert_eq!(encode(&none, &ty).unwrap(), "[]");
    assert!(from_json(r#"[{"x":1,"y":2}]"#, &ty).unwrap().same(&some));
    assert!(from_json("[]", &ty).unwrap().same(&none));
    assert!(matches!(from_json(r#"[{"x":1,"y":2},"#, &ty), Err(DecodeError::Malformed)));
}

#[test]
fn sets_keep_one_of_each() {
    let ty = Type::HashSet(HSType {
        element: Box::new(Type::String),
        vtable: HSVtableCreator::vtable(),
        skip: false,
        size: 48,
        align: 8,
    });
    let back = from_json(r#"["a","b","a","c","b"]"#, &ty).unwrap();
    assert_eq!(encode(&back, &ty).unwrap(), r#"["a","b","c"]"#);
    let back2 = from_json(r#"["a","b","c"]"#, &ty).unwrap();
    assert!(back.same(&back2));
}

#[test]
fn skipped_containers_encode_empty_and_decode_empty() {
    let skipped_vec = <Vec<i32> as EmptyContainer>::empty();
    let (val, _) = numbers(3);
    assert_eq!(encode(&val, &skipped_vec).unwrap(), "[]");
    let back = from_json("[]", &skipped_vec).unwrap();
    let Value::Vec(store) = &back else { panic!() };
    assert_eq!(store.len, 0);
    assert!(matches!(from_json("[{}]", &skipped_vec), Err(DecodeError::NotSupported)));

    let skipped_option = <Option<i32> as EmptyContainer>::empty();
    let some = Value::Option(Some(Box::new(Value::I32(5))));
    assert_eq!(encode(&some, &skipped_option).unwrap(), "[]");
    assert!(from_json("[]", &skipped_option).unwrap().same(&Value::Option(None)));
    assert!(matches!(from_json("[{}]", &skipped_option), Err(DecodeError::NotSupported)));

    let skipped_set = <std::collections::HashSet<i32> as EmptyContainer>::empty();
    assert!(from_json("[]", &skipped_set).unwrap().same(&Value::HashSet(vec![])));
    assert!(matches!(from_json("[{}]", &skipped_set), Err(DecodeError::NotSupported)));

    let skipped_map = <std::collections::HashMap<i32, i32> as EmptyContainer>::empty();
    assert!(from_json("[]", &skipped_map).unwrap().same(&Value::HashMap(vec![])));
    assert!(matches!(
        from_json(r#"[{"key":{},"value":{}}]"#, &skipped_map),
        Err(DecodeError::NotSupported)
    ));
}

#[test]
fn what_follows_the_value_is_not_read() {
    let back = from_json("12,rest", &Type::I32).unwrap();
    assert!(back.same(&Value::I32(12)));
    let ty = <Vec<i32> as Quicksilver>::mirror();
    assert!(from_json("[1]]", &ty).is_ok());
}

#[test]
fn top_level_leaves_round_trip() {
    for (val, ty, text) in [
        (Value::Bool(true), Type::Bool, "true"),
        (Value::Bool(false), Type::Bool, "false"),
        (Value::I64(i64::MIN), Type::I64, "-9223372036854775808"),
        (Value::U64(u64::MAX), Type::U64, "18446744073709551615"),
        (Value::ISize(-1), Type::ISize, "-1"),
        (Value::USize(17), Type::USize, "17"),
        (Value::F64("2.5".to_string()), Type::F64, "2.5"),
        (Value::String("a\"b".to_string()), Type::String, r#""a\"b""#),
        (Value::Box(Box::new(Value::I32(4))), boxed(Type::I32), "4"),
    ] {
        assert_eq!(encode(&val, &ty).unwrap(), text);
        assert!(from_json(text, &ty).unwrap().same(&val));
    }
}

fn boxed(inner: Type) -> Type {
    Type::Box(quicksilver::descriptor::BoxType { inner: Box::new(inner) })
}
