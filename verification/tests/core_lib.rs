use quicksilver::descriptor::{Field, Struct, Type};
use quicksilver::reflections::{StructReflection, ValueReflection};
use quicksilver::reflections_mut::{reflect, reflect_struct};
use quicksilver::value::Value;

fn field(name: &str, ty: Type, offset: usize) -> Field {
    Field { name: name.to_string(), ty, offset }
}

fn point_mirror() -> Struct {
    Struct {
        size: 8,
        align: 4,
        name: "Point".to_string(),
        fields: vec![field("x", Type::I32, 0), field("y", Type::I32, 4)],
    }
}

fn my_data_mirror() -> Struct {
    Struct {
        size: 48,
        align: 8,
        name: "MyData".to_string(),
        fields: vec![
            field("id", Type::U32, 0),
            field("name", Type::String, 8),
            field("value", Type::F32, 32),
            field("location", Type::Struct(point_mirror()), 36),
            field("is_active", Type::I32, 44),
        ],
    }
}

fn my_data(id: u32, name: &str, value: f32, x: i32, y: i32, is_active: i32) -> Vec<Value> {
    vec![
        Value::U32(id),
        Value::String(name.to_string()),
        Value::F32(format!("{}", value)),
        Value::Struct(vec![Value::I32(x), Value::I32(y)]),
        Value::I32(is_active),
    ]
}

#[test]
fn lib_test_reflection_my_data() {
    let mut data = my_data(123, "Test Data", 42.5, 10, 20, 1);
    let mirror = my_data_mirror();

    {
        let mut reflected_data: StructReflection = reflect_struct(&mut data, &mirror).unwrap();

        assert_eq!(reflected_data.fields.len(), 5);

        // Test 'id' field
        let id_field = &mut reflected_data.fields[0];
        assert_eq!(id_field.name, "id");
        if let ValueReflection::U32(id_ref) = &mut id_field.value {
            assert_eq!(*id_ref.deref(), 123);
            id_ref.set(456).unwrap(); // Modify through reflection
        } else {
            panic!("Expected U32 for 'id' field");
        }

        // Test 'name' field
        let name_field = &mut reflected_data.fields[1];
        assert_eq!(name_field.name, "name");
        if let ValueReflection::String(name_ref) = &mut name_field.value {
            assert_eq!(*name_ref.deref(), "Test Data");
            name_ref.set("Modified Name".to_string()).unwrap(); // Modify through reflection
        } else {
            panic!("Expected String for 'name' field");
        }

        // Test 'value' field
        let value_field = &mut reflected_data.fields[2];
        assert_eq!(value_field.name, "value");
        if let ValueReflection::F32(value_ref) = &mut value_field.value {
            assert_eq!(value_ref.deref().parse::<f32>().unwrap(), 42.5);
            value_ref.set(format!("{}", 99.9f32)).unwrap(); // Modify through reflection
        } else {
            panic!("Expected F32 for 'value' field");
        }

        // Test 'location' field (nested struct)
        let location_field = &mut reflected_data.fields[3];
        assert_eq!(location_field.name, "location");
        if let ValueReflection::Struct(point_reflection) = &mut location_field.value {
            assert_eq!(point_reflection.fields.len(), 2);

            // Test 'location.x'
            let x_field = &mut point_reflection.fields[0];
            assert_eq!(x_field.name, "x");
            if let ValueReflection::I32(x_ref) = &mut x_field.value {
                assert_eq!(*x_ref.deref(), 10);
                x_ref.set(100).unwrap(); // Modify through reflection
            } else {
                panic!("Expected I32 for 'location.x' field");
            }

            // Test 'location.y'
            let y_field = &mut point_reflection.fields[1];
            assert_eq!(y_field.name, "y");
            if let ValueReflection::I32(y_ref) = &mut y_field.value {
                assert_eq!(*y_ref.deref(), 20);
                y_ref.set(200).unwrap(); // Modify through reflection
            } else {
                panic!("Expected I32 for 'location.y' field");
            }
        } else {
            panic!("Expected Struct for 'location' field");
        }

        // Test 'is_active' field
        let is_active_field = &mut reflected_data.fields[4];
        assert_eq!(is_active_field.name, "is_active");
        if let ValueReflection::I32(is_active_ref) = &mut is_active_field.value {
            assert_eq!(*is_active_ref.deref(), 1);
            is_active_ref.set(0).unwrap(); // Modify through reflection
        } else {
            panic!("Expected I32 for 'is_active' field");
        }
    }

    // Verify that modifications through reflection are reflected in the original struct
    assert!(matches!(data[0], Value::U32(456)));
    assert!(matches!(&data[1], Value::String(s) if s == "Modified Name"));
    assert!(matches!(&data[2], Value::F32(s) if s.parse::<f32>().unwrap() == 99.9));
    let Value::Struct(location) = &data[3] else { panic!() };
    assert!(matches!(location[0], Value::I32(100)));
    assert!(matches!(location[1], Value::I32(200)));
    assert!(matches!(data[4], Value::I32(0)));
}

#[test]
fn lib_test_json_serialization() {
    let ty = Type::Struct(my_data_mirror());
    let mut data = Value::Struct(my_data(
        789,
        "Another \"Test\" String with \\backslashes\\",
        123.45,
        -5,
        30,
        1,
    ));

    let json_string = {
        let reflected_data = reflect(&mut data, &ty).unwrap();
        let ValueReflection::Struct(s) = &reflected_data else { panic!() };
        s.to_json_string().unwrap()
    };

    let expected_json = r#"{"id":789,"name":"Another \"Test\" String with \\backslashes\\","value":123.45,"location":{"x":-5,"y":30},"is_active":1}"#;

    assert_eq!(json_string, expected_json);

    // Test with a modified value to ensure it serializes correctly
    {
        let mut view = reflect(&mut data, &ty).unwrap();
        let ValueReflection::Struct(s) = &mut view else { panic!() };
        let ValueReflection::F32(value) = &mut s.fields[2].value else { panic!() };
        value.set(format!("{}", 100.0f32)).unwrap();
    }
    let json_string_modified = {
        let reflected_data_modified = reflect(&mut data, &ty).unwrap();
        let ValueReflection::Struct(s) = &reflected_data_modified else { panic!() };
        s.to_json_string().unwrap()
    };
    let expected_json_modified = r#"{"id":789,"name":"Another \"Test\" String with \\backslashes\\","value":100,"location":{"x":-5,"y":30},"is_active":1}"#;
    assert_eq!(json_string_modified, expected_json_modified);
}
