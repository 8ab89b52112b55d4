use quicksilver::descriptor::{Field, Struct, Type};
use quicksilver::reflections::ValueReflection;
use quicksilver::reflections_mut::reflect;
use quicksilver::value::Value;

fn field(name: &str, ty: Type, offset: usize) -> Field {
    Field { name: name.to_string(), ty, offset }
}

fn point_type() -> Type {
    Type::Struct(Struct {
        size: 8,
        align: 4,
        name: "Point".to_string(),
        fields: vec![field("x", Type::I32, 0), field("y", Type::I32, 4)],
    })
}

fn my_data_type() -> Type {
    Type::Struct(Struct {
        size: 48,
        align: 8,
        name: "MyData".to_string(),
        fields: vec![
            field("id", Type::U32, 0),
            field("name", Type::String, 8),
            field("value", Type::F32, 32),
            field("location", point_type(), 36),
            field("is_active", Type::I32, 44),
        ],
    })
}

fn my_data(id: u32, name: &str, value: f32, x: i32, y: i32, is_active: i32) -> Value {
    Value::Struct(vec![
        Value::U32(id),
        Value::String(name.to_string()),
        Value::F32(format!("{}", value)),
        Value::Struct(vec![Value::I32(x), Value::I32(y)]),
        Value::I32(is_active),
    ])
}

#[test]
fn basic_test_reflection_my_data() {
    let mut data = my_data(123, "Test Data", 42.5, 10, 20, 1);
    let ty = my_data_type();

    {
        let mut view = reflect(&mut data, &ty).unwrap();
        let ValueReflection::Struct(reflected_data) = &mut view else {
            panic!()
        };

        assert_eq!(reflected_data.fields.len(), 5);

        let id_field = &mut reflected_data.fields[0];
        assert_eq!(id_field.name, "id");
        if let ValueReflection::U32(id_ref) = &mut id_field.value {
            assert_eq!(*id_ref.deref(), 123);
            id_ref.set(456).unwrap(); // Modify through reflection
        } else {
            panic!("Expected U32 for 'id' field");
        }

        let name_field = &mut reflected_data.fields[1];
        assert_eq!(name_field.name, "name");
        if let ValueReflection::String(name_ref) = &mut name_field.value {
            assert_eq!(*name_ref.deref(), "Test Data");
            name_ref.set("Modified Name".to_string()).unwrap(); // Modify through reflection
        } else {
            panic!("Expected String for 'name' field");
        }

        let value_field = &mut reflected_data.fields[2];
        assert_eq!(value_field.name, "value");
        if let ValueReflection::F32(value_ref) = &mut value_field.value {
            assert_eq!(value_ref.deref().parse::<f32>().unwrap(), 42.5);
            value_ref.set(format!("{}", 99.9f32)).unwrap(); // Modify through reflection
        } else {
            panic!("Expected F32 for 'value' field");
        }

        let location_field = &mut reflected_data.fields[3];
        assert_eq!(location_field.name, "location");
        if let ValueReflection::Struct(point_reflection) = &mut location_field.value {
            assert_eq!(point_reflection.fields.len(), 2);

            let x_field = &mut point_reflection.fields[0];
            assert_eq!(x_field.name, "x");
            if let ValueReflection::I32(x_ref) = &mut x_field.value {
                assert_eq!(*x_ref.deref(), 10);
                x_ref.set(100).unwrap(); // Modify through reflection
            } else {
                panic!("Expected I32 for 'location.x' field");
            }

            // Test 'location.y'
            let y_field = &mut point_reflection.fields[1];
            assert_eq!(y_field.name, "y");
            if let ValueReflection::I32(y_ref) = &mut y_field.value {
                assert_eq!(*y_ref.deref(), 20);
                *y_ref.deref_mut().unwrap() = 200; // Modify through reflection
            } else {
                panic!("Expected I32 for 'location.y' field");
            }
        } else {
            panic!("Expected Struct for 'location' field");
        }

        let is_active_field = &mut reflected_data.fields[4];
        assert_eq!(is_active_field.name, "is_active");
        if let ValueReflection::I32(is_active_ref) = &mut is_active_field.value {
            assert_eq!(*is_active_ref.deref(), 1);
            is_active_ref.set(0).unwrap(); // Modify through reflection
        } else {
            panic!("Expected I32 for 'is_active' field");
        }
    }

    let Value::Struct(fields) = &data else { panic!() };
    assert!(matches!(fields[0], Value::U32(456)));
    assert!(matches!(&fields[1], Value::String(s) if s == "Modified Name"));
    assert!(matches!(&fields[2], Value::F32(s) if s.parse::<f32>().unwrap() == 99.9));
    let Value::Struct(location) = &fields[3] else { panic!() };
    assert!(matches!(location[0], Value::I32(100)));
    assert!(matches!(location[1], Value::I32(200)));
    assert!(matches!(fields[4], Value::I32(0)));
    assert!(data.same(&my_data(456, "Modified Name", 99.9, 100, 200, 0)));
}

fn point3d_mirror() -> Type {
    Type::Struct(Struct {
        size: 40,
        align: 8,
        name: "Point3d".to_string(),
        fields: vec![
            field("label", Type::String, 0),
            field("x", Type::I32, 24),
            field("y", Type::U32, 28),
            field("z", Type::F32, 32),
        ],
    })
}

#[test]
fn test_derive() {
    let _mirror = point3d_mirror();
}
