use pb_reflect::{
    new_instance, values_eq, Cardinality, DynamicMessage, EnumDescriptor, EnumValueDescriptor,
    FieldDescriptor, FieldType, FileDescriptor, MessageDescriptor, ReflectValueBox,
};

const M: usize = 0;
const SUB_M: usize = 1;
const SINGULAR: usize = 2;
const REPEATED: usize = 3;
const MAP: usize = 4;
const INNER: usize = 5;

fn field(name: &str, number: i32, t: FieldType, c: Cardinality, type_index: usize) -> FieldDescriptor {
    FieldDescriptor {
        name: name.to_string(),
        number,
        field_type: t,
        cardinality: c,
        type_index,
        key_type: FieldType::String,
    }
}

fn all_type_fields(c: Cardinality) -> Vec<FieldDescriptor> {
    let kinds = [
        ("double_field", FieldType::Double),
        ("float_field", FieldType::Float),
        ("int32_field", FieldType::Int32),
        ("int64_field", FieldType::Int64),
        ("uint32_field", FieldType::Uint32),
        ("uint64_field", FieldType::Uint64),
        ("sint32_field", FieldType::Sint32),
        ("sint64_field", FieldType::Sint64),
        ("fixed32_field", FieldType::Fixed32),
        ("fixed64_field", FieldType::Fixed64),
        ("sfixed32_field", FieldType::Sfixed32),
        ("sfixed64_field", FieldType::Sfixed64),
        ("bool_field", FieldType::Bool),
        ("string_field", FieldType::String),
        ("bytes_field", FieldType::Bytes),
        ("enum_field", FieldType::Enum),
        ("message_field", FieldType::Message),
    ];
    let mut out = Vec::new();
    for (i, (name, t)) in kinds.iter().enumerate() {
        let type_index = if *t == FieldType::Message { INNER } else { 0 };
        out.push(field(name, i as i32 + 1, *t, c, type_index));
    }
    out
}

fn map_fields() -> Vec<FieldDescriptor> {
    let mut out = Vec::new();
    let mut f = field("string_int32_field", 1, FieldType::Int32, Cardinality::Keyed, 0);
    f.key_type = FieldType::String;
    out.push(f);
    let mut f = field("int64_string_field", 2, FieldType::String, Cardinality::Keyed, 0);
    f.key_type = FieldType::Int64;
    out.push(f);
    let mut f = field("bool_message_field", 3, FieldType::Message, Cardinality::Keyed, INNER);
    f.key_type = FieldType::Bool;
    out.push(f);
    let mut f = field("uint32_enum_field", 4, FieldType::Enum, Cardinality::Keyed, 0);
    f.key_type = FieldType::Uint32;
    out.push(f);
    out
}

fn schema() -> FileDescriptor {
    let messages = vec![
        MessageDescriptor {
            full_name: "test_reflect.M".to_string(),
            fields: vec![field("sub_m", 1, FieldType::Message, Cardinality::Singular, SUB_M)],
        },
        MessageDescriptor {
            full_name: "test_reflect.SubM".to_string(),
            fields: vec![field("n", 1, FieldType::Int32, Cardinality::Singular, 0)],
        },
        MessageDescriptor {
            full_name: "test_reflect.TestTypesSingular".to_string(),
            fields: all_type_fields(Cardinality::Singular),
        },
        MessageDescriptor {
            full_name: "test_reflect.TestTypesRepeated".to_string(),
            fields: all_type_fields(Cardinality::Repeated),
        },
        MessageDescriptor { full_name: "test_reflect.TestTypesMap".to_string(), fields: map_fields() },
        MessageDescriptor {
            full_name: "test_reflect.TestMessage".to_string(),
            fields: vec![field("value", 1, FieldType::Int32, Cardinality::Singular, 0)],
        },
    ];
    let enums = vec![EnumDescriptor {
        full_name: "test_reflect.TestEnum".to_string(),
        values: vec![
            EnumValueDescriptor { name: "DARK".to_string(), number: 10 },
            EnumValueDescriptor { name: "LIGHT".to_string(), number: 20 },
        ],
    }];
    let file = FileDescriptor { messages, enums };
    assert!(file.is_valid());
    file
}

fn test_singular_field(file: &FileDescriptor, message: &mut DynamicMessage, field: usize) {
    assert!(!file.has_field(message, field));

    // should not crash
    file.get_singular_field_or_default(message, field);

    let fd = &file.messages[message.descriptor].fields[field];
    let value = file.value_for_field(fd);
    file.set_singular_field(message, field, value);
}

fn test_repeated_field(file: &FileDescriptor, message: &mut DynamicMessage, field: usize) {
    assert_eq!(0, file.len_field(message, field));
    assert!(!file.has_field(message, field));

    let mut expected = Vec::new();
    let fd = &file.messages[message.descriptor].fields[field];

    {
        let mut repeated = file.mut_repeated(message, field);

        for i in 0..3 {
            let value = file.value_for_field(fd);
            expected.push(value.clone());
            repeated.push(value.clone());
            let fetched = repeated.get(i);
            assert_eq!(&value, fetched);
        }

        assert!(values_eq(&expected, repeated.values));
        assert!(repeated.eq_values(&expected));
    }

    {
        let repeated = file.get_repeated(message, field);
        assert_eq!(3, repeated.len());

        assert!(repeated.eq_values(&expected));
        for i in 0..3 {
            assert_eq!(&expected[i], repeated.get(i));
        }
    }
}

fn test_map_field(file: &FileDescriptor, message: &mut DynamicMessage, field: usize) {
    assert!(file.get_map(message, field).is_empty());
    assert_eq!(0, file.get_map(message, field).len());
    assert!(file.mut_map(message, field).is_empty());
    assert_eq!(0, file.mut_map(message, field).len());
}

#[test]
fn test_get_sub_message_via_reflection() {
    let file = schema();
    let mut m = new_instance(&file, M);
    let sub_m_field = file.field_by_name(M, "sub_m").unwrap();
    {
        let sub = file.mut_message(&mut m, sub_m_field);
        let n = file.field_by_name(sub.descriptor, "n").unwrap();
        file.set_singular_field(sub, n, ReflectValueBox::I32(42));
    }
    assert!(file.has_field(&m, sub_m_field));

    assert_eq!("sub_m", file.messages[m.descriptor].fields[sub_m_field].name);

    let sub_m = file.get_message(&m, sub_m_field);
    assert_eq!("test_reflect.SubM", file.messages[sub_m.descriptor].full_name);
    let n = file.field_by_name(sub_m.descriptor, "n").unwrap();
    assert_eq!(Some(42), file.get_singular_field_or_default(&sub_m, n).as_i32());
}

#[test]
fn test_singular_basic() {
    let file = schema();
    let mut message = new_instance(&file, SINGULAR);

    let bool_field = file.field_by_name(message.descriptor, "bool_field").unwrap();
    assert!(!file.has_field(&message, bool_field));

    file.set_singular_field(&mut message, bool_field, ReflectValueBox::Bool(true));
    assert!(file.has_field(&message, bool_field));
    assert_eq!(Some(true), file.get_singular_field_or_default(&message, bool_field).as_bool());
}

#[test]
fn test_singular() {
    let file = schema();
    let mut message = new_instance(&file, SINGULAR);
    for field in 0..file.messages[SINGULAR].fields.len() {
        test_singular_field(&file, &mut message, field);
    }
}

#[test]
fn test_repeated_debug() {
    let file = schema();
    let mut message = new_instance(&file, REPEATED);
    let int32_field = file.field_by_name(REPEATED, "int32_field").unwrap();
    {
        let mut view = file.mut_repeated(&mut message, int32_field);
        for v in [10, 20, 30] {
            view.push(ReflectValueBox::I32(v));
        }
    }
    let field = file.get_repeated(&message, int32_field);
    assert_eq!("[10, 20, 30]", field.debug_string());
}

#[test]
fn test_repeated() {
    let file = schema();
    let mut message = new_instance(&file, REPEATED);
    for field in 0..file.messages[REPEATED].fields.len() {
        test_repeated_field(&file, &mut message, field);
    }
}

#[test]
fn test_map() {
    let file = schema();
    let mut message = new_instance(&file, MAP);
    for field in 0..file.messages[MAP].fields.len() {
        test_map_field(&file, &mut message, field);
    }
}
