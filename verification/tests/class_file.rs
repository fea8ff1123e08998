use rjvm::{
    Attribute, AttributeCode, AttributeConstantValue, AttributeInfo, AttributeLineNumberTable,
    ClassFlags, ConstantPoolClassInfo, ConstantPoolInfo, ConstantPoolUtf8Info, DecodeError,
    ExceptionTableEntry, FieldInfo, JavaClass, LineNumberTableEntry, MethodInfo,
};

fn utf8(text: &str) -> Vec<u8> {
    let mut bytes = vec![1];
    bytes.extend_from_slice(&(text.len() as u16).to_be_bytes());
    bytes.extend_from_slice(text.as_bytes());
    bytes
}

fn pair(tag: u8, first: u16, second: u16) -> Vec<u8> {
    let mut bytes = vec![tag];
    bytes.extend_from_slice(&first.to_be_bytes());
    bytes.extend_from_slice(&second.to_be_bytes());
    bytes
}

fn single(tag: u8, index: u16) -> Vec<u8> {
    let mut bytes = vec![tag];
    bytes.extend_from_slice(&index.to_be_bytes());
    bytes
}

fn class_file(
    major: u16,
    entries: &[Vec<u8>],
    flags: u16,
    this_class: u16,
    super_class: u16,
    interfaces: &[u16],
    fields: &[Vec<u8>],
    methods: &[Vec<u8>],
) -> Vec<u8> {
    let mut bytes = vec![0xCA, 0xFE, 0xBA, 0xBE, 0, 0];
    bytes.extend_from_slice(&major.to_be_bytes());
    bytes.extend_from_slice(&(entries.len() as u16 + 1).to_be_bytes());
    for entry in entries {
        bytes.extend_from_slice(entry);
    }
    bytes.extend_from_slice(&flags.to_be_bytes());
    bytes.extend_from_slice(&this_class.to_be_bytes());
    bytes.extend_from_slice(&super_class.to_be_bytes());
    bytes.extend_from_slice(&(interfaces.len() as u16).to_be_bytes());
    for index in interfaces {
        bytes.extend_from_slice(&index.to_be_bytes());
    }
    bytes.extend_from_slice(&(fields.len() as u16).to_be_bytes());
    for field in fields {
        bytes.extend_from_slice(field);
    }
    bytes.extend_from_slice(&(methods.len() as u16).to_be_bytes());
    for method in methods {
        bytes.extend_from_slice(method);
    }
    bytes
}

fn member(flags: u16, name: u16, descriptor: u16, attributes: &[Vec<u8>]) -> Vec<u8> {
    let mut bytes = Vec::new();
    bytes.extend_from_slice(&flags.to_be_bytes());
    bytes.extend_from_slice(&name.to_be_bytes());
    bytes.extend_from_slice(&descriptor.to_be_bytes());
    bytes.extend_from_slice(&(attributes.len() as u16).to_be_bytes());
    for attribute in attributes {
        bytes.extend_from_slice(attribute);
    }
    bytes
}

fn attribute(name_index: u16, declared: u32, body: &[u8]) -> Vec<u8> {
    let mut bytes = Vec::new();
    bytes.extend_from_slice(&name_index.to_be_bytes());
    bytes.extend_from_slice(&declared.to_be_bytes());
    bytes.extend_from_slice(body);
    bytes
}

fn minimal() -> Vec<u8> {
    class_file(52, &[utf8("Foo"), single(7, 1)], 0x0021, 2, 0, &[], &[], &[])
}

fn sample_entries() -> Vec<Vec<u8>> {
    vec![
        utf8("Foo"),
        single(7, 1),
        utf8("java/lang/Object"),
        single(7, 3),
        utf8("bar"),
        utf8("I"),
        pair(12, 5, 6),
        pair(9, 2, 7),
        utf8("baz"),
        utf8("()V"),
        pair(12, 9, 10),
        pair(10, 4, 11),
        pair(11, 4, 11),
        single(8, 5),
        vec![3, 0xFF, 0xFF, 0xFF, 0xF9],
        vec![4, 0x3F, 0xC0, 0, 0],
        vec![5, 0, 0, 0x01, 0x1F, 0x71, 0xFB, 0x04, 0xCB],
        vec![6, 0x40, 0x04, 0, 0, 0, 0, 0, 0],
        vec![15, 6, 0, 12],
        pair(17, 0, 11),
        pair(18, 1, 11),
        utf8("Code"),
        utf8("LineNumberTable"),
        utf8("ConstantValue"),
        utf8("Runnable"),
        single(7, 25),
        utf8("Unknown"),
    ]
}

fn sample_code() -> Vec<u8> {
    let mut body = vec![0, 1, 0, 1, 0, 0, 0, 1, 0xB1, 0, 1, 0, 0, 0, 1, 0, 1, 0, 0, 0, 2];
    body.extend_from_slice(&attribute(23, 6, &[0, 1, 0, 0, 0, 3]));
    body.extend_from_slice(&attribute(27, 3, &[7, 8, 9]));
    attribute(22, body.len() as u32, &body)
}

fn sample() -> Vec<u8> {
    class_file(
        52,
        &sample_entries(),
        0x0021,
        2,
        4,
        &[26],
        &[member(2, 5, 6, &[attribute(24, 2, &[0, 15])])],
        &[member(1, 9, 10, &[sample_code()])],
    )
}

#[test]
fn minimal_class_decodes() {
    let class = JavaClass::load_from_bytes(&minimal()).unwrap();
    assert_eq!(
        JavaClass {
            prelude: 0xCAFEBABE,
            major: 52,
            minor: 0,
            constant_pool_count: 3,
            constant_pool_infos: vec![
                ConstantPoolInfo::Utf8(ConstantPoolUtf8Info { tag: 1, string: "Foo".to_string() }),
                ConstantPoolInfo::Class(ConstantPoolClassInfo { tag: 7, name_index: 1 }),
            ],
            flags: ClassFlags::new(0x0021),
            this_class: 2,
            super_class: 0,
            interfaces_count: 0,
            interfaces_indexes: Vec::new(),
            fields: Vec::new(),
            methods: Vec::new(),
        },
        class
    );
    assert_eq!(Ok("8"), JavaClass::resolve_version(class.major));
    assert_eq!(Ok(()), JavaClass::check_prelude(class.prelude));
}

#[test]
fn class_without_superclass_decodes() {
    let bytes = class_file(45, &[utf8("Root"), single(7, 1)], 0x0001, 2, 0, &[], &[], &[]);
    let class = JavaClass::load_from_bytes(&bytes).unwrap();
    assert_eq!(0, class.super_class);
    assert_eq!(2, class.this_class);
}

#[test]
fn full_class_decodes() {
    let class = JavaClass::load_from_bytes(&sample()).unwrap();
    assert_eq!(28, class.constant_pool_count);
    assert_eq!(27, class.constant_pool_infos.len());
    assert_eq!(ClassFlags::new(0x0021), class.flags);
    assert_eq!(2, class.this_class);
    assert_eq!(4, class.super_class);
    assert_eq!(1, class.interfaces_count);
    assert_eq!(vec![26], class.interfaces_indexes);
    assert_eq!(
        vec![FieldInfo {
            access_flags: 2,
            name_index: 5,
            name: "bar".to_string(),
            descriptor_index: 6,
            attributes_info: vec![AttributeInfo {
                attribute_name_index: 24,
                attribute: Attribute::ConstantValue(AttributeConstantValue {
                    constant_value_index: 15
                }),
            }],
        }],
        class.fields
    );
    assert_eq!(
        vec![MethodInfo {
            access_flags: 1,
            name_index: 9,
            name: "baz".to_string(),
            descriptor_index: 10,
            attributes_info: vec![AttributeInfo {
                attribute_name_index: 22,
                attribute: Attribute::Code(AttributeCode {
                    attribute_name_index: 22,
                    max_stack: 1,
                    max_locals: 1,
                    code_length: 1,
                    code: vec![0xB1],
                    exceptions: vec![ExceptionTableEntry {
                        start_pc: 0,
                        end_pc: 1,
                        handler_pc: 1,
                        catch_pc: 0
                    }],
                    attributes: vec![AttributeInfo {
                        attribute_name_index: 23,
                        attribute: Attribute::LineNumberTable(AttributeLineNumberTable {
                            attribute_name_index: 23,
                            attribute_name: "LineNumberTable".to_string(),
                            attribute_length: 6,
                            line_number_entries: vec![LineNumberTableEntry {
                                start_pc: 0,
                                line_number: 3
                            }],
                        }),
                    }],
                }),
            }],
        }],
        class.methods
    );
}

#[test]
fn wrong_magic_number_fails_the_class() {
    let mut bytes = minimal();
    bytes[3] = 0xBB;
    assert_eq!(
        Err(DecodeError::BadPrelude { prelude: 0xCAFEBABB }),
        JavaClass::load_from_bytes(&bytes)
    );
    assert_eq!(
        "The prelude is 0xCAFEBABB instead of 0xCAFEBABE",
        JavaClass::load_from_bytes(&bytes).unwrap_err().message()
    );
    assert_eq!(
        JavaClass::check_prelude(0xCAFEBABB).unwrap_err(),
        DecodeError::BadPrelude { prelude: 0xCAFEBABB }.message()
    );
    let mut bytes = sample();
    bytes[0] = 0;
    assert_eq!(
        Err(DecodeError::BadPrelude { prelude: 0x00FEBABE }),
        JavaClass::load_from_bytes(&bytes)
    );
}

#[test]
fn unsupported_major_version_fails_the_class() {
    for major in [0u16, 44, 65, 99, 0x3400, 65535] {
        let mut bytes = minimal();
        bytes[6] = (major >> 8) as u8;
        bytes[7] = major as u8;
        assert_eq!(
            Err(DecodeError::UnsupportedVersion { major }),
            JavaClass::load_from_bytes(&bytes)
        );
        assert_eq!(
            JavaClass::resolve_version(major).unwrap_err(),
            DecodeError::UnsupportedVersion { major }.message()
        );
    }
    assert_eq!(
        "Major version 99 is not supported",
        DecodeError::UnsupportedVersion { major: 99 }.message()
    );
}

#[test]
fn every_supported_major_version_decodes() {
    for major in 45u16..=64 {
        let mut bytes = minimal();
        bytes[7] = major as u8;
        bytes[5] = 3;
        let class = JavaClass::load_from_bytes(&bytes).unwrap();
        assert_eq!(major, class.major);
        assert_eq!(3, class.minor);
        assert_eq!(0xCAFEBABE, class.prelude);
    }
}

#[test]
fn magic_number_is_held_before_the_version_and_the_version_before_the_pool() {
    assert_eq!(Err(DecodeError::UnexpectedEof), JavaClass::load_from_bytes(&[0xCA, 0xFE, 0xBA]));
    assert_eq!(
        Err(DecodeError::BadPrelude { prelude: 0xCAFEBABF }),
        JavaClass::load_from_bytes(&[0xCA, 0xFE, 0xBA, 0xBF])
    );
    assert_eq!(
        Err(DecodeError::BadPrelude { prelude: 1 }),
        JavaClass::load_from_bytes(&[0, 0, 0, 1, 0, 0, 0, 99, 0, 2, 2])
    );
    assert_eq!(
        Err(DecodeError::UnexpectedEof),
        JavaClass::load_from_bytes(&[0xCA, 0xFE, 0xBA, 0xBE, 0, 0, 0])
    );
    assert_eq!(
        Err(DecodeError::UnsupportedVersion { major: 99 }),
        JavaClass::load_from_bytes(&[0xCA, 0xFE, 0xBA, 0xBE, 0, 0, 0, 99])
    );
    assert_eq!(
        Err(DecodeError::UnsupportedVersion { major: 99 }),
        JavaClass::load_from_bytes(&[0xCA, 0xFE, 0xBA, 0xBE, 0, 0, 0, 99, 0, 2, 2])
    );
    assert_eq!(
        Err(DecodeError::UnexpectedEof),
        JavaClass::load_from_bytes(&[0xCA, 0xFE, 0xBA, 0xBE, 0, 0, 0, 52, 0])
    );
    assert_eq!(
        Err(DecodeError::UnknownConstantTag { tag: 2 }),
        JavaClass::load_from_bytes(&[0xCA, 0xFE, 0xBA, 0xBE, 0, 0, 0, 52, 0, 2, 2])
    );
}

#[test]
fn bytes_after_the_methods_are_not_looked_at() {
    let mut bytes = sample();
    let class = JavaClass::load_from_bytes(&bytes).unwrap();
    bytes.extend_from_slice(&[0xFF, 0xFF, 0xFF, 0xFF, 0xFF]);
    assert_eq!(Ok(class), JavaClass::load_from_bytes(&bytes));
}

#[test]
fn truncated_class_is_end_of_input() {
    let bytes = sample();
    for cut in 0..bytes.len() {
        assert_eq!(
            Err(DecodeError::UnexpectedEof),
            JavaClass::load_from_bytes(&bytes[..cut]),
            "cut at {}",
            cut
        );
    }
    let bytes = minimal();
    for cut in 0..bytes.len() {
        assert_eq!(Err(DecodeError::UnexpectedEof), JavaClass::load_from_bytes(&bytes[..cut]));
    }
}

#[test]
fn mismatched_attribute_length_fails_the_class() {
    let bytes = class_file(
        52,
        &sample_entries(),
        0x0021,
        2,
        4,
        &[],
        &[member(2, 5, 6, &[attribute(24, 3, &[0, 15, 0])])],
        &[],
    );
    assert_eq!(
        Err(DecodeError::LengthMismatch { expected: 3, actual: 2 }),
        JavaClass::load_from_bytes(&bytes)
    );
}

#[test]
fn mismatched_length_inside_code_fails_the_class() {
    let mut body = vec![0, 1, 0, 1, 0, 0, 0, 1, 0xB1, 0, 0, 0, 1];
    body.extend_from_slice(&attribute(23, 5, &[0, 1, 0, 0, 0, 3]));
    let code = attribute(22, body.len() as u32, &body);
    let bytes =
        class_file(52, &sample_entries(), 0x0021, 2, 4, &[], &[], &[member(1, 9, 10, &[code])]);
    assert_eq!(
        Err(DecodeError::LengthMismatch { expected: 5, actual: 6 }),
        JavaClass::load_from_bytes(&bytes)
    );
    let mut body = vec![0, 1, 0, 1, 0, 0, 0, 1, 0xB1, 0, 0, 0, 1];
    body.extend_from_slice(&attribute(23, 6, &[0, 1, 0, 0, 0, 3]));
    let code = attribute(22, body.len() as u32 + 2, &body);
    let mut bytes =
        class_file(52, &sample_entries(), 0x0021, 2, 4, &[], &[], &[member(1, 9, 10, &[code])]);
    bytes.extend_from_slice(&[0, 0]);
    assert_eq!(
        Err(DecodeError::LengthMismatch { expected: body.len() + 2, actual: body.len() }),
        JavaClass::load_from_bytes(&bytes)
    );
}

#[test]
fn member_name_must_be_text() {
    let bytes =
        class_file(52, &sample_entries(), 0x0021, 2, 4, &[], &[member(2, 2, 6, &[])], &[]);
    assert_eq!(Err(DecodeError::BadNameIndex { index: 2 }), JavaClass::load_from_bytes(&bytes));
    let bytes =
        class_file(52, &sample_entries(), 0x0021, 2, 4, &[], &[], &[member(2, 0, 6, &[])]);
    assert_eq!(Err(DecodeError::BadNameIndex { index: 0 }), JavaClass::load_from_bytes(&bytes));
    let bytes =
        class_file(52, &sample_entries(), 0x0021, 2, 4, &[], &[], &[member(2, 28, 6, &[])]);
    assert_eq!(Err(DecodeError::BadNameIndex { index: 28 }), JavaClass::load_from_bytes(&bytes));
}

#[test]
fn member_carries_the_name_from_the_pool() {
    let class = JavaClass::load_from_bytes(&sample()).unwrap();
    for field in &class.fields {
        assert_eq!(
            ConstantPoolInfo::Utf8(ConstantPoolUtf8Info { tag: 1, string: field.name.clone() }),
            class.constant_pool_infos[field.name_index - 1]
        );
    }
    for method in &class.methods {
        assert_eq!(
            ConstantPoolInfo::Utf8(ConstantPoolUtf8Info { tag: 1, string: method.name.clone() }),
            class.constant_pool_infos[method.name_index - 1]
        );
    }
}

#[test]
fn bad_pool_entry_fails_the_class() {
    let bytes = class_file(52, &[utf8("Foo"), vec![2, 0, 0]], 0x0021, 2, 0, &[], &[], &[]);
    assert_eq!(Err(DecodeError::UnknownConstantTag { tag: 2 }), JavaClass::load_from_bytes(&bytes));
    let bytes = class_file(52, &[vec![1, 0, 1, 0x80], single(7, 1)], 0x0021, 2, 0, &[], &[], &[]);
    assert_eq!(Err(DecodeError::InvalidUtf8), JavaClass::load_from_bytes(&bytes));
}

#[test]
fn unsupported_attribute_fails_the_class() {
    let mut entries = sample_entries();
    entries.push(utf8("StackMapTable"));
    let bytes = class_file(
        52,
        &entries,
        0x0021,
        2,
        4,
        &[],
        &[],
        &[member(1, 9, 10, &[attribute(28, 0, &[])])],
    );
    assert_eq!(
        Err(DecodeError::UnsupportedAttribute { name_index: 28 }),
        JavaClass::load_from_bytes(&bytes)
    );
}

#[test]
fn several_interfaces_fields_and_methods() {
    let bytes = class_file(
        61,
        &sample_entries(),
        0x0601,
        2,
        4,
        &[26, 4, 2],
        &[member(0, 5, 6, &[]), member(8, 9, 6, &[attribute(27, 1, &[0])])],
        &[member(1, 9, 10, &[]), member(9, 5, 10, &[]), member(0, 1, 10, &[])],
    );
    let class = JavaClass::load_from_bytes(&bytes).unwrap();
    assert_eq!(3, class.interfaces_count);
    assert_eq!(vec![26, 4, 2], class.interfaces_indexes);
    assert_eq!(2, class.fields.len());
    assert_eq!("baz", class.fields[1].name);
    assert!(class.fields[1].attributes_info.is_empty());
    assert_eq!(3, class.methods.len());
    assert_eq!("bar", class.methods[1].name);
    assert_eq!("Foo", class.methods[2].name);
    assert_eq!(Ok("17"), JavaClass::resolve_version(class.major));
}
