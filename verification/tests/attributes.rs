use rjvm::attributes::{read_attribute, read_attributes};
use rjvm::{
    Attribute, AttributeCode, AttributeConstantValue, AttributeDeprecated, AttributeExceptions,
    AttributeInfo, AttributeInnerClasses, AttributeLineNumberTable, AttributeLocalVariableTable,
    AttributeSourceFile, AttributeSynthetic, BytesReader, ConstantPoolClassInfo, ConstantPoolInfo,
    ConstantPoolUtf8Info, DecodeError, ExceptionTableEntry, LineNumberTableEntry,
};

fn text(s: &str) -> ConstantPoolInfo {
    ConstantPoolInfo::Utf8(ConstantPoolUtf8Info { tag: 1, string: s.to_string() })
}

/// 1 Code, 2 LineNumberTable, 3 ConstantValue, 4 Unknown, 5 a class,
/// 6 StackMapTable, 7 BootstrapMethods, 8 NestHost, 9 NestMembers,
/// 10 PermittedSubclasses, 11 SourceFile, 12 Exceptions, 13 Deprecated,
/// 14 Synthetic, 15 LocalVariableTable, 16 InnerClasses, 17 deprecated.
fn pool() -> Vec<ConstantPoolInfo> {
    vec![
        text("Code"),
        text("LineNumberTable"),
        text("ConstantValue"),
        text("Unknown"),
        ConstantPoolInfo::Class(ConstantPoolClassInfo { tag: 7, name_index: 1 }),
        text("StackMapTable"),
        text("BootstrapMethods"),
        text("NestHost"),
        text("NestMembers"),
        text("PermittedSubclasses"),
        text("SourceFile"),
        text("Exceptions"),
        text("Deprecated"),
        text("Synthetic"),
        text("LocalVariableTable"),
        text("InnerClasses"),
        text("deprecated"),
    ]
}

fn attribute(name_index: u16, declared: u32, body: &[u8]) -> Vec<u8> {
    let mut bytes = Vec::new();
    bytes.extend_from_slice(&name_index.to_be_bytes());
    bytes.extend_from_slice(&declared.to_be_bytes());
    bytes.extend_from_slice(body);
    bytes
}

fn code_body(code: &[u8], exceptions: &[[u16; 4]], nested: &[Vec<u8>]) -> Vec<u8> {
    let mut bytes = vec![0, 2, 0, 3];
    bytes.extend_from_slice(&(code.len() as u32).to_be_bytes());
    bytes.extend_from_slice(code);
    bytes.extend_from_slice(&(exceptions.len() as u16).to_be_bytes());
    for entry in exceptions {
        for value in entry {
            bytes.extend_from_slice(&value.to_be_bytes());
        }
    }
    bytes.extend_from_slice(&(nested.len() as u16).to_be_bytes());
    for attribute in nested {
        bytes.extend_from_slice(attribute);
    }
    bytes
}

fn decode_one(bytes: &[u8]) -> (Result<Option<AttributeInfo>, DecodeError>, usize) {
    let pool = pool();
    let mut reader = BytesReader::new(bytes);
    let result = read_attribute(&mut reader, &pool);
    (result, reader.position())
}

fn line_numbers() -> Vec<u8> {
    attribute(2, 10, &[0, 2, 0, 0, 0, 3, 0, 4, 0, 7])
}

#[test]
fn constant_value_holds_an_index() {
    let mut bytes = attribute(3, 2, &[0, 15]);
    bytes.push(0xEE);
    let (result, used) = decode_one(&bytes);
    assert_eq!(
        Ok(Some(AttributeInfo {
            attribute_name_index: 3,
            attribute: Attribute::ConstantValue(AttributeConstantValue {
                constant_value_index: 15
            }),
        })),
        result
    );
    assert_eq!(8, used);
}

#[test]
fn line_number_table_holds_its_entries() {
    let (result, used) = decode_one(&line_numbers());
    assert_eq!(
        Ok(Some(AttributeInfo {
            attribute_name_index: 2,
            attribute: Attribute::LineNumberTable(AttributeLineNumberTable {
                attribute_name_index: 2,
                attribute_name: "LineNumberTable".to_string(),
                attribute_length: 10,
                line_number_entries: vec![
                    LineNumberTableEntry { start_pc: 0, line_number: 3 },
                    LineNumberTableEntry { start_pc: 4, line_number: 7 },
                ],
            }),
        })),
        result
    );
    assert_eq!(16, used);
}

#[test]
fn code_holds_code_exceptions_and_attributes() {
    let body = code_body(
        &[0x2A, 0xB1],
        &[[0, 1, 1, 9], [258, 3, 4, 0]],
        &[line_numbers(), attribute(4, 3, &[1, 2, 3]), attribute(3, 2, &[0, 9])],
    );
    assert_eq!(8 + 2 + 2 + 16 + 2 + 16 + 9 + 8, body.len());
    let bytes = attribute(1, body.len() as u32, &body);
    let (result, used) = decode_one(&bytes);
    assert_eq!(
        Ok(Some(AttributeInfo {
            attribute_name_index: 1,
            attribute: Attribute::Code(AttributeCode {
                attribute_name_index: 1,
                max_stack: 2,
                max_locals: 3,
                code_length: 2,
                code: vec![0x2A, 0xB1],
                exceptions: vec![
                    ExceptionTableEntry { start_pc: 0, end_pc: 1, handler_pc: 1, catch_pc: 9 },
                    ExceptionTableEntry { start_pc: 258, end_pc: 3, handler_pc: 4, catch_pc: 0 },
                ],
                attributes: vec![
                    AttributeInfo {
                        attribute_name_index: 2,
                        attribute: Attribute::LineNumberTable(AttributeLineNumberTable {
                            attribute_name_index: 2,
                            attribute_name: "LineNumberTable".to_string(),
                            attribute_length: 10,
                            line_number_entries: vec![
                                LineNumberTableEntry { start_pc: 0, line_number: 3 },
                                LineNumberTableEntry { start_pc: 4, line_number: 7 },
                            ],
                        }),
                    },
                    AttributeInfo {
                        attribute_name_index: 3,
                        attribute: Attribute::ConstantValue(AttributeConstantValue {
                            constant_value_index: 9
                        }),
                    },
                ],
            }),
        })),
        result
    );
    assert_eq!(bytes.len(), used);
}

#[test]
fn code_inside_code_is_decoded_too() {
    let inner = code_body(&[0xB1], &[], &[line_numbers()]);
    let outer = code_body(&[], &[], &[attribute(1, inner.len() as u32, &inner)]);
    let bytes = attribute(1, outer.len() as u32, &outer);
    let (result, used) = decode_one(&bytes);
    assert_eq!(bytes.len(), used);
    match result.unwrap().unwrap().attribute {
        Attribute::Code(outer) => {
            assert_eq!(0, outer.code_length);
            assert_eq!(1, outer.attributes.len());
            match &outer.attributes[0].attribute {
                Attribute::Code(inner) => {
                    assert_eq!(vec![0xB1], inner.code);
                    assert_eq!(1, inner.attributes.len());
                }
                other => panic!("{:?}", other),
            }
        }
        other => panic!("{:?}", other),
    }
}

#[test]
fn attribute_of_unknown_layout_is_skipped() {
    let mut bytes = attribute(4, 5, &[1, 2, 3, 4, 5]);
    bytes.push(6);
    assert_eq!((Ok(None), 11), decode_one(&bytes));
    assert_eq!((Ok(None), 6), decode_one(&attribute(4, 0, &[])));
    assert_eq!((Ok(None), 6), decode_one(&attribute(17, 0, &[])));
}

fn kept(name_index: usize, attribute: Attribute) -> Result<Option<AttributeInfo>, DecodeError> {
    Ok(Some(AttributeInfo { attribute_name_index: name_index, attribute }))
}

#[test]
fn deprecated_and_synthetic_are_kept() {
    assert_eq!(
        (kept(13, Attribute::Deprecated(AttributeDeprecated {})), 6),
        decode_one(&attribute(13, 0, &[]))
    );
    assert_eq!(
        (kept(14, Attribute::Synthetic(AttributeSynthetic {})), 6),
        decode_one(&[0, 14, 0, 0, 0, 0, 0xEE])
    );
}

#[test]
fn recognized_names_without_layout_are_kept_and_their_bodies_passed_over() {
    assert_eq!(
        (kept(11, Attribute::SourceFile(AttributeSourceFile {})), 8),
        decode_one(&attribute(11, 2, &[0, 1]))
    );
    assert_eq!(
        (kept(12, Attribute::Exceptions(AttributeExceptions {})), 10),
        decode_one(&attribute(12, 4, &[0, 1, 0, 5]))
    );
    assert_eq!(
        (kept(15, Attribute::LocalVariableTable(AttributeLocalVariableTable {})), 18),
        decode_one(&attribute(15, 12, &[0, 1, 0, 0, 0, 1, 0, 2, 0, 3, 0, 0]))
    );
    assert_eq!(
        (kept(16, Attribute::InnerClasses(AttributeInnerClasses {})), 16),
        decode_one(&attribute(16, 10, &[0, 1, 0, 5, 0, 0, 0, 0, 0, 1]))
    );
    assert_eq!(
        (kept(13, Attribute::Deprecated(AttributeDeprecated {})), 9),
        decode_one(&attribute(13, 3, &[1, 2, 3, 4]))
    );
}

#[test]
fn recognized_name_without_layout_must_be_there_in_full() {
    assert_eq!(Err(DecodeError::UnexpectedEof), decode_one(&attribute(11, 2, &[0])).0);
    assert_eq!(Err(DecodeError::UnexpectedEof), decode_one(&attribute(13, 1, &[])).0);
    assert_eq!(Err(DecodeError::UnexpectedEof), decode_one(&[0, 13, 0, 0, 0]).0);
}

#[test]
fn kinds_without_layout_are_kept_inside_code_and_in_lists() {
    let body = code_body(&[0xB1], &[], &[attribute(14, 0, &[]), attribute(4, 1, &[0]), line_numbers()]);
    let bytes = attribute(1, body.len() as u32, &body);
    match decode_one(&bytes).0.unwrap().unwrap().attribute {
        Attribute::Code(code) => {
            assert_eq!(2, code.attributes.len());
            assert_eq!(
                AttributeInfo {
                    attribute_name_index: 14,
                    attribute: Attribute::Synthetic(AttributeSynthetic {})
                },
                code.attributes[0]
            );
            assert_eq!(2, code.attributes[1].attribute_name_index);
        }
        other => panic!("{:?}", other),
    }
    let pool = pool();
    let mut bytes = vec![0, 3];
    bytes.extend_from_slice(&attribute(13, 0, &[]));
    bytes.extend_from_slice(&attribute(4, 2, &[0, 0]));
    bytes.extend_from_slice(&attribute(11, 2, &[0, 1]));
    let mut reader = BytesReader::new(&bytes);
    assert_eq!(
        Ok(vec![
            AttributeInfo {
                attribute_name_index: 13,
                attribute: Attribute::Deprecated(AttributeDeprecated {})
            },
            AttributeInfo {
                attribute_name_index: 11,
                attribute: Attribute::SourceFile(AttributeSourceFile {})
            },
        ]),
        read_attributes(&mut reader, &pool)
    );
    assert_eq!(bytes.len(), reader.position());
}

#[test]
fn attribute_of_unknown_layout_must_be_there_in_full() {
    assert_eq!(
        Err(DecodeError::UnexpectedEof),
        decode_one(&attribute(4, 5, &[1, 2, 3, 4])).0
    );
}

#[test]
fn unsupported_attributes_are_fatal() {
    for name_index in 6u16..=10 {
        assert_eq!(
            Err(DecodeError::UnsupportedAttribute { name_index: name_index as usize }),
            decode_one(&attribute(name_index, 2, &[0, 0])).0
        );
    }
}

#[test]
fn attribute_name_must_be_text() {
    assert_eq!(
        Err(DecodeError::BadNameIndex { index: 5 }),
        decode_one(&attribute(5, 0, &[])).0
    );
    assert_eq!(
        Err(DecodeError::BadNameIndex { index: 0 }),
        decode_one(&attribute(0, 0, &[])).0
    );
    assert_eq!(
        Err(DecodeError::BadNameIndex { index: 18 }),
        decode_one(&attribute(18, 0, &[])).0
    );
    assert_eq!(Err(DecodeError::BadNameIndex { index: 5 }), decode_one(&[0, 5]).0);
}

#[test]
fn declared_length_must_be_what_the_body_takes() {
    assert_eq!(
        Err(DecodeError::LengthMismatch { expected: 3, actual: 2 }),
        decode_one(&attribute(3, 3, &[0, 15, 0])).0
    );
    assert_eq!(
        Err(DecodeError::LengthMismatch { expected: 0, actual: 2 }),
        decode_one(&attribute(3, 0, &[0, 15])).0
    );
    assert_eq!(
        Err(DecodeError::LengthMismatch { expected: 11, actual: 10 }),
        decode_one(&attribute(2, 11, &[0, 2, 0, 0, 0, 3, 0, 4, 0, 7, 0])).0
    );
    assert_eq!(
        Err(DecodeError::LengthMismatch { expected: 9, actual: 10 }),
        decode_one(&attribute(2, 9, &[0, 2, 0, 0, 0, 3, 0, 4, 0, 7])).0
    );
}

#[test]
fn code_must_declare_what_it_takes() {
    let body = code_body(&[0xB1], &[], &[line_numbers()]);
    let long = attribute(1, body.len() as u32 + 1, &body);
    assert_eq!(
        Err(DecodeError::LengthMismatch { expected: body.len() + 1, actual: body.len() }),
        decode_one(&long).0
    );
    let short = attribute(1, body.len() as u32 - 1, &body);
    assert_eq!(
        Err(DecodeError::LengthMismatch { expected: body.len() - 1, actual: body.len() }),
        decode_one(&short).0
    );
}

#[test]
fn attribute_inside_code_must_declare_what_it_takes() {
    let wrong = attribute(3, 3, &[0, 15, 0]);
    let body = code_body(&[0xB1], &[], &[wrong]);
    let bytes = attribute(1, body.len() as u32, &body);
    assert_eq!(
        Err(DecodeError::LengthMismatch { expected: 3, actual: 2 }),
        decode_one(&bytes).0
    );
    let deeper = attribute(1, body.len() as u32, &body);
    let outer = code_body(&[], &[], &[line_numbers(), deeper]);
    let bytes = attribute(1, outer.len() as u32, &outer);
    assert_eq!(
        Err(DecodeError::LengthMismatch { expected: 3, actual: 2 }),
        decode_one(&bytes).0
    );
}

#[test]
fn truncated_attribute_is_end_of_input() {
    let body = code_body(&[0x2A, 0xB1], &[[0, 1, 1, 9]], &[line_numbers()]);
    let bytes = attribute(1, body.len() as u32, &body);
    assert!(decode_one(&bytes).0.is_ok());
    for cut in 0..bytes.len() {
        assert_eq!(Err(DecodeError::UnexpectedEof), decode_one(&bytes[..cut]).0, "cut at {}", cut);
    }
}

#[test]
fn attribute_list_keeps_known_attributes_in_order() {
    let pool = pool();
    let mut bytes = vec![0, 4];
    bytes.extend_from_slice(&attribute(3, 2, &[0, 1]));
    bytes.extend_from_slice(&attribute(4, 1, &[9]));
    bytes.extend_from_slice(&line_numbers());
    bytes.extend_from_slice(&attribute(3, 2, &[0, 2]));
    bytes.push(0xEE);
    let mut reader = BytesReader::new(&bytes);
    let attributes = read_attributes(&mut reader, &pool).unwrap();
    assert_eq!(bytes.len() - 1, reader.position());
    assert_eq!(3, attributes.len());
    assert_eq!(
        Attribute::ConstantValue(AttributeConstantValue { constant_value_index: 1 }),
        attributes[0].attribute
    );
    assert_eq!(2, attributes[1].attribute_name_index);
    assert_eq!(
        Attribute::ConstantValue(AttributeConstantValue { constant_value_index: 2 }),
        attributes[2].attribute
    );
}

#[test]
fn empty_attribute_list_takes_two_bytes() {
    let pool = pool();
    let bytes = [0, 0, 1];
    let mut reader = BytesReader::new(&bytes);
    assert_eq!(Ok(Vec::new()), read_attributes(&mut reader, &pool));
    assert_eq!(2, reader.position());
    let mut reader = BytesReader::new(&bytes[..1]);
    assert_eq!(Err(DecodeError::UnexpectedEof), read_attributes(&mut reader, &pool));
}

#[test]
fn attribute_list_stops_at_the_first_failure() {
    let pool = pool();
    let mut bytes = vec![0, 3];
    bytes.extend_from_slice(&attribute(3, 2, &[0, 1]));
    bytes.extend_from_slice(&attribute(6, 0, &[]));
    bytes.extend_from_slice(&attribute(3, 7, &[0, 1]));
    let mut reader = BytesReader::new(&bytes);
    assert_eq!(
        Err(DecodeError::UnsupportedAttribute { name_index: 6 }),
        read_attributes(&mut reader, &pool)
    );
}

#[test]
fn code_shows_no_lines() {
    let code = AttributeCode {
        attribute_name_index: 1,
        max_stack: 1,
        max_locals: 1,
        code_length: 1,
        code: vec![0xB1],
        exceptions: Vec::new(),
        attributes: Vec::new(),
    };
    assert!(code.print().is_empty());
}
