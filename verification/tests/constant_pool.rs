use rjvm::constant_pool::{get_name_info, read_constant_pool, read_constant_pool_info};
use rjvm::{
    BytesReader, ConstantPoolClassInfo, ConstantPoolDoubleInfo, ConstantPoolFieldRefInfo,
    ConstantPoolFloatInfo, ConstantPoolInfo, ConstantPoolIntegerInfo,
    ConstantPoolInterfaceMethodRefInfo, ConstantPoolLongInfo, ConstantPoolMethodRefInfo,
    ConstantPoolNameAndTypeInfo, ConstantPoolStringInfo, ConstantPoolUtf8Info, DecodeError,
    DynamicInfo, InvokeDynamicInfo, MethodKindInfo,
};

fn one(bytes: &[u8]) -> (Result<ConstantPoolInfo, DecodeError>, usize) {
    let mut reader = BytesReader::new(bytes);
    let entry = read_constant_pool_info(&mut reader);
    (entry, reader.position())
}

#[test]
fn text_entry_declares_its_own_length() {
    let (entry, used) = one(&[1, 0, 3, b'F', b'o', b'o', 0xFF]);
    assert_eq!(
        Ok(ConstantPoolInfo::Utf8(ConstantPoolUtf8Info { tag: 1, string: "Foo".to_string() })),
        entry
    );
    assert_eq!(6, used);
    let (entry, used) = one(&[1, 0, 0]);
    assert_eq!(
        Ok(ConstantPoolInfo::Utf8(ConstantPoolUtf8Info { tag: 1, string: String::new() })),
        entry
    );
    assert_eq!(3, used);
}

#[test]
fn text_entry_holds_utf8() {
    let mut bytes = vec![1, 0, 5];
    bytes.extend_from_slice("é€".as_bytes());
    let (entry, used) = one(&bytes);
    assert_eq!(
        Ok(ConstantPoolInfo::Utf8(ConstantPoolUtf8Info { tag: 1, string: "é€".to_string() })),
        entry
    );
    assert_eq!(8, used);
    let (entry, _) = one(&[1, 0, 2, 0xC3, 0x28]);
    assert_eq!(Err(DecodeError::InvalidUtf8), entry);
}

#[test]
fn number_entries_have_fixed_widths() {
    let (entry, used) = one(&[3, 0xFF, 0xFF, 0xFF, 0xF9]);
    assert_eq!(Ok(ConstantPoolInfo::Integer(ConstantPoolIntegerInfo { tag: 3, value: -7 })), entry);
    assert_eq!(5, used);
    let (entry, used) = one(&[4, 0x3F, 0xC0, 0, 0]);
    assert_eq!(
        Ok(ConstantPoolInfo::Float(ConstantPoolFloatInfo { tag: 4, bits: 0x3FC0_0000 })),
        entry
    );
    assert_eq!(1.5f32, f32::from_bits(0x3FC0_0000));
    assert_eq!(5, used);
    let (entry, used) = one(&[5, 0, 0, 0x01, 0x1F, 0x71, 0xFB, 0x04, 0xCB]);
    assert_eq!(
        Ok(ConstantPoolInfo::Long(ConstantPoolLongInfo { tag: 5, value: 1234567890123 })),
        entry
    );
    assert_eq!(9, used);
    let (entry, used) = one(&[5, 0xFF, 0xFF, 0xFF, 0xFF, 0xFF, 0xFF, 0xFF, 0xFE]);
    assert_eq!(Ok(ConstantPoolInfo::Long(ConstantPoolLongInfo { tag: 5, value: -2 })), entry);
    assert_eq!(9, used);
    let (entry, used) = one(&[6, 0x40, 0x04, 0, 0, 0, 0, 0, 0]);
    assert_eq!(
        Ok(ConstantPoolInfo::Double(ConstantPoolDoubleInfo { tag: 6, bits: 0x4004_0000_0000_0000 })),
        entry
    );
    assert_eq!(2.5f64, f64::from_bits(0x4004_0000_0000_0000));
    assert_eq!(9, used);
}

#[test]
fn reference_entries_hold_their_indices() {
    assert_eq!(
        (Ok(ConstantPoolInfo::Class(ConstantPoolClassInfo { tag: 7, name_index: 0x0102 })), 3),
        one(&[7, 1, 2])
    );
    assert_eq!(
        (Ok(ConstantPoolInfo::String(ConstantPoolStringInfo { tag: 8, name_index: 5 })), 3),
        one(&[8, 0, 5])
    );
    assert_eq!(
        (
            Ok(ConstantPoolInfo::FieldRef(ConstantPoolFieldRefInfo {
                tag: 9,
                class_index: 2,
                name_and_type_index: 0x0700
            })),
            5
        ),
        one(&[9, 0, 2, 7, 0])
    );
    assert_eq!(
        (
            Ok(ConstantPoolInfo::MethodRef(ConstantPoolMethodRefInfo {
                tag: 10,
                class_index: 4,
                name_and_type_index: 11
            })),
            5
        ),
        one(&[10, 0, 4, 0, 11])
    );
    assert_eq!(
        (
            Ok(ConstantPoolInfo::InterfaceMethodRef(ConstantPoolInterfaceMethodRefInfo {
                tag: 11,
                class_index: 65535,
                name_and_type_index: 1
            })),
            5
        ),
        one(&[11, 0xFF, 0xFF, 0, 1])
    );
    assert_eq!(
        (
            Ok(ConstantPoolInfo::NameAndType(ConstantPoolNameAndTypeInfo {
                tag: 12,
                name_index: 5,
                descriptor_index: 6
            })),
            5
        ),
        one(&[12, 0, 5, 0, 6])
    );
    assert_eq!(
        (
            Ok(ConstantPoolInfo::MethodKind(MethodKindInfo {
                tag: 15,
                reference_kind: 6,
                reference_index: 12
            })),
            4
        ),
        one(&[15, 6, 0, 12])
    );
    assert_eq!(
        (
            Ok(ConstantPoolInfo::Dynamic(DynamicInfo {
                tag: 17,
                bootstrap_method_attr_index: 0,
                name_and_type_index: 11
            })),
            5
        ),
        one(&[17, 0, 0, 0, 11])
    );
    assert_eq!(
        (
            Ok(ConstantPoolInfo::InvokeDynamic(InvokeDynamicInfo {
                tag: 18,
                bootstrap_method_attr_index: 1,
                name_and_type_index: 11
            })),
            5
        ),
        one(&[18, 0, 1, 0, 11])
    );
}

#[test]
fn unknown_tag_is_fatal() {
    for tag in [0u8, 2, 13, 14, 16, 19, 20, 255] {
        assert_eq!(
            Err(DecodeError::UnknownConstantTag { tag }),
            one(&[tag, 0, 0, 0, 0, 0, 0, 0, 0]).0
        );
    }
}

#[test]
fn truncated_entry_is_end_of_input() {
    assert_eq!(Err(DecodeError::UnexpectedEof), one(&[]).0);
    assert_eq!(Err(DecodeError::UnexpectedEof), one(&[1, 0]).0);
    assert_eq!(Err(DecodeError::UnexpectedEof), one(&[1, 0, 3, b'F', b'o']).0);
    assert_eq!(Err(DecodeError::UnexpectedEof), one(&[3, 0, 0, 0]).0);
    assert_eq!(Err(DecodeError::UnexpectedEof), one(&[4, 0, 0, 0]).0);
    assert_eq!(Err(DecodeError::UnexpectedEof), one(&[5, 0, 0, 0, 0, 0, 0, 0]).0);
    assert_eq!(Err(DecodeError::UnexpectedEof), one(&[6, 0, 0, 0, 0]).0);
    assert_eq!(Err(DecodeError::UnexpectedEof), one(&[7, 0]).0);
    assert_eq!(Err(DecodeError::UnexpectedEof), one(&[8]).0);
    assert_eq!(Err(DecodeError::UnexpectedEof), one(&[9, 0, 1, 0]).0);
    assert_eq!(Err(DecodeError::UnexpectedEof), one(&[10, 0, 1]).0);
    assert_eq!(Err(DecodeError::UnexpectedEof), one(&[11, 0]).0);
    assert_eq!(Err(DecodeError::UnexpectedEof), one(&[12, 0, 1, 0]).0);
    assert_eq!(Err(DecodeError::UnexpectedEof), one(&[15, 1, 0]).0);
    assert_eq!(Err(DecodeError::UnexpectedEof), one(&[15]).0);
    assert_eq!(Err(DecodeError::UnexpectedEof), one(&[17, 0, 1, 0]).0);
    assert_eq!(Err(DecodeError::UnexpectedEof), one(&[18, 0, 1, 0]).0);
}

#[test]
fn pool_holds_one_entry_fewer_than_its_count() {
    let bytes = [1, 0, 1, b'a', 7, 0, 1, 3, 0, 0, 0, 9, 0xEE];
    let mut reader = BytesReader::new(&bytes);
    let pool = read_constant_pool(&mut reader, 4).unwrap();
    assert_eq!(
        vec![
            ConstantPoolInfo::Utf8(ConstantPoolUtf8Info { tag: 1, string: "a".to_string() }),
            ConstantPoolInfo::Class(ConstantPoolClassInfo { tag: 7, name_index: 1 }),
            ConstantPoolInfo::Integer(ConstantPoolIntegerInfo { tag: 3, value: 9 }),
        ],
        pool
    );
    assert_eq!(12, reader.position());
}

#[test]
fn pool_of_count_zero_or_one_is_empty() {
    let bytes = [1, 0, 1, b'a'];
    let mut reader = BytesReader::new(&bytes);
    assert_eq!(Ok(Vec::new()), read_constant_pool(&mut reader, 0));
    assert_eq!(0, reader.position());
    assert_eq!(Ok(Vec::new()), read_constant_pool(&mut reader, 1));
    assert_eq!(0, reader.position());
}

#[test]
fn long_and_double_take_one_slot() {
    let bytes = [5, 0, 0, 0, 0, 0, 0, 0, 1, 6, 0, 0, 0, 0, 0, 0, 0, 0, 7, 0, 9];
    let mut reader = BytesReader::new(&bytes);
    let pool = read_constant_pool(&mut reader, 4).unwrap();
    assert_eq!(3, pool.len());
    assert_eq!(ConstantPoolInfo::Class(ConstantPoolClassInfo { tag: 7, name_index: 9 }), pool[2]);
}

#[test]
fn pool_stops_at_the_first_bad_entry() {
    let bytes = [1, 0, 1, b'a', 2, 0, 0];
    let mut reader = BytesReader::new(&bytes);
    assert_eq!(Err(DecodeError::UnknownConstantTag { tag: 2 }), read_constant_pool(&mut reader, 3));
    let bytes = [1, 0, 1, b'a', 7, 0];
    let mut reader = BytesReader::new(&bytes);
    assert_eq!(Err(DecodeError::UnexpectedEof), read_constant_pool(&mut reader, 3));
    let bytes = [1, 0, 1, b'a'];
    let mut reader = BytesReader::new(&bytes);
    assert_eq!(Err(DecodeError::UnexpectedEof), read_constant_pool(&mut reader, 3));
}

#[test]
fn name_lookup_wants_text() {
    let pool = vec![
        ConstantPoolInfo::Utf8(ConstantPoolUtf8Info { tag: 1, string: "a".to_string() }),
        ConstantPoolInfo::Class(ConstantPoolClassInfo { tag: 7, name_index: 1 }),
    ];
    assert_eq!(Ok("a".to_string()), get_name_info(&pool, &1));
    assert_eq!(Err(DecodeError::BadNameIndex { index: 2 }), get_name_info(&pool, &2));
    assert_eq!(Err(DecodeError::BadNameIndex { index: 0 }), get_name_info(&pool, &0));
    assert_eq!(Err(DecodeError::BadNameIndex { index: 3 }), get_name_info(&pool, &3));
    assert_eq!(Err(DecodeError::BadNameIndex { index: 4 }), get_name_info(&pool, &4));
}
