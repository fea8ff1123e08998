use rjvm::JavaClass;

#[test]
fn test_version_resolves() {
    assert_eq!("1.1", JavaClass::resolve_version(45).unwrap());
    assert_eq!("1.2", JavaClass::resolve_version(46).unwrap());
    assert_eq!("19", JavaClass::resolve_version(63).unwrap());
    assert_eq!("20", JavaClass::resolve_version(64).unwrap());
    assert!(JavaClass::resolve_version(65).is_err_and(|err| err == "Major version 65 is not supported"));
}

#[test]
fn test_check_prelude() {
    assert!(JavaClass::check_prelude(0xCAFEBABE).is_ok());
    assert!(JavaClass::check_prelude(0xCAFEBABB)
        .is_err_and(|err| err == "The prelude is 0xCAFEBABB instead of 0xCAFEBABE"));
}

#[test]
fn every_supported_version_has_its_label() {
    let labels = [
        "1.1", "1.2", "1.3", "1.4", "5.0", "6", "7", "8", "9", "10", "11", "12", "13", "14", "15",
        "16", "17", "18", "19", "20",
    ];
    for major in 45u16..=64 {
        assert_eq!(
            labels[(major - 45) as usize],
            JavaClass::resolve_version(major).unwrap()
        );
    }
}

#[test]
fn version_below_the_table_is_not_supported() {
    assert_eq!(
        Err("Major version 44 is not supported".to_string()),
        JavaClass::resolve_version(44)
    );
    assert_eq!(
        Err("Major version 0 is not supported".to_string()),
        JavaClass::resolve_version(0)
    );
}

#[test]
fn version_above_the_table_is_not_supported() {
    assert_eq!(
        Err("Major version 65535 is not supported".to_string()),
        JavaClass::resolve_version(65535)
    );
}

#[test]
fn prelude_message_names_what_was_found() {
    assert_eq!(
        Err("The prelude is 0x0 instead of 0xCAFEBABE".to_string()),
        JavaClass::check_prelude(0)
    );
    assert_eq!(
        Err("The prelude is 0xFFFFFFFF instead of 0xCAFEBABE".to_string()),
        JavaClass::check_prelude(0xFFFF_FFFF)
    );
    assert_eq!(
        Err("The prelude is 0x1F instead of 0xCAFEBABE".to_string()),
        JavaClass::check_prelude(0x1F)
    );
}
