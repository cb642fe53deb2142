use debugid::CodeId;

#[test]
fn test_new() {
    let id = CodeId::new("dfb8e43af2423d73a453aeb6a777ef75".to_string());
    assert_eq!(id.to_string(), "dfb8e43af2423d73a453aeb6a777ef75");
    assert_eq!(id.as_str(), "dfb8e43af2423d73a453aeb6a777ef75");
}

#[test]
fn test_from_binary() {
    let binary = b"\xdf\xb8\xe4\x3a\xf2\x42\x3d\x73\xa4\x53\xae\xb6\xa7\x77\xef\x75";
    let id = CodeId::from_binary(&binary[..]);
    assert_eq!(id.to_string(), "dfb8e43af2423d73a453aeb6a777ef75");
    assert_eq!(id.as_str().as_bytes(), &b"dfb8e43af2423d73a453aeb6a777ef75"[..]);
}

#[test]
fn test_is_nil() {
    let id = CodeId::nil();
    assert!(id.is_nil());
}

#[test]
fn from_binary_pads_each_byte_to_two_digits() {
    let id = CodeId::from_binary(&[0x00, 0x0a, 0xf0, 0xff]);
    assert_eq!(id.as_str(), "000af0ff");
    assert!(!id.is_nil());
}

#[test]
fn from_binary_of_nothing_is_nil() {
    let id = CodeId::from_binary(&[]);
    assert!(id.is_nil());
    assert_eq!(id.as_str(), "");
    assert_eq!(id, CodeId::nil());
    assert_eq!(id, CodeId::default());
}

#[test]
fn new_keeps_hex_digits_in_lower_case() {
    let id = CodeId::new("DFB8-E43A xyz 0G9\u{e9}f".to_string());
    assert_eq!(id.as_str(), "dfb8e43a09f");
}

#[test]
fn new_of_text_without_hex_digits_is_nil() {
    assert!(CodeId::new("-- zz \u{1F600}".to_string()).is_nil());
    assert!(CodeId::new(String::new()).is_nil());
}

#[test]
fn from_str_accepts_every_text() {
    assert_eq!(
        CodeId::from_str("5AB380779000").unwrap().as_str(),
        "5ab380779000"
    );
    assert_eq!(CodeId::from_str("not one digit").unwrap().as_str(), "ed");
    assert!(CodeId::from_str("").unwrap().is_nil());
}

#[test]
fn code_ids_compare_by_their_text() {
    let a = CodeId::from_binary(&[0x01]);
    let b = CodeId::new("01".to_string());
    let c = CodeId::new("02".to_string());
    assert_eq!(a, b);
    assert_eq!(a.clone(), a);
    assert!(a < c);
}

#[test]
fn conversions_normalize_like_new() {
    let from_string: CodeId = CodeId::from("DFB8-E43A".to_string());
    let from_str: CodeId = CodeId::from("DFB8-E43A");
    let parsed: CodeId = "DFB8-E43A".parse().unwrap();
    assert_eq!(from_string.as_str(), "dfb8e43a");
    assert_eq!(from_str, from_string);
    assert_eq!(parsed, from_string);
    let text: &str = from_string.as_ref();
    assert_eq!(text, "dfb8e43a");
}
