use debugid::{DebugId, ParseDebugIdError, ParseOptions};

const UUID: [u8; 16] = [
    0xdf, 0xb8, 0xe4, 0x3a, 0xf2, 0x42, 0x3d, 0x73, 0xa4, 0x53, 0xae, 0xb6, 0xa7, 0x77, 0xef, 0x75,
];

fn strict_with_hyphens() -> ParseOptions {
    ParseOptions {
        allow_hyphens: true,
        require_appendix: true,
        allow_tail: false,
    }
}

#[test]
fn parsed_uuid_bytes_are_big_endian() {
    let id = DebugId::from_str("dfb8e43a-f242-3d73-a453-aeb6a777ef75").unwrap();
    assert_eq!(id.uuid(), UUID);
    assert_eq!(id.appendix(), 0);
    assert!(!id.is_pdb20());
    assert!(!id.is_nil());
    let compact = DebugId::from_breakpad("DFB8E43AF2423D73A453AEB6A777EF750").unwrap();
    assert_eq!(compact.uuid(), UUID);
    assert_eq!(compact, id);
}

#[test]
fn nil_is_the_zero_uuid() {
    let nil = DebugId::nil();
    assert!(nil.is_nil());
    assert!(!nil.is_pdb20());
    assert_eq!(nil.uuid(), [0u8; 16]);
    assert_eq!(nil.appendix(), 0);
    assert_eq!(nil, DebugId::from_uuid([0u8; 16]));
    assert_eq!(nil.to_string(), "00000000-0000-0000-0000-000000000000");
    assert_eq!(
        nil.breakpad().to_string(),
        "000000000000000000000000000000000"
    );
    assert!(!DebugId::from_parts([0u8; 16], 1).is_nil());
    let mut last = [0u8; 16];
    last[15] = 1;
    assert!(!DebugId::from_uuid(last).is_nil());
}

#[test]
fn from_uuid_has_appendix_zero() {
    let id = DebugId::from_uuid(UUID);
    assert_eq!(id, DebugId::from_parts(UUID, 0));
    assert_eq!(id.appendix(), 0);
    assert_eq!(id.uuid(), UUID);
}

#[test]
fn guid_fields_are_reversed() {
    let guid: Vec<u8> = (0u8..16).collect();
    let id = DebugId::from_guid_age(&guid, 7).unwrap();
    assert_eq!(
        id.uuid(),
        [3, 2, 1, 0, 5, 4, 7, 6, 8, 9, 10, 11, 12, 13, 14, 15]
    );
    assert_eq!(id.appendix(), 7);
    assert_eq!(id.to_string(), "03020100-0504-0706-0809-0a0b0c0d0e0f-7");
}

#[test]
fn guid_of_wrong_length_is_refused() {
    assert_eq!(DebugId::from_guid_age(&[0u8; 15], 1), Err(ParseDebugIdError));
    assert_eq!(DebugId::from_guid_age(&[0u8; 17], 1), Err(ParseDebugIdError));
    assert_eq!(DebugId::from_guid_age(&[], 1), Err(ParseDebugIdError));
    assert!(DebugId::from_guid_age(&[0u8; 16], 1).is_ok());
}

#[test]
fn timestamp_forms() {
    let id = DebugId::from_timestamp_age(0x3fbf3c0c, 1);
    assert!(id.is_pdb20());
    assert_eq!(id.appendix(), 1);
    assert_eq!(id.uuid(), [0u8; 16]);
    assert_eq!(id.to_string(), "3FBF3C0C-1");
    assert_eq!(id.breakpad().to_string(), "3FBF3C0C1");
    assert_eq!(
        id.inspect(),
        "DebugId { timestamp: 1069497356, appendix: 1 }"
    );
}

#[test]
fn timestamp_is_padded_to_eight_digits() {
    let id = DebugId::from_timestamp_age(0xab, 0x10);
    assert_eq!(id.to_string(), "000000AB-10");
    assert_eq!(id.breakpad().to_string(), "000000AB10");
    assert_eq!(DebugId::from_str("000000AB-10").unwrap(), id);
    assert_eq!(DebugId::from_breakpad("000000AB10").unwrap(), id);
}

#[test]
fn timestamp_nil_and_order() {
    assert!(DebugId::from_timestamp_age(0, 0).is_nil());
    assert!(!DebugId::from_timestamp_age(0, 1).is_nil());
    assert!(!DebugId::from_timestamp_age(1, 0).is_nil());
    assert!(DebugId::from_timestamp_age(0, 0) != DebugId::nil());
    assert!(DebugId::from_timestamp_age(u32::MAX, u32::MAX) < DebugId::nil());
    assert!(DebugId::from_parts(UUID, 1) < DebugId::from_parts(UUID, 2));
    assert!(DebugId::from_parts([0u8; 16], 9) < DebugId::from_parts(UUID, 0));
}

#[test]
fn timestamp_is_read_in_the_legacy_window() {
    let id = DebugId::from_timestamp_age(0x3fbf3c0c, 0xfeedface);
    assert_eq!(DebugId::from_str("3fbf3c0c-feedface").unwrap(), id);
    assert_eq!(DebugId::from_str("3FBF3C0CFEEDFACE").unwrap(), id);
    assert_eq!(DebugId::from_breakpad("3FBF3C0Cfeedface").unwrap(), id);
    assert_eq!(
        DebugId::from_str("3fbf3c0c-0").unwrap(),
        DebugId::from_timestamp_age(0x3fbf3c0c, 0)
    );
    assert!(DebugId::from_breakpad("3fbf3c0c-1").is_err());
}

#[test]
fn text_in_the_legacy_window_is_never_a_uuid() {
    assert!(DebugId::from_str("3fbf3c0c").is_err());
    assert!(DebugId::from_str("3fbf3c0c-").is_err());
    assert!(DebugId::from_str("3fbf3c0g-1").is_err());
    assert!(DebugId::from_str("3fbf3c0c-1x").is_err());
    assert!(DebugId::from_str("3fbf3c0c-feedface1").is_err());
    assert!(DebugId::from_str("3fbf3c0cfeedface1").is_err());
    assert!(DebugId::from_str("3fbf3c0c-1-234").is_err());
}

#[test]
fn bare_timestamp_form_is_not_read_back() {
    let id = DebugId::from_timestamp_age(0x3fbf3c0c, 0);
    assert_eq!(id.to_string(), "3FBF3C0C");
    assert!(DebugId::from_str("3FBF3C0C").is_err());
    assert_eq!(id.breakpad().to_string(), "3FBF3C0C0");
    assert_eq!(DebugId::from_breakpad("3FBF3C0C0").unwrap(), id);
}

#[test]
fn default_form_reads_back() {
    let ids = [
        DebugId::nil(),
        DebugId::from_parts(UUID, 0),
        DebugId::from_parts(UUID, 1),
        DebugId::from_parts(UUID, 0x10),
        DebugId::from_parts(UUID, u32::MAX),
        DebugId::from_parts([0xff; 16], 0x0fff_ffff),
        DebugId::from_timestamp_age(0, 1),
        DebugId::from_timestamp_age(u32::MAX, u32::MAX),
        DebugId::from_timestamp_age(0x1234, 0x100),
    ];
    for id in ids {
        assert_eq!(DebugId::from_str(&id.to_string()), Ok(id));
    }
}

#[test]
fn breakpad_form_reads_back() {
    let ids = [
        DebugId::nil(),
        DebugId::from_parts(UUID, 0),
        DebugId::from_parts(UUID, 0xa),
        DebugId::from_parts(UUID, u32::MAX),
        DebugId::from_parts([0xff; 16], 0x0fff_ffff),
        DebugId::from_timestamp_age(0, 0),
        DebugId::from_timestamp_age(u32::MAX, u32::MAX),
        DebugId::from_timestamp_age(0x1234, 0x100),
    ];
    for id in ids {
        assert_eq!(DebugId::from_breakpad(&id.breakpad().to_string()), Ok(id));
    }
}

#[test]
fn appendix_is_left_out_of_the_default_form_only_when_zero() {
    assert_eq!(
        DebugId::from_parts(UUID, 0).to_string(),
        "dfb8e43a-f242-3d73-a453-aeb6a777ef75"
    );
    assert_eq!(
        DebugId::from_parts(UUID, 1).to_string(),
        "dfb8e43a-f242-3d73-a453-aeb6a777ef75-1"
    );
    assert_eq!(
        DebugId::from_parts(UUID, 0).breakpad().to_string(),
        "DFB8E43AF2423D73A453AEB6A777EF750"
    );
    assert_eq!(
        DebugId::from_parts(UUID, 0xABCDEF).to_string(),
        "dfb8e43a-f242-3d73-a453-aeb6a777ef75-abcdef"
    );
}

#[test]
fn case_of_the_input_does_not_matter() {
    let upper = DebugId::from_str("DFB8E43A-F242-3D73-A453-AEB6A777EF75-FEEDFACE").unwrap();
    let lower = DebugId::from_str("dfb8e43a-f242-3d73-a453-aeb6a777ef75-feedface").unwrap();
    let mixed = DebugId::from_str("dFb8E43a-F242-3d73-a453-AEB6a777eF75-FeedFace").unwrap();
    assert_eq!(upper, lower);
    assert_eq!(mixed, lower);
    assert_eq!(
        upper.to_string(),
        "dfb8e43a-f242-3d73-a453-aeb6a777ef75-feedface"
    );
    assert_eq!(
        lower.to_string(),
        "dfb8e43a-f242-3d73-a453-aeb6a777ef75-feedface"
    );
    assert_eq!(
        DebugId::from_breakpad("dfb8e43af2423d73a453aeb6a777ef75A").unwrap(),
        DebugId::from_parts(UUID, 10)
    );
}

#[test]
fn tail_behind_eight_appendix_characters_is_ignored() {
    let id = DebugId::from_parts(UUID, 0xfeedface);
    assert_eq!(
        DebugId::from_str("dfb8e43a-f242-3d73-a453-aeb6a777ef75-feedface1"),
        Ok(id)
    );
    assert_eq!(
        DebugId::from_str("dfb8e43a-f242-3d73-a453-aeb6a777ef75-feedface, and more"),
        Ok(id)
    );
    assert_eq!(
        DebugId::from_str("dfb8e43af2423d73a453aeb6a777ef75feedfacezzzz"),
        Ok(id)
    );
    assert!(DebugId::from_str("dfb8e43a-f242-3d73-a453-aeb6a777ef75-feedfac!").is_err());
    assert!(DebugId::from_breakpad("DFB8E43AF2423D73A453AEB6A777EF75feedface1").is_err());
    assert!(DebugId::from_breakpad("DFB8E43AF2423D73A453AEB6A777EF75000000001").is_err());
    assert_eq!(
        DebugId::parse_str(
            "dfb8e43a-f242-3d73-a453-aeb6a777ef75-feedface1",
            strict_with_hyphens()
        ),
        None
    );
    assert_eq!(
        DebugId::parse_str(
            "dfb8e43a-f242-3d73-a453-aeb6a777ef75-feedface",
            strict_with_hyphens()
        ),
        Some(id)
    );
}

#[test]
fn appendix_must_be_hex_digits() {
    assert!(DebugId::from_str("dfb8e43a-f242-3d73-a453-aeb6a777ef75-").is_err());
    assert!(DebugId::from_str("dfb8e43a-f242-3d73-a453-aeb6a777ef75-+a").is_err());
    assert!(DebugId::from_str("dfb8e43a-f242-3d73-a453-aeb6a777ef75-g").is_err());
    assert!(DebugId::from_str("dfb8e43a-f242-3d73-a453-aeb6a777ef75- 1").is_err());
    assert!(DebugId::from_breakpad("DFB8E43AF2423D73A453AEB6A777EF75+a").is_err());
    assert!(DebugId::from_breakpad("DFB8E43AF2423D73A453AEB6A777EF75x").is_err());
}

#[test]
fn separator_follows_the_hyphenation() {
    assert!(DebugId::from_str("dfb8e43a-f242-3d73-a453-aeb6a777ef75a").is_err());
    assert!(DebugId::from_str("dfb8e43af2423d73a453aeb6a777ef75-a").is_err());
    assert!(DebugId::from_str("dfb8e43a-f242-3d73-a453-aeb6a777ef75--a").is_err());
    assert_eq!(
        DebugId::from_str("dfb8e43af2423d73a453aeb6a777ef75a"),
        Ok(DebugId::from_parts(UUID, 10))
    );
}

#[test]
fn breakpad_grammar_is_strict() {
    assert!(DebugId::from_breakpad("DFB8E43AF2423D73A453AEB6A777EF75").is_err());
    assert!(DebugId::from_breakpad("dfb8e43a-f242-3d73-a453-aeb6a777ef75-a").is_err());
    assert!(DebugId::from_breakpad("dfb8e43a-f242-3d73-a453-aeb6a777ef75").is_err());
    assert_eq!(
        DebugId::parse_str("dfb8e43a-f242-3d73-a453-aeb6a777ef75", strict_with_hyphens()),
        None
    );
    assert_eq!(
        DebugId::from_str("dfb8e43af2423d73a453aeb6a777ef75"),
        Ok(DebugId::from_parts(UUID, 0))
    );
}

#[test]
fn malformed_uuid_is_refused() {
    assert!(DebugId::from_str("").is_err());
    assert!(DebugId::from_str("dfb8e43a").is_err());
    assert!(DebugId::from_str("dfb8e43a-f2423d73a453aeb6a777ef75aaaa").is_err());
    assert!(DebugId::from_str("dfb8e43a-f242-3d73-a453-aeb6a777efzz").is_err());
    assert!(DebugId::from_str("dfb8e43a-f242-3d73-a453_aeb6a777ef75-a").is_err());
    assert!(DebugId::from_str("dfb8e43af2423d73a453aeb6a777ef7g").is_err());
    assert!(DebugId::from_str("urn:uuid:dfb8e43a-f242-3d73-a453-aeb6a777ef75").is_err());
    assert!(DebugId::from_str("{dfb8e43a-f242-3d73-a453-aeb6a777ef75}").is_err());
}

#[test]
fn text_that_is_not_ascii_is_refused() {
    assert!(DebugId::from_str("dfb8e43a-f242-3d73-a453-aeb6a777ef75-\u{e9}").is_err());
    assert!(DebugId::from_str("dfb8e43a-f242-3d73-a453-aeb6a777ef75-feedface\u{e9}").is_err());
    assert!(DebugId::from_str("3fbf3c0c-\u{ff11}").is_err());
    assert!(DebugId::from_breakpad("\u{e9}FB8E43AF2423D73A453AEB6A777EF75a").is_err());
}

#[test]
fn conversions_agree_with_the_constructors() {
    assert_eq!(DebugId::from(UUID), DebugId::from_uuid(UUID));
    assert_eq!(DebugId::from((UUID, 5)), DebugId::from_parts(UUID, 5));
    assert_eq!(DebugId::default(), DebugId::nil());
    let parsed: DebugId = "dfb8e43a-f242-3d73-a453-aeb6a777ef75-5".parse().unwrap();
    assert_eq!(parsed, DebugId::from_parts(UUID, 5));
    let refused: Result<DebugId, ParseDebugIdError> = "3FBF3C0C".parse();
    assert_eq!(refused, Err(ParseDebugIdError));
}
