use localsend_core::device::DeviceType;
use localsend_core::dto::{FileDto, FileType, MulticastDto, PrepareUploadRequestDto,
    PrepareUploadResponseDto, RegisterDto};
use localsend_core::json::{parse_file, parse_multicast, parse_prepare_request,
    parse_prepare_response, parse_register, parse_token_map, serialize_file,
    serialize_multicast, serialize_prepare_request, serialize_prepare_response,
    serialize_register, serialize_token_map};

#[test]
pub fn test_serde_json() {
    let dto = MulticastDto::v1(
        "Nice Orange".to_string(),
        Some("Samsung".to_owned()),
        DeviceType::Mobile,
        "random string".to_string(),
        true,
    );
    let dto_str = r#"{"alias":"Nice Orange","version":null,"deviceModel":"Samsung","deviceType":"mobile","fingerprint":"random string","port":null,"protocol":null,"download":null,"announcement":true,"announce":null}"#;
    assert_eq!(dto_str, serialize_multicast(&dto));
    let new_dto: MulticastDto = parse_multicast(dto_str).unwrap();
    assert_eq!(dto.alias, new_dto.alias);
    assert_eq!(dto.fingerprint, new_dto.fingerprint);
}

#[test]
fn multicast_v2_round_trip() {
    let dto = MulticastDto::v2(
        "desk".to_string(),
        None,
        DeviceType::Headless,
        "fp-1".to_string(),
        53317,
        true,
    );
    let s = serialize_multicast(&dto);
    let back = parse_multicast(&s).unwrap();
    assert_eq!(back.alias, "desk");
    assert_eq!(back.version, Some("2.0".to_string()));
    assert_eq!(back.device_model, None);
    assert_eq!(back.device_type, Some(DeviceType::Headless));
    assert_eq!(back.fingerprint, "fp-1");
    assert_eq!(back.port, Some(53317));
    // a version 2 announcement populates both flags, for mixed networks
    assert_eq!(back.announcement, Some(true));
    assert_eq!(back.announce, Some(true));
}

#[test]
fn register_round_trip_with_escapes() {
    let dto = RegisterDto {
        alias: "a \"quoted\" name\\with\nnewline\tand\u{1}ctl".to_string(),
        version: Some("2.0".to_string()),
        device_model: None,
        device_type: Some(DeviceType::Server),
        fingerprint: "fp\u{8}\u{c}\r".to_string(),
        port: Some(65535),
        protocol: Some(localsend_core::device::ProtocolType::Https),
        download: Some(false),
    };
    let s = serialize_register(&dto);
    let back = parse_register(&s).unwrap();
    assert_eq!(back.alias, dto.alias);
    assert_eq!(back.fingerprint, dto.fingerprint);
    assert_eq!(back.port, Some(65535));
    assert_eq!(back.protocol, Some(localsend_core::device::ProtocolType::Https));
}

#[test]
fn serializer_output_is_real_json() {
    // an outside JSON implementation must read back what we write
    let dto = RegisterDto {
        alias: "esc \"x\" \\ \n \t \u{1f} ok".to_string(),
        version: None,
        device_model: Some("unicode ®é𝄞".to_string()),
        device_type: None,
        fingerprint: "f".to_string(),
        port: None,
        protocol: None,
        download: None,
    };
    let s = serialize_register(&dto);
    let v: serde_json::Value = serde_json::from_str(&s).unwrap();
    assert_eq!(v["alias"].as_str().unwrap(), dto.alias);
    assert_eq!(v["deviceModel"].as_str().unwrap(), "unicode ®é𝄞");
    assert!(v["version"].is_null());
}

#[test]
fn parser_reads_mixed_null_and_absent() {
    // fields in wire order, some null, some omitted entirely
    let s = r#"{"alias":"A B","deviceType":"web","fingerprint":"zz","port":17,"protocol":"http","download":true}"#;
    let back = parse_register(s).unwrap();
    assert_eq!(back.alias, "A B");
    assert_eq!(back.version, None);
    assert_eq!(back.device_model, None);
    assert_eq!(back.device_type, Some(DeviceType::Web));
    assert_eq!(back.port, Some(17));
    assert_eq!(back.download, Some(true));
}

#[test]
fn register_absent_fields_accepted() {
    // a version 1 peer omits the optional fields entirely
    let s = r#"{"alias":"old","fingerprint":"f1"}"#;
    let back = parse_register(s).unwrap();
    assert_eq!(back.alias, "old");
    assert_eq!(back.version, None);
    assert_eq!(back.port, None);
    assert_eq!(back.fingerprint, "f1");
}

#[test]
fn file_round_trip() {
    let f = FileDto {
        id: "F".to_string(),
        file_name: "hello.txt".to_string(),
        size: 5,
        file_type: FileType::Text,
        hash: None,
        preview: Some("hello".to_string()),
    };
    let s = serialize_file(&f);
    assert_eq!(
        s,
        r#"{"id":"F","fileName":"hello.txt","size":5,"fileType":"text","hash":null,"preview":"hello"}"#
    );
    let back = parse_file(&s).unwrap();
    assert_eq!(back.id, "F");
    assert_eq!(back.file_name, "hello.txt");
    assert_eq!(back.size, 5);
    assert_eq!(back.file_type, FileType::Text);
    assert_eq!(back.hash, None);
    assert_eq!(back.preview, Some("hello".to_string()));
}

#[test]
fn file_type_from_mime_strings() {
    assert_eq!(FileType::from_mime("image/png"), FileType::Image);
    assert_eq!(FileType::from_mime("video/mp4"), FileType::Video);
    assert_eq!(FileType::from_mime("application/pdf"), FileType::Pdf);
    assert_eq!(FileType::from_mime("text/plain"), FileType::Text);
    assert_eq!(
        FileType::from_mime("application/vnd.android.package-archive"),
        FileType::Apk
    );
    assert_eq!(FileType::from_mime("application/octet-stream"), FileType::Other);
    assert_eq!(FileType::from_mime("imagefoo"), FileType::Other);
}

#[test]
fn number_edges() {
    let f = FileDto {
        id: "n".to_string(),
        file_name: "n".to_string(),
        size: u64::MAX,
        file_type: FileType::Other,
        hash: None,
        preview: None,
    };
    let s = serialize_file(&f);
    let back = parse_file(&s).unwrap();
    assert_eq!(back.size, u64::MAX);
    // one past the largest size must be refused
    let too_big = s.replace("18446744073709551615", "18446744073709551616");
    assert!(parse_file(&too_big).is_none());
}

#[test]
fn token_map_round_trip() {
    let files = vec![
        ("F".to_string(), "tok-1".to_string()),
        ("G".to_string(), "tok-2".to_string()),
    ];
    let s = serialize_token_map(&files);
    assert_eq!(s, r#"{"F":"tok-1","G":"tok-2"}"#);
    let back = parse_token_map(&s).unwrap();
    assert_eq!(back, files);
    assert_eq!(parse_token_map("{}").unwrap(), Vec::<(String, String)>::new());
}

#[test]
fn prepare_response_round_trip() {
    let d = PrepareUploadResponseDto {
        session_id: "sid-1".to_string(),
        files: vec![("F".to_string(), "tok".to_string())],
    };
    let s = serialize_prepare_response(&d);
    assert_eq!(s, r#"{"sessionId":"sid-1","files":{"F":"tok"}}"#);
    let back = parse_prepare_response(&s).unwrap();
    assert_eq!(back.session_id, "sid-1");
    assert_eq!(back.files, d.files);
}

#[test]
fn prepare_request_round_trip() {
    let d = PrepareUploadRequestDto {
        info: RegisterDto {
            alias: "me".to_string(),
            version: Some("2.0".to_string()),
            device_model: None,
            device_type: Some(DeviceType::Desktop),
            fingerprint: "fp".to_string(),
            port: Some(53317),
            protocol: None,
            download: None,
        },
        files: vec![FileDto {
            id: "F".to_string(),
            file_name: "hello.txt".to_string(),
            size: 5,
            file_type: FileType::Text,
            hash: None,
            preview: None,
        }],
    };
    let s = serialize_prepare_request(&d);
    let back = parse_prepare_request(&s).unwrap();
    assert_eq!(back.info.alias, "me");
    assert_eq!(back.files.len(), 1);
    assert_eq!(back.files[0].id, "F");
    assert_eq!(back.files[0].size, 5);
    // and an outside JSON reader agrees on the shape
    let v: serde_json::Value = serde_json::from_str(&s).unwrap();
    assert_eq!(v["files"]["F"]["fileName"].as_str().unwrap(), "hello.txt");
}

#[test]
fn prepare_request_empty_files() {
    let d = PrepareUploadRequestDto {
        info: RegisterDto {
            alias: "me".to_string(),
            version: None,
            device_model: None,
            device_type: None,
            fingerprint: "fp".to_string(),
            port: None,
            protocol: None,
            download: None,
        },
        files: vec![],
    };
    let s = serialize_prepare_request(&d);
    let back = parse_prepare_request(&s).unwrap();
    assert_eq!(back.files.len(), 0);
}

#[test]
fn parser_accepts_reordered_members() {
    // a peer's encoder may emit the members in any order
    let s = r#"{"fingerprint":"zz","port":17,"alias":"A B","download":true,"deviceType":"web"}"#;
    let back = parse_register(s).unwrap();
    assert_eq!(back.alias, "A B");
    assert_eq!(back.fingerprint, "zz");
    assert_eq!(back.port, Some(17));
    assert_eq!(back.device_type, Some(DeviceType::Web));
    assert_eq!(back.download, Some(true));
}

#[test]
fn parser_accepts_whitespace_and_extras() {
    let s = "{ \"alias\" : \"pad\" ,\n\t\"unknownField\": 7,\r\n \"fingerprint\": \"f9\" }";
    let back = parse_register(s).unwrap();
    assert_eq!(back.alias, "pad");
    assert_eq!(back.fingerprint, "f9");
    assert_eq!(back.version, None);
}

#[test]
fn parser_reads_serde_output() {
    // serde_json's Value maps sort their keys; we must still read them
    let mut m = serde_json::Map::new();
    m.insert("alias".to_string(), serde_json::Value::String("A B".to_string()));
    m.insert("version".to_string(), serde_json::Value::Null);
    m.insert("deviceModel".to_string(), serde_json::Value::Null);
    m.insert("deviceType".to_string(), serde_json::Value::String("web".to_string()));
    m.insert("fingerprint".to_string(), serde_json::Value::String("zz".to_string()));
    m.insert("port".to_string(), serde_json::Value::from(17u64));
    m.insert("protocol".to_string(), serde_json::Value::String("http".to_string()));
    m.insert("download".to_string(), serde_json::Value::Bool(true));
    let s = serde_json::to_string_pretty(&serde_json::Value::Object(m)).unwrap();
    let back = parse_register(&s).unwrap();
    assert_eq!(back.alias, "A B");
    assert_eq!(back.device_type, Some(DeviceType::Web));
    assert_eq!(back.port, Some(17));
    assert_eq!(back.download, Some(true));
}

#[test]
fn parser_keeps_last_duplicate_member() {
    let s = r#"{"alias":"first","fingerprint":"f","alias":"second"}"#;
    let back = parse_register(s).unwrap();
    assert_eq!(back.alias, "second");
}

#[test]
fn request_accepts_reordered_and_spaced_body() {
    let s = r#"{ "files": { "F": { "size": 5, "id": "F", "fileName": "hello.txt", "fileType": "text/plain" } }, "info": { "fingerprint": "fp", "alias": "me" } }"#;
    let back = parse_prepare_request(s).unwrap();
    assert_eq!(back.info.alias, "me");
    assert_eq!(back.files.len(), 1);
    assert_eq!(back.files[0].id, "F");
    assert_eq!(back.files[0].file_name, "hello.txt");
    assert_eq!(back.files[0].size, 5);
    assert_eq!(back.files[0].file_type, FileType::Text);
}

#[test]
fn response_accepts_reordered_body() {
    let s = r#"{ "files": {"F": "tok-1"}, "sessionId": "sid-9" }"#;
    let back = parse_prepare_response(s).unwrap();
    assert_eq!(back.session_id, "sid-9");
    assert_eq!(back.files, vec![("F".to_string(), "tok-1".to_string())]);
    let m = parse_token_map(" { \"a\" : \"t1\" , \"b\" : \"t2\" } ").unwrap();
    assert_eq!(m.len(), 2);
    assert_eq!(m[1], ("b".to_string(), "t2".to_string()));
}
