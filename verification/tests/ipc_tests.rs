use kbd_backlight::ipc::{
    frame_payload, parse_frame_header, IpcMessage, IpcResponse, StatusInfo,
};
use kbd_backlight::wire::encode_frame_len;

#[test]
fn test_ipc_message_serialization() {
    let messages = vec![
        IpcMessage::GetStatus,
        IpcMessage::SetProfile("home".to_string()),
        IpcMessage::SetManualBrightness(2),
        IpcMessage::ClearManualOverride,
        IpcMessage::ListProfiles,
        IpcMessage::AddTimeSchedule {
            profile: "office".to_string(),
            hour: 9,
            minute: 30,
            brightness: 3,
        },
        IpcMessage::Shutdown,
    ];

    for msg in messages {
        let serialized = msg.serialize().expect("Failed to serialize");
        let deserialized = IpcMessage::deserialize(&serialized).expect("Failed to deserialize");

        // Verify round-trip works by serializing again and comparing
        let reserialized = deserialized.serialize().expect("Failed to reserialize");
        assert_eq!(serialized, reserialized, "Round-trip serialization failed");
    }
}

#[test]
fn test_ipc_response_serialization() {
    let responses = vec![
        IpcResponse::Status(StatusInfo {
            active_profile: "home".to_string(),
            current_brightness: 2,
            is_idle: false,
            is_fullscreen: false,
            manual_override: None,
        }),
        IpcResponse::ProfileChanged,
        IpcResponse::BrightnessSet,
        IpcResponse::ProfileList(vec!["home".to_string(), "office".to_string()]),
        IpcResponse::ScheduleAdded,
        IpcResponse::Error("Test error".to_string()),
        IpcResponse::Okay,
    ];

    for resp in responses {
        let serialized = resp.serialize().expect("Failed to serialize");
        let deserialized = IpcResponse::deserialize(&serialized).expect("Failed to deserialize");

        // Verify round-trip works by serializing again and comparing
        let reserialized = deserialized.serialize().expect("Failed to reserialize");
        assert_eq!(serialized, reserialized, "Round-trip serialization failed");
    }
}

#[test]
fn test_message_wire_form_is_tagged_text() {
    let bytes = IpcMessage::GetStatus.serialize().unwrap();
    assert_eq!(bytes, b"GetStatus".to_vec());

    let bytes = IpcMessage::SetProfile("home".to_string()).serialize().unwrap();
    assert_eq!(bytes, b"SetProfile \"home\"".to_vec());

    let bytes = IpcMessage::SetManualBrightness(2).serialize().unwrap();
    assert_eq!(bytes, b"SetManualBrightness 2".to_vec());

    let bytes = IpcMessage::AddTimeSchedule {
        profile: "office".to_string(),
        hour: 9,
        minute: 30,
        brightness: 3,
    }
    .serialize()
    .unwrap();
    assert_eq!(bytes, b"AddTimeSchedule \"office\" 9 30 3".to_vec());
}

#[test]
fn test_response_wire_form_is_tagged_text() {
    let bytes = IpcResponse::Status(StatusInfo {
        active_profile: "home".to_string(),
        current_brightness: 2,
        is_idle: false,
        is_fullscreen: true,
        manual_override: Some(3),
    })
    .serialize()
    .unwrap();
    assert_eq!(bytes, b"Status \"home\" 2 false true 3".to_vec());

    let bytes = IpcResponse::Status(StatusInfo {
        active_profile: "home".to_string(),
        current_brightness: 0,
        is_idle: true,
        is_fullscreen: false,
        manual_override: None,
    })
    .serialize()
    .unwrap();
    assert_eq!(bytes, b"Status \"home\" 0 true false null".to_vec());

    let bytes = IpcResponse::ProfileList(vec!["a".to_string(), "b".to_string()])
        .serialize()
        .unwrap();
    assert_eq!(bytes, b"ProfileList 2 \"a\" \"b\"".to_vec());
}

#[test]
fn test_string_escaping_round_trip() {
    let tricky = "quo\"te back\\slash and space".to_string();
    let msg = IpcMessage::SetProfile(tricky.clone());
    let serialized = msg.serialize().unwrap();
    match IpcMessage::deserialize(&serialized).unwrap() {
        IpcMessage::SetProfile(name) => assert_eq!(name, tricky),
        other => panic!("unexpected message: {:?}", other),
    }
}

#[test]
fn test_non_ascii_profile_name_round_trip() {
    let name = "büro λ".to_string();
    let msg = IpcMessage::SetProfile(name.clone());
    let serialized = msg.serialize().unwrap();
    match IpcMessage::deserialize(&serialized).unwrap() {
        IpcMessage::SetProfile(got) => assert_eq!(got, name),
        other => panic!("unexpected message: {:?}", other),
    }
}

#[test]
fn test_deserialize_rejects_garbage() {
    assert!(IpcMessage::deserialize(b"NoSuchTag").is_err());
    assert!(IpcMessage::deserialize(b"").is_err());
    assert!(IpcMessage::deserialize(b"SetProfile").is_err());
    assert!(IpcMessage::deserialize(b"SetProfile \"unterminated").is_err());
    assert!(IpcMessage::deserialize(b"SetManualBrightness notanumber").is_err());
    assert!(IpcMessage::deserialize(b"GetStatus trailing").is_err());
    assert!(IpcResponse::deserialize(b"Status \"x\"").is_err());
}

#[test]
fn test_frame_header_rejects_oversized_announcement() {
    // A prefix announcing a 2,000,000-byte body is rejected before any of
    // the body would be read.
    let header = encode_frame_len(2_000_000);
    let result = parse_frame_header(&header);
    assert!(result.is_err());
}

#[test]
fn test_frame_header_rejects_zero_length() {
    let header = encode_frame_len(0);
    assert!(parse_frame_header(&header).is_err());
}

#[test]
fn test_frame_header_accepts_bounded_lengths() {
    assert_eq!(parse_frame_header(&encode_frame_len(1)).unwrap(), 1);
    assert_eq!(parse_frame_header(&encode_frame_len(1_000_000)).unwrap(), 1_000_000);
    assert!(parse_frame_header(&encode_frame_len(1_000_001)).is_err());
}

#[test]
fn test_frame_payload_layout() {
    let payload = b"GetStatus".to_vec();
    let framed = frame_payload(&payload).unwrap();
    assert_eq!(framed.len(), 4 + payload.len());
    assert_eq!(&framed[..4], &[0, 0, 0, 9]);
    assert_eq!(&framed[4..], &payload[..]);

    assert!(frame_payload(&[]).is_err());
    assert!(frame_payload(&vec![0u8; 1_000_001]).is_err());
}

#[test]
fn test_frame_header_big_endian_value() {
    let header = encode_frame_len(0x000102);
    assert_eq!(header, vec![0x00, 0x00, 0x01, 0x02]);
    assert_eq!(parse_frame_header(&header).unwrap(), 0x102);
}
