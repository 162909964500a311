use audio_control::errors::{create_error_response, error_response_from_anyhow, AudioError, ErrorKind};
use audio_control::group_id::guid_to_string;
use audio_control::text::push_decimal;
use audio_control::{extract_simple_name, get_timestamp, DeviceSound, GroupId, Guid, Volume};

#[test]
fn simple_name_strips_directory_and_extension() {
    assert_eq!(extract_simple_name("C:\\Program Files\\App\\app.exe"), "app");
    assert_eq!(extract_simple_name("C:\\Windows\\explorer.EXE"), "explorer");
    assert_eq!(extract_simple_name("/usr/bin/firefox"), "firefox");
    assert_eq!(extract_simple_name("C:\\tools\\build\\"), "build");
    assert_eq!(extract_simple_name("player.exe.exe"), "player.exe");
    assert_eq!(extract_simple_name("C:/mixed\\path/run.exe"), "run");
    assert_eq!(extract_simple_name("a/."), "a");
    assert_eq!(extract_simple_name("foo.txt/."), "foo.txt");
    assert_eq!(extract_simple_name("a/./"), "a");
    assert_eq!(extract_simple_name("C:name.exe"), "name");
    assert_eq!(extract_simple_name("name."), "name.");
}

#[test]
fn simple_name_of_a_path_without_file_name_is_unknown() {
    assert_eq!(extract_simple_name(""), "Unknown");
    assert_eq!(extract_simple_name("\\"), "Unknown");
    assert_eq!(extract_simple_name("C:\\dir\\.."), "Unknown");
    assert_eq!(extract_simple_name("."), "Unknown");
    assert_eq!(extract_simple_name("./."), "Unknown");
    assert_eq!(extract_simple_name("C:"), "Unknown");
    assert_eq!(extract_simple_name("C:\\"), "Unknown");
    assert_eq!(extract_simple_name("a/.."), "Unknown");
}

#[test]
fn guid_text_is_upper_case_and_zero_padded() {
    let guid = Guid {
        data1: 0x0a7155bb,
        data2: 0x2c0b,
        data3: 0x45a0,
        data4: [0xb6, 0xe4, 0x4c, 0x7c, 0x08, 0xd0, 0xa5, 0xa7],
    };
    assert_eq!(guid_to_string(&guid), "0A7155BB-2C0B-45A0-B6E4-4C7C08D0A5A7");
    let zero = Guid { data1: 0, data2: 0, data3: 0, data4: [0; 8] };
    assert_eq!(GroupId::from_guid(&zero).as_str(), "00000000-0000-0000-0000-000000000000");
}

#[test]
fn decimal_rendering() {
    let mut s = String::from("n=");
    push_decimal(&mut s, 0);
    assert_eq!(s, "n=0");
    let mut t = String::new();
    push_decimal(&mut t, 4294967295);
    assert_eq!(t, "4294967295");
}

#[test]
fn group_ids_compare_by_text() {
    let a = GroupId::new("x".to_string());
    let b = GroupId::new("x".to_string());
    let c = GroupId::new("y".to_string());
    assert!(a == b);
    assert!(a.same_as(&b));
    assert!(!a.same_as(&c));
    assert_eq!(a.duplicate().as_str(), "x");
}

#[test]
fn volume_range_is_closed() {
    assert_eq!(Volume::try_from(0).unwrap().hundredths(), 0);
    assert_eq!(Volume::try_from(10000).unwrap().hundredths(), 10000);
    assert_eq!(Volume::try_from(5000).unwrap().hundredths(), 5000);
    for bad in [-1i64, 10001, i64::MIN, i64::MAX] {
        match Volume::try_from(bad) {
            Err(message) => assert_eq!(message, "volume must be between 0.0 and 100.0"),
            other => panic!("unexpected {:?}", other),
        }
    }
}

#[test]
fn error_codes_by_class() {
    let cases = vec![
        (AudioError::DeviceNotFound { device_id: "d".to_string() }, 404, ErrorKind::NotFound),
        (AudioError::NoSessionsFound, 404, ErrorKind::NotFound),
        (AudioError::InvalidDeviceId, 400, ErrorKind::Validation),
        (AudioError::InvalidRequestBody { message: "bad".to_string() }, 400, ErrorKind::Validation),
        (AudioError::ComInitFailed { detail: "x".to_string() }, 500, ErrorKind::BackendFailure),
        (AudioError::SessionManagerFailed { detail: "x".to_string() }, 500, ErrorKind::BackendFailure),
        (AudioError::SessionEnumFailed { detail: "x".to_string() }, 500, ErrorKind::BackendFailure),
        (AudioError::WindowsError { detail: "x".to_string() }, 500, ErrorKind::BackendFailure),
        (AudioError::Utf16Error { detail: "x".to_string() }, 500, ErrorKind::BackendFailure),
    ];
    for (error, code, kind) in cases {
        assert_eq!(error.kind(), kind);
        let (c, details) = error_response_from_anyhow(&error);
        assert_eq!(c, code);
        assert_eq!(details.is_some(), kind == ErrorKind::Validation);
    }
}

#[test]
fn backend_details_are_not_echoed() {
    let (code, details) = error_response_from_anyhow(&AudioError::WindowsError {
        detail: "0x80070005 access denied".to_string(),
    });
    assert_eq!(code, 500);
    assert!(details.is_none());
    let (code, details) = error_response_from_anyhow(&AudioError::InvalidDeviceId);
    assert_eq!(code, 400);
    assert_eq!(details.as_deref(), Some("Invalid device ID"));
}

#[test]
fn error_descriptions() {
    assert_eq!(
        AudioError::DeviceNotFound { device_id: "d1".to_string() }.describe(),
        "Device not found: d1"
    );
    assert_eq!(AudioError::NoSessionsFound.describe(), "No sessions found");
    assert_eq!(
        AudioError::WindowsError { detail: "boom".to_string() }.describe(),
        "Windows API error: boom"
    );
    assert_eq!(
        AudioError::Utf16Error { detail: "bad".to_string() }.describe(),
        "UTF-16 conversion error: bad"
    );
    assert_eq!(
        AudioError::ComInitFailed { detail: "x".to_string() }.describe(),
        "COM initialization failed"
    );
}

#[test]
fn error_envelope_keeps_its_parts() {
    let e = create_error_response(404, "Resource not found", None);
    assert_eq!(e.code, 404);
    assert_eq!(e.message, "Resource not found");
    assert!(e.details.is_none());
}

#[test]
fn device_line() {
    let d = DeviceSound { id: "d1".to_string(), name: "Speakers".to_string() };
    assert_eq!(d.describe(), "ID: d1 - Device Name: Speakers");
}

#[test]
fn timestamp_is_after_the_epoch() {
    assert!(get_timestamp() > 1_600_000_000);
}
