use audio_control::registry::{handler_failure, invalid_request_format, parse_failure};
use audio_control::{ModuleRegistry, ModuleType, Routing};

fn registry() -> ModuleRegistry<&'static str> {
    let mut r = ModuleRegistry::new();
    r.register("Audio", "audio handler");
    r
}

#[test]
fn module_names_are_case_insensitive() {
    let r = registry();
    assert!(r.has_module("audio"));
    assert!(r.has_module("AUDIO"));
    assert!(!r.has_module("display"));
    match r.handle("AuDiO", Some("{\"action\":\"get_volume\"}".to_string())) {
        Routing::Forward { index, payload } => {
            assert_eq!(*r.handler(index), "audio handler");
            assert_eq!(payload, "{\"action\":\"get_volume\"}");
        }
        other => panic!("unexpected {:?}", other),
    }
}

#[test]
fn registering_again_replaces_the_handler() {
    let mut r = registry();
    r.register("AUDIO", "second");
    match r.handle("audio", Some("{}".to_string())) {
        Routing::Forward { index, .. } => assert_eq!(*r.handler(index), "second"),
        other => panic!("unexpected {:?}", other),
    }
}

#[test]
fn unregistered_module_is_not_found_whatever_the_payload() {
    let r = registry();
    for payload in ["", "{}", "{ invalid json", "{\"action\":\"get_volume\"}"] {
        match r.handle("display", Some(payload.to_string())) {
            Routing::Respond(e) => {
                assert_eq!(e.code, 404);
                assert_eq!(e.message, "Resource not found");
                assert!(e.details.is_none());
            }
            other => panic!("unexpected {:?}", other),
        }
    }
    let empty: ModuleRegistry<u8> = ModuleRegistry::new();
    assert!(matches!(empty.handle("audio", Some("{}".to_string())), Routing::Respond(e) if e.code == 404));
}

#[test]
fn missing_payload_is_refused_before_lookup() {
    let r = registry();
    for module in ["audio", "display", "unknown"] {
        match r.handle(module, None) {
            Routing::Respond(e) => {
                assert_eq!(e.code, 400);
                assert!(e.message.contains("Payload is missing"));
            }
            other => panic!("unexpected {:?}", other),
        }
    }
}

#[test]
fn dispatcher_error_envelopes() {
    let e = parse_failure("audio", "missing field `action`");
    assert_eq!(e.code, 400);
    assert_eq!(e.message, "Failed to parse audio request: missing field `action`");
    let e = handler_failure("audio");
    assert_eq!(e.code, 500);
    assert_eq!(e.message, "Failed to handle request for module 'audio'");
    assert!(e.details.is_none());
    let e = invalid_request_format();
    assert_eq!(e.code, 400);
    assert_eq!(e.message, "Invalid request format");
}

#[test]
fn module_names_on_the_wire() {
    assert_eq!(ModuleType::Audio.as_str(), "audio");
    assert_eq!(ModuleType::Display.as_str(), "display");
    assert_eq!(ModuleType::Network.as_str(), "network");
}
