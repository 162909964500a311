use std::cell::Cell;

use audio_control::audio::{rejection_error, text_contains};

use audio_control::errors::AudioError;
use audio_control::{
    matching_sessions, set_volume_outcome, ActionSoundRequest, AudioData, AudioModule,
    AudioResponse, AudioSystemInterface, DeviceSound, GroupId, RawSession, SessionState, Volume,
};

/// A backend double that counts its calls.
struct CountingBackend {
    devices_calls: Cell<u32>,
    volume_calls: Cell<u32>,
    session_calls: Cell<u32>,
    set_calls: Cell<u32>,
    enumerations: Cell<u32>,
    mutated: Cell<u32>,
    session_ids: Vec<GroupId>,
    fail_devices: bool,
}

impl CountingBackend {
    fn new(ids: &[&str]) -> Self {
        CountingBackend {
            devices_calls: Cell::new(0),
            volume_calls: Cell::new(0),
            session_calls: Cell::new(0),
            set_calls: Cell::new(0),
            enumerations: Cell::new(0),
            mutated: Cell::new(0),
            session_ids: ids.iter().map(|s| GroupId::new(s.to_string())).collect(),
            fail_devices: false,
        }
    }

    fn calls(&self) -> u32 {
        self.devices_calls.get() + self.volume_calls.get() + self.session_calls.get() + self.set_calls.get()
    }
}

impl AudioSystemInterface for CountingBackend {
    fn list_output_devices(&self) -> Result<Vec<DeviceSound>, AudioError> {
        self.devices_calls.set(self.devices_calls.get() + 1);
        if self.fail_devices {
            return Err(AudioError::WindowsError { detail: "0x8889000A".to_string() });
        }
        Ok(vec![
            DeviceSound { id: "d1".to_string(), name: "Speakers".to_string() },
            DeviceSound { id: "d2".to_string(), name: "Headphones".to_string() },
        ])
    }

    fn get_actual_volume(&self) -> Result<u32, AudioError> {
        self.volume_calls.set(self.volume_calls.get() + 1);
        Ok(5500)
    }

    fn get_sessions_for_device(&self, device_id: &str) -> Result<Vec<RawSession>, AudioError> {
        self.session_calls.set(self.session_calls.get() + 1);
        if device_id != "d1" {
            return Err(AudioError::DeviceNotFound { device_id: device_id.to_string() });
        }
        Ok(self
            .session_ids
            .iter()
            .enumerate()
            .map(|(i, id)| RawSession {
                process_id: Some(100 + i as u32),
                process_path: None,
                grouping_id: id.duplicate(),
                volume: Some(5000),
                muted: false,
                state: SessionState::Active,
                readable: true,
            })
            .collect())
    }

    fn set_group_volume(&self, group_id: &GroupId, device_id: &str, _volume: Volume) -> Result<(), AudioError> {
        self.set_calls.set(self.set_calls.get() + 1);
        if device_id != "d1" {
            return Err(AudioError::DeviceNotFound { device_id: device_id.to_string() });
        }
        self.enumerations.set(self.enumerations.get() + 1);
        let hits = matching_sessions(&self.session_ids, group_id);
        self.mutated.set(self.mutated.get() + hits.len() as u32);
        set_volume_outcome(hits.len())
    }
}

fn set_volume(device: &str, group: &str, volume: i64) -> ActionSoundRequest {
    ActionSoundRequest::SetGroupVolume {
        device_id: device.to_string(),
        group_id: GroupId::new(group.to_string()),
        volume,
    }
}

fn expect_failure(r: AudioResponse) -> audio_control::ErrorResponse {
    match r {
        AudioResponse::Failure(e) => e,
        AudioResponse::Success(s) => panic!("unexpected success {:?}", s),
    }
}

#[test]
fn out_of_range_volume_never_reaches_the_backend() {
    let module = AudioModule::new(CountingBackend::new(&["g1"]));
    for volume in [-10i64, -1, 10001, 150000] {
        let e = expect_failure(module.handle_action(set_volume("d1", "g1", volume)));
        assert_eq!(e.code, 400);
        assert!(e.message.contains("Volume must be between 0.0 and 100.0"));
    }
    assert_eq!(module.audio_system.calls(), 0);
}

#[test]
fn empty_device_id_is_refused_without_backend_call() {
    let module = AudioModule::new(CountingBackend::new(&["g1"]));
    let e = expect_failure(module.handle_action(ActionSoundRequest::SessionList { device_id: String::new() }));
    assert_eq!(e.code, 400);
    assert_eq!(e.message, "Invalid device ID");
    assert_eq!(module.audio_system.calls(), 0);
}

#[test]
fn unknown_group_is_not_found_and_nothing_changes() {
    let module = AudioModule::new(CountingBackend::new(&["g1", "g2"]));
    let e = expect_failure(module.handle_action(set_volume("d1", "g-unknown", 5000)));
    assert_eq!(e.code, 404);
    assert!(e.message.to_lowercase().contains("no sessions found"));
    assert_eq!(module.audio_system.set_calls.get(), 1);
    assert_eq!(module.audio_system.enumerations.get(), 1);
    assert_eq!(module.audio_system.mutated.get(), 0);
}

#[test]
fn valid_group_volume_is_set_once() {
    let module = AudioModule::new(CountingBackend::new(&["g1", "g2", "g1"]));
    for volume in [0i64, 5000, 10000] {
        match module.handle_action(set_volume("d1", "g1", volume)) {
            AudioResponse::Success(s) => match s.data {
                AudioData::Message(m) => assert_eq!(m, "Group volume set successfully"),
                other => panic!("unexpected {:?}", other),
            },
            other => panic!("unexpected {:?}", other),
        }
    }
    assert_eq!(module.audio_system.set_calls.get(), 3);
    assert_eq!(module.audio_system.mutated.get(), 6);
}

#[test]
fn master_volume_is_reported() {
    let module = AudioModule::new(CountingBackend::new(&[]));
    match module.handle_action(ActionSoundRequest::GetVolume) {
        AudioResponse::Success(s) => {
            assert!(matches!(s.data, AudioData::Volume(5500)));
            assert!(s.headers.count.is_none());
            assert!(s.headers.timestamp > 0);
        }
        other => panic!("unexpected {:?}", other),
    }
    assert_eq!(module.audio_system.volume_calls.get(), 1);
}

#[test]
fn device_listing_is_counted() {
    let module = AudioModule::new(CountingBackend::new(&[]));
    match module.handle_action(ActionSoundRequest::DevicesList) {
        AudioResponse::Success(s) => {
            assert_eq!(s.headers.count, Some(2));
            match s.data {
                AudioData::Devices(d) => assert_eq!(d[1].name, "Headphones"),
                other => panic!("unexpected {:?}", other),
            }
        }
        other => panic!("unexpected {:?}", other),
    }
}

#[test]
fn session_listing_is_aggregated() {
    let module = AudioModule::new(CountingBackend::new(&["g1", "g2", "g1"]));
    match module.handle_action(ActionSoundRequest::SessionList { device_id: "d1".to_string() }) {
        AudioResponse::Success(s) => {
            assert_eq!(s.headers.count, Some(2));
            match s.data {
                AudioData::Sessions(g) => {
                    assert_eq!(g.len(), 2);
                    assert!(g.iter().all(|x| x.volume_level == 5000));
                }
                other => panic!("unexpected {:?}", other),
            }
        }
        other => panic!("unexpected {:?}", other),
    }
    assert_eq!(module.audio_system.session_calls.get(), 1);
}

#[test]
fn unknown_device_is_not_found() {
    let module = AudioModule::new(CountingBackend::new(&["g1"]));
    let e = expect_failure(module.handle_action(ActionSoundRequest::SessionList { device_id: "zz".to_string() }));
    assert_eq!(e.code, 404);
    assert_eq!(e.message, "Device not found");
    assert!(e.details.is_none());
}

#[test]
fn backend_failure_hides_its_detail() {
    let mut backend = CountingBackend::new(&[]);
    backend.fail_devices = true;
    let module = AudioModule::new(backend);
    let e = expect_failure(module.handle_action(ActionSoundRequest::DevicesList));
    assert_eq!(e.code, 500);
    assert_eq!(e.message, "Failed to handle audio operation 'list_devices'");
    assert!(e.details.is_none());
}

#[test]
fn matching_positions_are_in_order() {
    let ids: Vec<GroupId> = ["a", "b", "a", "c", "a"].iter().map(|s| GroupId::new(s.to_string())).collect();
    assert_eq!(matching_sessions(&ids, &GroupId::new("a".to_string())), vec![0, 2, 4]);
    assert!(matching_sessions(&ids, &GroupId::new("z".to_string())).is_empty());
    assert!(matches!(set_volume_outcome(0), Err(AudioError::NoSessionsFound)));
    assert!(set_volume_outcome(3).is_ok());
}

#[test]
fn master_volume_level_defaults_to_zero() {
    assert_eq!(audio_control::audio::master_volume_level(None), 0);
    assert_eq!(audio_control::audio::master_volume_level(Some(4200)), 4200);
}

#[test]
fn rejected_body_keeps_the_range_message() {
    match rejection_error("Failed to deserialize: Volume must be between 0.0 and 100.0 at line 1") {
        AudioError::InvalidRequestBody { message } => assert_eq!(message, "Volume must be between 0.0 and 100.0"),
        other => panic!("unexpected {:?}", other),
    }
    match rejection_error("missing field `volume`") {
        AudioError::InvalidRequestBody { message } => {
            assert_eq!(message, "Invalid request body: missing field `volume`")
        }
        other => panic!("unexpected {:?}", other),
    }
    assert!(text_contains("abcabd", "abd"));
    assert!(text_contains("abc", ""));
    assert!(!text_contains("ab", "abc"));
    assert!(!text_contains("aXbc", "abc"));
}
