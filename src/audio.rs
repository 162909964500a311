//! The audio module: validates actions, makes at most one backend call for
//! each, and turns what the backend returned into a response.
use crate::error_codes::{BAD_REQUEST, INTERNAL_ERROR, NOT_FOUND};
use crate::errors::{details_spec, error_response_from_anyhow, kind_code, AudioError, ErrorResponse};
use crate::group_id::GroupId;
use crate::response::{get_timestamp, ApiResponse};
use crate::session::{aggregate_sessions, is_aggregate, RawSession, SessionGroup};
use crate::volume::{volume_in_range, volume_range_message, Volume};
use vstd::prelude::*;
use vstd::string::StringExecFns;

verus! {

/// An audio output device.
#[derive(Debug, Clone)]
pub struct DeviceSound {
    /// The backend's stable id of the endpoint.
    pub id: String,
    /// The display name of the endpoint.
    pub name: String,
}

impl DeviceSound {
    /// One line that names the device.
    pub fn describe(&self) -> (r: String)
        ensures
            r@ == "ID: "@ + self.id@ + " - Device Name: "@ + self.name@,
    {
        String::from_str("ID: ").concat(self.id.as_str()).concat(" - Device Name: ").concat(
            self.name.as_str(),
        )
    }
}

/// An action that a client asks of the audio module.
#[derive(Debug)]
pub enum ActionSoundRequest {
    GetVolume,
    DevicesList,
    SessionList { device_id: String },
    /// `volume` is in hundredths of a percent, as the client sent it.
    SetGroupVolume { device_id: String, group_id: GroupId, volume: i64 },
}

/// The single backend call that a valid action makes.
#[derive(Debug)]
pub enum BackendCall {
    GetMasterVolume,
    ListOutputDevices,
    ListSessions { device_id: String },
    SetGroupVolume { device_id: String, group_id: GroupId, volume: Volume },
}

/// Whether an action passes validation: a session listing needs a device
/// id, and a volume must lie in the valid range.
pub open spec fn action_is_valid(action: ActionSoundRequest) -> bool {
    match action {
        ActionSoundRequest::SessionList { device_id } => device_id@.len() > 0,
        ActionSoundRequest::SetGroupVolume { volume, .. } => volume_in_range(volume),
        _ => true,
    }
}

/// The message with which an invalid action is refused.
pub open spec fn rejection_message(action: ActionSoundRequest) -> Seq<char> {
    match action {
        ActionSoundRequest::SessionList { .. } => "Invalid device ID"@,
        _ => volume_range_message(),
    }
}

/// The name of the operation that an action performs.
pub open spec fn operation_name(action: ActionSoundRequest) -> Seq<char> {
    match action {
        ActionSoundRequest::GetVolume => "get_volume"@,
        ActionSoundRequest::DevicesList => "list_devices"@,
        ActionSoundRequest::SessionList { .. } => "list_session"@,
        ActionSoundRequest::SetGroupVolume { .. } => "set_group_volume"@,
    }
}

/// Whether `call` is the backend call that the valid `action` asks for.
pub open spec fn call_for(action: ActionSoundRequest, call: BackendCall) -> bool {
    match action {
        ActionSoundRequest::GetVolume => call is GetMasterVolume,
        ActionSoundRequest::DevicesList => call is ListOutputDevices,
        ActionSoundRequest::SessionList { device_id } => call matches BackendCall::ListSessions {
            device_id: d,
        } && d@ == device_id@,
        ActionSoundRequest::SetGroupVolume { device_id, group_id, volume } => call matches BackendCall::SetGroupVolume {
            device_id: d,
            group_id: g,
            volume: v,
        } && d@ == device_id@ && g@ == group_id@ && v.value() == volume,
    }
}

/// Validates an action before any backend call: the backend call that it
/// makes, or the validation error that refuses it.
pub fn plan_action(action: ActionSoundRequest) -> (r: Result<BackendCall, AudioError>)
    ensures
        r is Ok <==> action_is_valid(action),
        r is Ok ==> call_for(action, r->Ok_0),
        action is SessionList && r is Err ==> r->Err_0 is InvalidDeviceId,
        action is SetGroupVolume && r is Err ==> (r->Err_0 matches AudioError::InvalidRequestBody {
            message,
        } && message@ == volume_range_message()),
{
    match action {
        ActionSoundRequest::GetVolume => Ok(BackendCall::GetMasterVolume),
        ActionSoundRequest::DevicesList => Ok(BackendCall::ListOutputDevices),
        ActionSoundRequest::SessionList { device_id } => {
            if device_id.as_str().unicode_len() == 0 {
                Err(AudioError::InvalidDeviceId)
            } else {
                Ok(BackendCall::ListSessions { device_id })
            }
        },
        ActionSoundRequest::SetGroupVolume { device_id, group_id, volume } => {
            match Volume::try_from(volume) {
                Ok(volume) => Ok(BackendCall::SetGroupVolume { device_id, group_id, volume }),
                Err(_) => Err(
                    AudioError::InvalidRequestBody {
                        message: String::from_str("Volume must be between 0.0 and 100.0"),
                    },
                ),
            }
        },
    }
}

/// The message sent to a client for a failed audio operation: not-found and
/// validation failures say what went wrong, anything else only names the
/// operation.
pub open spec fn audio_message(operation: Seq<char>, e: AudioError) -> Seq<char> {
    match e {
        AudioError::DeviceNotFound { .. } => "Device not found"@,
        AudioError::InvalidRequestBody { message } => message@,
        AudioError::InvalidDeviceId => "Invalid device ID"@,
        AudioError::NoSessionsFound => "No sessions found"@,
        _ => "Failed to handle audio operation '"@ + operation + "'"@,
    }
}

/// Whether `r` is the error envelope of failure `e` in `operation`.
pub open spec fn is_error_for(r: ErrorResponse, operation: Seq<char>, e: AudioError) -> bool {
    &&& r.code == kind_code(e.kind_spec())
    &&& r.message@ == audio_message(operation, e)
    &&& r.details is Some == details_spec(e) is Some
    &&& r.details is Some ==> r.details.unwrap()@ == details_spec(e).unwrap()
}

/// The error envelope of a failed audio operation.
pub fn error_response_for(operation: &str, error: &AudioError) -> (r: ErrorResponse)
    ensures
        is_error_for(r, operation@, *error),
{
    let (code, details) = error_response_from_anyhow(error);
    let message = match error {
        AudioError::DeviceNotFound { .. } => String::from_str("Device not found"),
        AudioError::InvalidRequestBody { message } => message.clone(),
        AudioError::InvalidDeviceId => String::from_str("Invalid device ID"),
        AudioError::NoSessionsFound => String::from_str("No sessions found"),
        _ => String::from_str("Failed to handle audio operation '").concat(operation).concat("'"),
    };
    ErrorResponse { code, message, details }
}

/// What a successful audio operation returns.
#[derive(Debug)]
pub enum AudioData {
    /// The master volume in hundredths of a percent.
    Volume(u32),
    Devices(Vec<DeviceSound>),
    Sessions(Vec<SessionGroup>),
    Message(String),
}

/// The outcome of an audio operation.
#[derive(Debug)]
pub enum AudioResponse {
    Success(ApiResponse<AudioData>),
    Failure(ErrorResponse),
}

/// Whether `r` reports failure `e` of `operation`.
pub open spec fn fails_with(r: AudioResponse, operation: Seq<char>, e: AudioError) -> bool {
    r matches AudioResponse::Failure(er) && is_error_for(er, operation, e)
}

/// Whether `r` is the response to the master volume reading `result`.
pub open spec fn is_volume_response(result: Result<u32, AudioError>, timestamp: u64, r: AudioResponse) -> bool {
    &&& (result matches Ok(v) ==> r matches AudioResponse::Success(s) && s.data == AudioData::Volume(
        v,
    ) && s.headers.count is None && s.headers.timestamp == timestamp)
    &&& (result matches Err(e) ==> fails_with(r, "get_volume"@, e))
}

/// The response to a reading of the master volume.
pub fn respond_volume(result: Result<u32, AudioError>, timestamp: u64) -> (r: AudioResponse)
    ensures
        is_volume_response(result, timestamp, r),
{
    match result {
        Ok(v) => AudioResponse::Success(ApiResponse::new(AudioData::Volume(v), None, timestamp)),
        Err(e) => AudioResponse::Failure(error_response_for("get_volume", &e)),
    }
}

/// Whether `r` is the response to the device listing `result`.
pub open spec fn is_devices_response(
    result: Result<Vec<DeviceSound>, AudioError>,
    timestamp: u64,
    r: AudioResponse,
) -> bool {
    &&& (result matches Ok(ds) ==> r matches AudioResponse::Success(s) && s.data matches AudioData::Devices(
        d,
    ) && d@ == ds@ && s.headers.count == Some(ds.len()) && s.headers.timestamp == timestamp)
    &&& (result matches Err(e) ==> fails_with(r, "list_devices"@, e))
}

/// The response to a listing of the output devices, counted.
pub fn respond_devices(result: Result<Vec<DeviceSound>, AudioError>, timestamp: u64) -> (r:
    AudioResponse)
    ensures
        is_devices_response(result, timestamp, r),
{
    match result {
        Ok(ds) => {
            let n = ds.len();
            AudioResponse::Success(ApiResponse::new(AudioData::Devices(ds), Some(n), timestamp))
        },
        Err(e) => AudioResponse::Failure(error_response_for("list_devices", &e)),
    }
}

/// Whether `r` is the response to the session listing `result`: the
/// sessions aggregated into groups, counted.
pub open spec fn is_sessions_response(
    result: Result<Vec<RawSession>, AudioError>,
    timestamp: u64,
    r: AudioResponse,
) -> bool {
    &&& (result matches Ok(raw) ==> r matches AudioResponse::Success(s) && s.data matches AudioData::Sessions(
        g,
    ) && is_aggregate(raw@, g@) && s.headers.count == Some(g.len()) && s.headers.timestamp
        == timestamp)
    &&& (result matches Err(e) ==> fails_with(r, "list_session"@, e))
}

/// The response to a listing of a device's sessions: the sessions
/// aggregated into groups, counted.
pub fn respond_sessions(result: Result<Vec<RawSession>, AudioError>, timestamp: u64) -> (r:
    AudioResponse)
    ensures
        is_sessions_response(result, timestamp, r),
{
    match result {
        Ok(raw) => {
            let groups = aggregate_sessions(&raw);
            let n = groups.len();
            AudioResponse::Success(ApiResponse::new(AudioData::Sessions(groups), Some(n), timestamp))
        },
        Err(e) => AudioResponse::Failure(error_response_for("list_session", &e)),
    }
}

/// The confirmation of a volume change.
pub open spec fn volume_set_message() -> Seq<char> {
    "Group volume set successfully"@
}

/// Whether `r` is the response to the volume change `result`.
pub open spec fn is_set_volume_response(
    result: Result<(), AudioError>,
    timestamp: u64,
    r: AudioResponse,
) -> bool {
    &&& (result is Ok ==> (r matches AudioResponse::Success(s) && s.data matches AudioData::Message(
        m,
    ) && m@ == volume_set_message() && s.headers.count is None && s.headers.timestamp
        == timestamp))
    &&& (result matches Err(e) ==> fails_with(r, "set_group_volume"@, e))
}

/// The response to a change of a group's volume.
pub fn respond_set_group_volume(result: Result<(), AudioError>, timestamp: u64) -> (r:
    AudioResponse)
    ensures
        is_set_volume_response(result, timestamp, r),
{
    match result {
        Ok(()) => AudioResponse::Success(
            ApiResponse::new(
                AudioData::Message(String::from_str("Group volume set successfully")),
                None,
                timestamp,
            ),
        ),
        Err(e) => AudioResponse::Failure(error_response_for("set_group_volume", &e)),
    }
}

/// The operations that the audio module needs from the audio backend. Each
/// call is one attempt; the module never retries.
pub trait AudioSystemInterface {
    /// The active output devices.
    fn list_output_devices(&self) -> Result<Vec<DeviceSound>, AudioError>;

    /// The master volume of the default output device, in hundredths of a
    /// percent.
    fn get_actual_volume(&self) -> Result<u32, AudioError>;

    /// The sessions of an output device, one per process stream.
    fn get_sessions_for_device(&self, device_id: &str) -> Result<Vec<RawSession>, AudioError>;

    /// Sets the volume of every session of the device in the group.
    fn set_group_volume(&self, group_id: &GroupId, device_id: &str, volume: Volume) -> Result<
        (),
        AudioError,
    >;
}

/// Whether `r` is what the responder of a valid `action` gives for some
/// result of its backend call, at some time.
pub open spec fn answers_action(action: ActionSoundRequest, r: AudioResponse) -> bool {
    match action {
        ActionSoundRequest::GetVolume => exists|res: Result<u32, AudioError>, ts: u64|
            is_volume_response(res, ts, r),
        ActionSoundRequest::DevicesList => exists|
            res: Result<Vec<DeviceSound>, AudioError>,
            ts: u64,
        | is_devices_response(res, ts, r),
        ActionSoundRequest::SessionList { .. } => exists|
            res: Result<Vec<RawSession>, AudioError>,
            ts: u64,
        | is_sessions_response(res, ts, r),
        ActionSoundRequest::SetGroupVolume { .. } => exists|res: Result<(), AudioError>, ts: u64|
            is_set_volume_response(res, ts, r),
    }
}

/// The audio module, over a backend.
pub struct AudioModule<S> {
    pub audio_system: S,
}

impl<S: AudioSystemInterface> AudioModule<S> {
    /// The audio module over the given backend.
    pub fn new(audio_system: S) -> (r: AudioModule<S>)
        ensures
            r.audio_system == audio_system,
    {
        AudioModule { audio_system }
    }

    /// Makes one backend call and builds the response from what it returned.
    fn perform(&self, call: BackendCall, Ghost(action): Ghost<ActionSoundRequest>) -> (r:
        AudioResponse)
        requires
            call_for(action, call),
        ensures
            answers_action(action, r),
    {
        match call {
            BackendCall::GetMasterVolume => {
                let result = self.audio_system.get_actual_volume();
                let ghost res = result;
                let ts = get_timestamp();
                let r = respond_volume(result, ts);
                assert(is_volume_response(res, ts, r));
                r
            },
            BackendCall::ListOutputDevices => {
                let result = self.audio_system.list_output_devices();
                let ghost res = result;
                let ts = get_timestamp();
                let r = respond_devices(result, ts);
                assert(is_devices_response(res, ts, r));
                r
            },
            BackendCall::ListSessions { device_id } => {
                let result = self.audio_system.get_sessions_for_device(device_id.as_str());
                let ghost res = result;
                let ts = get_timestamp();
                let r = respond_sessions(result, ts);
                assert(is_sessions_response(res, ts, r));
                r
            },
            BackendCall::SetGroupVolume { device_id, group_id, volume } => {
                let result = self.audio_system.set_group_volume(
                    &group_id,
                    device_id.as_str(),
                    volume,
                );
                let ghost res = result;
                let ts = get_timestamp();
                let r = respond_set_group_volume(result, ts);
                assert(is_set_volume_response(res, ts, r));
                r
            },
        }
    }

    /// Handles one audio action: an invalid action is refused with 400
    /// before the backend is called; a valid one makes exactly one backend
    /// call, and the response reports what that call returned.
    pub fn handle_action(&self, action: ActionSoundRequest) -> (r: AudioResponse)
        ensures
            !action_is_valid(action) ==> (r matches AudioResponse::Failure(e) && e.code
                == BAD_REQUEST && e.message@ == rejection_message(action)),
            action_is_valid(action) ==> answers_action(action, r),
    {
        let ghost a = action;
        let is_listing = match &action {
            ActionSoundRequest::SessionList { .. } => true,
            _ => false,
        };
        match plan_action(action) {
            Ok(call) => self.perform(call, Ghost(a)),
            Err(e) => {
                let operation = if is_listing {
                    "list_session"
                } else {
                    "set_group_volume"
                };
                AudioResponse::Failure(error_response_for(operation, &e))
            },
        }
    }
}

/// Whether `r` lists the positions of the sessions in `ids` whose grouping
/// identity is `target`, in increasing order.
pub open spec fn lists_matches(ids: Seq<GroupId>, target: Seq<char>, r: Seq<usize>) -> bool {
    &&& forall|q: int| 0 <= q < r.len() ==> r[q] < ids.len() && ids[r[q] as int]@ == target
    &&& forall|a: int, b: int| 0 <= a < b < r.len() ==> r[a] < r[b]
    &&& forall|k: int| 0 <= k < ids.len() && ids[k]@ == target ==> r.contains(k as usize)
}

/// The positions of the sessions whose grouping identity is `target`, in
/// increasing order.
pub fn matching_sessions(ids: &Vec<GroupId>, target: &GroupId) -> (r: Vec<usize>)
    ensures
        lists_matches(ids@, target@, r@),
{
    let mut r: Vec<usize> = Vec::new();
    let mut k: usize = 0;
    while k < ids.len()
        invariant
            k <= ids.len(),
            forall|q: int| 0 <= q < r.len() ==> r[q] < k && ids[r[q] as int]@ == target@,
            forall|a: int, b: int| 0 <= a < b < r.len() ==> r[a] < r[b],
            forall|m: int| 0 <= m < k && ids[m]@ == target@ ==> r@.contains(m as usize),
        decreases ids.len() - k,
    {
        if ids[k].same_as(target) {
            let ghost before = r@;
            r.push(k);
            proof {
                assert forall|m: int| 0 <= m < k + 1 && ids[m]@ == target@ implies r@.contains(
                    m as usize,
                ) by {
                    if m < k {
                        let q = choose|q: int| 0 <= q < before.len() && before[q] == m as usize;
                        assert(r@[q] == m as usize);
                    } else {
                        assert(r@[before.len() as int] == m as usize);
                    }
                }
            }
        }
        k = k + 1;
    }
    r
}

/// The outcome of setting a group's volume on `matched` sessions: a group
/// with no session on the device is not found.
pub fn set_volume_outcome(matched: usize) -> (r: Result<(), AudioError>)
    ensures
        r is Ok <==> matched > 0,
        r is Err ==> r->Err_0 is NoSessionsFound,
{
    if matched == 0 {
        Err(AudioError::NoSessionsFound)
    } else {
        Ok(())
    }
}

/// The master volume in hundredths of a percent from the backend's scalar in
/// basis points; zero where the backend reports no number.
pub fn master_volume_level(scalar: Option<u32>) -> (r: u32)
    ensures
        r == match scalar {
            Some(v) => v,
            None => 0,
        },
{
    match scalar {
        Some(v) => v,
        None => 0,
    }
}

/// A group volume outside 0.0 to 100.0 is refused by validation, with the
/// message that names the range, so the backend is never called for it.
pub proof fn lemma_out_of_range_volume_refused(action: ActionSoundRequest)
    requires
        action matches ActionSoundRequest::SetGroupVolume { volume, .. } && !volume_in_range(
            volume,
        ),
    ensures
        !action_is_valid(action),
        rejection_message(action) == volume_range_message(),
{
}

/// Whether `needle` occurs in `hay` at position `i`.
pub open spec fn occurs_at(hay: Seq<char>, needle: Seq<char>, i: int) -> bool {
    0 <= i && i + needle.len() <= hay.len() && hay.subrange(i, i + needle.len()) == needle
}

/// Whether `needle` occurs somewhere in `hay`.
pub open spec fn contains_text(hay: Seq<char>, needle: Seq<char>) -> bool {
    exists|i: int| occurs_at(hay, needle, i)
}

/// Whether `needle` occurs in `hay`.
pub fn text_contains(hay: &str, needle: &str) -> (r: bool)
    ensures
        r == contains_text(hay@, needle@),
{
    let n = hay.unicode_len();
    let m = needle.unicode_len();
    if m > n {
        assert forall|i: int| !occurs_at(hay@, needle@, i) by {}
        return false;
    }
    let mut i: usize = 0;
    while i <= n - m
        invariant
            n == hay@.len(),
            m == needle@.len(),
            m <= n,
            i <= n - m + 1,
            forall|k: int| 0 <= k < i ==> !occurs_at(hay@, needle@, k),
        decreases n - m + 1 - i,
    {
        let mut j: usize = 0;
        while j < m && hay.get_char(i + j) == needle.get_char(j)
            invariant
                n == hay@.len(),
                m == needle@.len(),
                i + m <= n,
                j <= m,
                forall|k: int| 0 <= k < j ==> hay@[i + k] == needle@[k],
            decreases m - j,
        {
            j = j + 1;
        }
        if j == m {
            assert(hay@.subrange(i as int, i + m) =~= needle@);
            assert(occurs_at(hay@, needle@, i as int));
            return true;
        }
        assert(!occurs_at(hay@, needle@, i as int)) by {
            if occurs_at(hay@, needle@, i as int) {
                assert(hay@.subrange(i as int, i + m)[j as int] == needle@[j as int]);
            }
        }
        i = i + 1;
    }
    assert forall|k: int| !occurs_at(hay@, needle@, k) by {
        if 0 <= k < i {
        }
    }
    false
}

/// The validation error for a request body that could not be read: a
/// volume outside the range keeps the message that names the range; any
/// other problem is reported with the body's own explanation.
pub fn rejection_error(body_text: &str) -> (r: AudioError)
    ensures
        r matches AudioError::InvalidRequestBody { message } && (if contains_text(
            body_text@,
            volume_range_message(),
        ) {
            message@ == volume_range_message()
        } else {
            message@ == "Invalid request body: "@ + body_text@
        }),
{
    let range = "Volume must be between 0.0 and 100.0";
    if text_contains(body_text, range) {
        AudioError::InvalidRequestBody { message: String::from_str(range) }
    } else {
        AudioError::InvalidRequestBody {
            message: String::from_str("Invalid request body: ").concat(body_text),
        }
    }
}

/// Where no session of the device belongs to the group, no session is
/// selected for a change, and the outcome is the not-found error, answered
/// with 404 and "No sessions found".
pub proof fn lemma_unknown_group_changes_nothing(
    ids: Seq<GroupId>,
    target: Seq<char>,
    selected: Seq<usize>,
    operation: Seq<char>,
)
    requires
        lists_matches(ids, target, selected),
        forall|k: int| 0 <= k < ids.len() ==> (#[trigger] ids[k])@ != target,
    ensures
        selected.len() == 0,
        kind_code(AudioError::NoSessionsFound.kind_spec()) == NOT_FOUND,
        audio_message(operation, AudioError::NoSessionsFound) == "No sessions found"@,
{
    if selected.len() > 0 {
        assert(ids[selected[0] as int]@ == target);
    }
}

} // verus!
