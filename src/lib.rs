//! Request dispatch and audio-session aggregation for a remote audio mixer.
//!
//! The library holds the parts of the server that decide: the error
//! taxonomy and its status codes, validation of audio actions, the reduction
//! of per-process audio sessions into session groups, and the module registry
//! that routes requests to handlers. Transport, JSON and the operating
//! system's audio API stay with the caller.
pub mod audio;
pub mod error_codes;
pub mod errors;
pub mod group_id;
pub mod process_name;
pub mod registry;
pub mod response;
pub mod session;
pub mod text;
pub mod volume;

pub use errors::{error_response_from_anyhow, AudioError, ErrorKind, ErrorResponse};
pub use audio::{
    matching_sessions, set_volume_outcome, ActionSoundRequest, AudioData, AudioModule,
    AudioResponse, AudioSystemInterface, DeviceSound,
};
pub use group_id::{GroupId, Guid};
pub use process_name::extract_simple_name;
pub use registry::{ModuleRegistry, ModuleType, Routing};
pub use response::{create_response, get_timestamp, ApiResponse, ResponseHeaders};
pub use session::{aggregate_sessions, RawSession, SessionGroup, SessionState};
pub use volume::Volume;
