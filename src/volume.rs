//! The volume that a session group can be set to.
use vstd::prelude::*;

verus! {

/// The highest volume, in hundredths of a percent: 100.0 %.
pub const VOLUME_MAX: u32 = 10000;

/// The message with which the audio module refuses a volume outside the
/// valid range.
pub open spec fn volume_range_message() -> Seq<char> {
    "Volume must be between 0.0 and 100.0"@
}

/// The reason a volume outside the valid range cannot be built.
pub open spec fn volume_error_text() -> Seq<char> {
    "volume must be between 0.0 and 100.0"@
}

/// Whether a volume in hundredths of a percent lies in the closed range
/// 0.0 to 100.0.
pub open spec fn volume_in_range(hundredths: i64) -> bool {
    0 <= hundredths <= VOLUME_MAX
}

/// A volume level between 0.0 % and 100.0 %, held in hundredths of a
/// percent, which are also basis points of the backend's scalar scale.
#[derive(Debug, Clone, Copy)]
pub struct Volume {
    hundredths: u32,
}

impl Volume {
    #[verifier::type_invariant]
    spec fn in_range(&self) -> bool {
        self.hundredths <= VOLUME_MAX
    }

    /// The level in hundredths of a percent.
    pub closed spec fn value(&self) -> nat {
        self.hundredths as nat
    }

    /// A volume, where `hundredths` lies in the valid range; else the
    /// reason that names the range.
    pub fn try_from(hundredths: i64) -> (r: Result<Volume, &'static str>)
        ensures
            volume_in_range(hundredths) <==> r is Ok,
            r is Ok ==> r->Ok_0.value() == hundredths,
            r is Err ==> r->Err_0@ == volume_error_text(),
    {
        if 0 <= hundredths && hundredths <= VOLUME_MAX as i64 {
            Ok(Volume { hundredths: hundredths as u32 })
        } else {
            Err("volume must be between 0.0 and 100.0")
        }
    }

    /// The level in hundredths of a percent.
    pub fn hundredths(&self) -> (r: u32)
        ensures
            r == self.value(),
            r <= VOLUME_MAX,
    {
        proof {
            use_type_invariant(self);
        }
        self.hundredths
    }
}

} // verus!
