//! The support probe for the recordings interface: which recording
//! capabilities a device's parameter values announce.

use crate::bytes::{bytes_cmp, compare_bytes, parse_u32, parse_u32_exec};
use vstd::prelude::*;

verus! {

/// The recording capabilities a device announces.
#[derive(Debug, Copy, Clone, PartialEq, Eq, Structural)]
pub struct RecordingsSupport {
    /// Continuous recording is available, with at least one profile.
    pub supports_continuous_recording: bool,
    /// Recordings can be played back over RTSP.
    pub supports_playback_over_rtsp: bool,
    /// Recordings can be exported.
    pub supports_exporting: bool,
}

/// The bytes of `"3"`.
pub const HTTP_VERSION_3: [u8; 1] = [51];

/// The bytes of `"yes"`.
pub const YES: [u8; 3] = [121, 101, 115];

/// The bytes of `"2.01"`, the first RTSP API version with playback.
pub const RTSP_PLAYBACK_VERSION: [u8; 4] = [50, 46, 48, 49];

/// Whether an optional parameter value equals the given literal.
pub open spec fn opt_is(v: Option<Seq<u8>>, lit: Seq<u8>) -> bool {
    v matches Some(s) && s == lit
}

/// The recording capabilities the given parameter values announce, or
/// nothing when the recordings interface is absent. The interface exists
/// exactly when the HTTP API version is `3` and local storage is `yes`;
/// continuous recording needs `yes` and a positive profile count, playback
/// needs an RTSP API version of at least `2.01` (ordered as version strings
/// compare lexicographically), and exporting needs `yes`.
pub open spec fn recordings_support_spec(
    http_version: Option<Seq<u8>>,
    local_storage: Option<Seq<u8>>,
    continuous: Option<Seq<u8>>,
    profiles: Option<Seq<u8>>,
    rtsp_version: Option<Seq<u8>>,
    export: Option<Seq<u8>>,
) -> Option<RecordingsSupport> {
    if !opt_is(http_version, HTTP_VERSION_3@) || !opt_is(local_storage, YES@) {
        None
    } else {
        Some(
            RecordingsSupport {
                supports_continuous_recording: opt_is(continuous, YES@) && (match profiles {
                    Some(p) => match parse_u32(p) {
                        Some(n) => n > 0,
                        None => false,
                    },
                    None => false,
                }),
                supports_playback_over_rtsp: match rtsp_version {
                    Some(v) => bytes_cmp(v, RTSP_PLAYBACK_VERSION@) != core::cmp::Ordering::Less,
                    None => false,
                },
                supports_exporting: opt_is(export, YES@),
            },
        )
    }
}

/// Whether an optional parameter value equals the given literal.
fn opt_is_exec(v: Option<&[u8]>, lit: &[u8]) -> (r: bool)
    ensures
        r == opt_is(
            match v {
                Some(s) => Some(s@),
                None => None,
            },
            lit@,
        ),
{
    match v {
        Some(s) => {
            if s.len() != lit.len() {
                return false;
            }
            let r = crate::bytes::eq_at(s, 0, lit);
            proof {
                assert(s@.subrange(0, lit@.len() as int) =~= s@);
            }
            r
        },
        None => false,
    }
}

/// Decide the recording capabilities from the device's parameter values:
/// `Properties.API.HTTP.Version`, `Properties.LocalStorage.LocalStorage`,
/// `Properties.LocalStorage.ContinuousRecording`,
/// `Properties.LocalStorage.ContinuousRecordingProfiles`,
/// `Properties.API.RTSP.Version` and
/// `Properties.LocalStorage.ExportRecording`, each absent when the device
/// did not report it.
pub fn recordings_support(
    http_version: Option<&[u8]>,
    local_storage: Option<&[u8]>,
    continuous: Option<&[u8]>,
    profiles: Option<&[u8]>,
    rtsp_version: Option<&[u8]>,
    export: Option<&[u8]>,
) -> (r: Option<RecordingsSupport>)
    ensures
        r == recordings_support_spec(
            match http_version {
                Some(s) => Some(s@),
                None => None,
            },
            match local_storage {
                Some(s) => Some(s@),
                None => None,
            },
            match continuous {
                Some(s) => Some(s@),
                None => None,
            },
            match profiles {
                Some(s) => Some(s@),
                None => None,
            },
            match rtsp_version {
                Some(s) => Some(s@),
                None => None,
            },
            match export {
                Some(s) => Some(s@),
                None => None,
            },
        ),
{
    if !opt_is_exec(http_version, HTTP_VERSION_3.as_slice()) || !opt_is_exec(
        local_storage,
        YES.as_slice(),
    ) {
        return None;
    }
    let profile_count_positive = match profiles {
        Some(p) => {
            proof {
                assert(p@.subrange(0, p@.len() as int) =~= p@);
            }
            match parse_u32_exec(p, 0, p.len()) {
                Some(n) => n > 0,
                None => false,
            }
        },
        None => false,
    };
    let playback = match rtsp_version {
        Some(v) => {
            match compare_bytes(v, RTSP_PLAYBACK_VERSION.as_slice()) {
                core::cmp::Ordering::Less => false,
                _ => true,
            }
        },
        None => false,
    };
    Some(
        RecordingsSupport {
            supports_continuous_recording: opt_is_exec(continuous, YES.as_slice())
                && profile_count_positive,
            supports_playback_over_rtsp: playback,
            supports_exporting: opt_is_exec(export, YES.as_slice()),
        },
    )
}

} // verus!
