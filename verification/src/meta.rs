//! The container and track metadata that a remux carries over unchanged,
//! and the translation of a source track's raw description into the
//! destination track's settings.

use vstd::prelude::*;

verus! {

/// Global container metadata, read once from the source and copied
/// verbatim into the destination. Brand tags are four-character codes
/// packed big-endian into a `u32`.
pub struct ContainerMeta {
    pub major_brand: u32,
    pub minor_version: u32,
    pub compatible_brands: Vec<u32>,
    pub timescale: u32,
}

impl ContainerMeta {
    /// Builds the metadata record; every field equals its argument, so a
    /// destination opened with the result carries the source's identity
    /// fields unchanged.
    pub fn new(major_brand: u32, minor_version: u32, compatible_brands: Vec<u32>, timescale: u32)
        -> (m: ContainerMeta)
        ensures
            m.major_brand == major_brand,
            m.minor_version == minor_version,
            m.compatible_brands == compatible_brands,
            m.timescale == timescale,
    {
        ContainerMeta { major_brand, minor_version, compatible_brands, timescale }
    }
}

/// The sample-entry code of an AVC video track, packed big-endian.
pub const CODE_AVC1: u32 = 0x6176_6331;

/// The sample-entry code of an HEVC video track, packed big-endian.
pub const CODE_HEV1: u32 = 0x6865_7631;

/// The sample-entry code of a VP9 video track, packed big-endian.
pub const CODE_VP09: u32 = 0x7670_3039;

/// The sample-entry code of an AAC audio track, packed big-endian.
pub const CODE_MP4A: u32 = 0x6d70_3461;

/// The sample-entry code of a timed-text track, packed big-endian.
pub const CODE_TX3G: u32 = 0x7478_3367;

/// The closed set of track kinds the remux supports.
#[derive(Clone, Copy, PartialEq, Eq, Structural, Debug)]
pub enum TrackKind {
    Avc,
    Hevc,
    Vp9,
    Aac,
    Ttxt,
}

/// The per-kind codec configuration a destination track is declared with.
/// The payloads are opaque to the shuffler: they are copied from the
/// source without interpretation.
///
/// The HEVC and VP9 kinds carry dimensions only; their parameter-set
/// bytes are not modeled, a known gap kept as it stands rather than
/// silently widened.
#[derive(Debug)]
pub enum MediaSettings {
    Avc { width: u16, height: u16, seq_param_set: Vec<u8>, pic_param_set: Vec<u8> },
    Hevc { width: u16, height: u16 },
    Vp9 { width: u16, height: u16 },
    Aac { bitrate: u32, profile: u8, freq_index: u8, chan_conf: u8 },
    Ttxt,
}

/// The settings a destination track is declared with: the same kind, time
/// scale, language and codec configuration as its source track.
#[derive(Debug)]
pub struct TrackSettings {
    pub kind: TrackKind,
    pub timescale: u32,
    pub language: String,
    pub media: MediaSettings,
}

/// A source track as the container reader describes it: the raw
/// sample-entry code plus every field a supported kind may need. Fields
/// that the track's kind does not use are ignored by the translation.
pub struct SourceTrack {
    pub kind_code: u32,
    pub width: u16,
    pub height: u16,
    pub seq_param_set: Vec<u8>,
    pub pic_param_set: Vec<u8>,
    pub bitrate: u32,
    pub audio_profile: u8,
    pub freq_index: u8,
    pub chan_conf: u8,
    pub timescale: u32,
    pub language: String,
    pub sample_count: u32,
}

/// Why a run aborts. Every error is fatal: no partial output is attempted.
#[derive(Clone, Copy, PartialEq, Eq, Structural, Debug)]
pub enum MoshError {
    /// The source's structural metadata cannot be parsed.
    MalformedContainer,
    /// A source track's codec kind lies outside the supported closed set.
    UnsupportedTrackKind,
    /// An underlying read, write or flush failed.
    IoFailure,
    /// An index handed to the reader exceeded the reported sample count:
    /// an internal logic defect, never a user-facing condition.
    ReaderWriterContractViolation,
}

/// Whether a sample-entry code belongs to the supported closed set.
pub open spec fn is_supported_code(code: u32) -> bool {
    ||| code == CODE_AVC1
    ||| code == CODE_HEV1
    ||| code == CODE_VP09
    ||| code == CODE_MP4A
    ||| code == CODE_TX3G
}

/// The track kind a supported sample-entry code names.
pub open spec fn kind_of_code(code: u32) -> TrackKind
    recommends
        is_supported_code(code),
{
    if code == CODE_AVC1 {
        TrackKind::Avc
    } else if code == CODE_HEV1 {
        TrackKind::Hevc
    } else if code == CODE_VP09 {
        TrackKind::Vp9
    } else if code == CODE_MP4A {
        TrackKind::Aac
    } else {
        TrackKind::Ttxt
    }
}

/// The codec configuration carried over for a supported source track:
/// exactly the source's own fields for that kind, nothing recomputed.
pub open spec fn media_of_source(t: SourceTrack) -> MediaSettings
    recommends
        is_supported_code(t.kind_code),
{
    if t.kind_code == CODE_AVC1 {
        MediaSettings::Avc {
            width: t.width,
            height: t.height,
            seq_param_set: t.seq_param_set,
            pic_param_set: t.pic_param_set,
        }
    } else if t.kind_code == CODE_HEV1 {
        MediaSettings::Hevc { width: t.width, height: t.height }
    } else if t.kind_code == CODE_VP09 {
        MediaSettings::Vp9 { width: t.width, height: t.height }
    } else if t.kind_code == CODE_MP4A {
        MediaSettings::Aac {
            bitrate: t.bitrate,
            profile: t.audio_profile,
            freq_index: t.freq_index,
            chan_conf: t.chan_conf,
        }
    } else {
        MediaSettings::Ttxt
    }
}

/// Translates a source track's raw description into the settings its
/// destination track is declared with. Succeeds exactly on the supported
/// kinds, and then copies kind, time scale, language and codec
/// configuration field for field; any other kind is rejected, which
/// aborts the whole run before a sample is written.
pub fn track_settings(src: SourceTrack) -> (r: Result<TrackSettings, MoshError>)
    ensures
        is_supported_code(src.kind_code) ==> r == Ok::<TrackSettings, MoshError>(
            (TrackSettings {
                kind: kind_of_code(src.kind_code),
                timescale: src.timescale,
                language: src.language,
                media: media_of_source(src),
            }),
        ),
        !is_supported_code(src.kind_code) ==> r == Err::<TrackSettings, MoshError>(
            MoshError::UnsupportedTrackKind,
        ),
{
    let timescale = src.timescale;
    if src.kind_code == CODE_AVC1 {
        Ok(
            TrackSettings {
                kind: TrackKind::Avc,
                timescale,
                language: src.language,
                media: MediaSettings::Avc {
                    width: src.width,
                    height: src.height,
                    seq_param_set: src.seq_param_set,
                    pic_param_set: src.pic_param_set,
                },
            },
        )
    } else if src.kind_code == CODE_HEV1 {
        Ok(
            TrackSettings {
                kind: TrackKind::Hevc,
                timescale,
                language: src.language,
                media: MediaSettings::Hevc { width: src.width, height: src.height },
            },
        )
    } else if src.kind_code == CODE_VP09 {
        Ok(
            TrackSettings {
                kind: TrackKind::Vp9,
                timescale,
                language: src.language,
                media: MediaSettings::Vp9 { width: src.width, height: src.height },
            },
        )
    } else if src.kind_code == CODE_MP4A {
        Ok(
            TrackSettings {
                kind: TrackKind::Aac,
                timescale,
                language: src.language,
                media: MediaSettings::Aac {
                    bitrate: src.bitrate,
                    profile: src.audio_profile,
                    freq_index: src.freq_index,
                    chan_conf: src.chan_conf,
                },
            },
        )
    } else if src.kind_code == CODE_TX3G {
        Ok(
            TrackSettings {
                kind: TrackKind::Ttxt,
                timescale,
                language: src.language,
                media: MediaSettings::Ttxt,
            },
        )
    } else {
        Err(MoshError::UnsupportedTrackKind)
    }
}

} // verus!
