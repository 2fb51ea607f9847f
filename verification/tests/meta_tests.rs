use datamosh::meta::{
    track_settings, ContainerMeta, MediaSettings, MoshError, SourceTrack, TrackKind, CODE_AVC1,
    CODE_HEV1, CODE_MP4A, CODE_TX3G, CODE_VP09,
};

fn source_track(kind_code: u32) -> SourceTrack {
    SourceTrack {
        kind_code,
        width: 1920,
        height: 1080,
        seq_param_set: vec![0x67, 0x64, 0x00, 0x1f],
        pic_param_set: vec![0x68, 0xee, 0x3c, 0x80],
        bitrate: 128_000,
        audio_profile: 2,
        freq_index: 4,
        chan_conf: 2,
        timescale: 90_000,
        language: String::from("und"),
        sample_count: 42,
    }
}

#[test]
fn container_meta_is_copied_field_for_field() {
    let m = ContainerMeta::new(0x69736f6d, 512, vec![0x69736f6d, 0x61766331], 1000);
    assert_eq!(m.major_brand, 0x69736f6d);
    assert_eq!(m.minor_version, 512);
    assert_eq!(m.compatible_brands, vec![0x69736f6d, 0x61766331]);
    assert_eq!(m.timescale, 1000);
}

#[test]
fn avc_track_keeps_configuration() {
    let settings = track_settings(source_track(CODE_AVC1)).unwrap();
    assert_eq!(settings.kind, TrackKind::Avc);
    assert_eq!(settings.timescale, 90_000);
    assert_eq!(settings.language, "und");
    match settings.media {
        MediaSettings::Avc { width, height, seq_param_set, pic_param_set } => {
            assert_eq!(width, 1920);
            assert_eq!(height, 1080);
            assert_eq!(seq_param_set, vec![0x67, 0x64, 0x00, 0x1f]);
            assert_eq!(pic_param_set, vec![0x68, 0xee, 0x3c, 0x80]);
        }
        _ => panic!("wrong media settings variant"),
    }
}

#[test]
fn hevc_track_keeps_dimensions() {
    let settings = track_settings(source_track(CODE_HEV1)).unwrap();
    assert_eq!(settings.kind, TrackKind::Hevc);
    match settings.media {
        MediaSettings::Hevc { width, height } => {
            assert_eq!(width, 1920);
            assert_eq!(height, 1080);
        }
        _ => panic!("wrong media settings variant"),
    }
}

#[test]
fn vp9_track_keeps_dimensions() {
    let settings = track_settings(source_track(CODE_VP09)).unwrap();
    assert_eq!(settings.kind, TrackKind::Vp9);
    match settings.media {
        MediaSettings::Vp9 { width, height } => {
            assert_eq!(width, 1920);
            assert_eq!(height, 1080);
        }
        _ => panic!("wrong media settings variant"),
    }
}

#[test]
fn aac_track_keeps_audio_configuration() {
    let settings = track_settings(source_track(CODE_MP4A)).unwrap();
    assert_eq!(settings.kind, TrackKind::Aac);
    match settings.media {
        MediaSettings::Aac { bitrate, profile, freq_index, chan_conf } => {
            assert_eq!(bitrate, 128_000);
            assert_eq!(profile, 2);
            assert_eq!(freq_index, 4);
            assert_eq!(chan_conf, 2);
        }
        _ => panic!("wrong media settings variant"),
    }
}

#[test]
fn timed_text_track_has_no_payload() {
    let settings = track_settings(source_track(CODE_TX3G)).unwrap();
    assert_eq!(settings.kind, TrackKind::Ttxt);
    assert!(matches!(settings.media, MediaSettings::Ttxt));
}

#[test]
fn unknown_track_kind_is_rejected() {
    // "fLaC", a kind outside the closed set: the translation fails, which
    // aborts the run before any sample is written.
    let err = track_settings(source_track(0x664c_6143)).unwrap_err();
    assert_eq!(err, MoshError::UnsupportedTrackKind);
}
