//! Formats, messages and language.

use audio_mirror::audio::format::{
    native_order, order_of, AudioSpec, ByteOrder, SampleFormat, Speakers,
};
use audio_mirror::audio::message::{all, Kind, Message};
use audio_mirror::audio::{describe, Capture, CaptureState};
use audio_mirror::i18n::Lang;

#[test]
fn channel_counts_round_trip() {
    for n in [1, 2, 3, 4, 5, 6, 8] {
        assert_eq!(Speakers::from_channels(n).channels(), n);
    }
    assert_eq!(Speakers::from_channels(7), Speakers::Unknown);
}

#[test]
fn plane_sizes() {
    let spec = AudioSpec {
        rate: 48_000,
        speakers: Speakers::FivePointOne,
        format: SampleFormat::S16,
    };
    assert_eq!(spec.planes(), 1);
    assert_eq!(spec.plane_frame_bytes(), 12);
    let planar = AudioSpec {
        format: SampleFormat::FloatPlanar,
        ..spec
    };
    assert_eq!(planar.planes(), 6);
    assert_eq!(planar.plane_frame_bytes(), 4);
}

#[test]
fn codes_are_unique() {
    let mut codes: Vec<&str> = all().iter().map(|k| k.code()).collect();
    codes.sort_unstable();
    let count = codes.len();
    codes.dedup();
    assert_eq!(codes.len(), count, "two kinds share a code");
}

#[test]
fn detail_is_appended() {
    assert_eq!(
        Message::from(Kind::SampleSpec).to_string(),
        "Sample spec is not valid"
    );
    assert_eq!(
        Kind::WasapiGetDevice.detail("80070005").to_string(),
        "Failed to get device: 80070005"
    );
    assert_eq!(Kind::System.detail("Accès refusé").to_string(), "Accès refusé");
}

#[test]
fn mod_describes_common_layouts() {
    assert_eq!(describe(48_000, 2), "48 kHz, stereo");
    assert_eq!(describe(44_100, 6), "44.1 kHz, 5.1");
}

#[test]
fn reads_bcp47_and_posix_tags() {
    assert_eq!(Lang::from_tag("fr"), Some(Lang::Fr));
    assert_eq!(Lang::from_tag("fr-CA"), Some(Lang::Fr));
    assert_eq!(Lang::from_tag("fr_FR.UTF-8"), Some(Lang::Fr));
    assert_eq!(Lang::from_tag("FR-be"), Some(Lang::Fr));
    assert_eq!(Lang::from_tag("en-US"), Some(Lang::En));
    assert_eq!(Lang::from_tag("de-DE"), None);
    assert_eq!(Lang::from_tag(""), None);
}

#[test]
fn the_users_languages_are_tried_in_order() {
    let tags = |list: &[&str]| list.iter().map(|t| t.to_string()).collect::<Vec<String>>();
    assert_eq!(Lang::from_tags(&tags(&["de-DE", "fr-FR", "en"])), Lang::Fr);
    assert_eq!(Lang::from_tags(&tags(&["de-DE"])), Lang::En);
    assert_eq!(Lang::from_tags(&tags(&[])), Lang::En);
    assert!(matches!(Lang::detect(), Lang::En | Lang::Fr));
    assert_eq!(Lang::Fr.code(), "fr");
    assert_ne!(Lang::Fr.tray().quit, Lang::En.tray().quit);
    assert!(Lang::Fr.init_script().contains("fr"));
}

#[test]
fn every_kind_has_words() {
    for kind in all() {
        assert!(!kind.code().is_empty());
        assert_eq!(Message::from(kind).code(), kind.code());
        if kind != Kind::System {
            assert_eq!(kind.detail("x").to_string(), format!("{}: x", kind.text()));
        }
    }
}

#[test]
fn the_bytes_of_one_tell_the_order() {
    assert_eq!(order_of([1, 0]), ByteOrder::Little);
    assert_eq!(order_of([0, 1]), ByteOrder::Big);
    assert_eq!(native_order(), order_of(1u16.to_ne_bytes()));
}

#[test]
fn a_capture_stays_open_unless_it_says_otherwise() {
    struct Plain;
    impl Capture for Plain {
        fn state(&self) -> CaptureState {
            CaptureState::Starting
        }
    }
    assert!(!Plain.default_output_changed());
}
