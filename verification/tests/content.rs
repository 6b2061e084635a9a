use settings_content::{
    AppearanceContent, AudioInputDeviceName, AudioOutputDeviceName, AudioSettingsContent,
    BaseKeymapContent, FeatureFlagsMap, FileFinderWidthContent, HourFormat, ImageFileSizeUnit,
    IncludeIgnoredContent, LineIndicatorFormat, ModeContent, ParseStatus, ProfileBase,
    StatusStyle, TelemetrySettingsContent, BASE_KEYMAP_NAMES,
};
use std::collections::HashMap;

#[test]
fn telemetry_is_on_by_default() {
    let telemetry = TelemetrySettingsContent::default();
    assert_eq!(telemetry.diagnostics, Some(true));
    assert_eq!(telemetry.metrics, Some(true));
}

#[test]
fn enum_defaults() {
    assert_eq!(ProfileBase::default(), ProfileBase::User);
    assert_eq!(BaseKeymapContent::default(), BaseKeymapContent::VSCode);
    assert_eq!(StatusStyle::default(), StatusStyle::Icon);
    assert_eq!(IncludeIgnoredContent::default(), IncludeIgnoredContent::Smart);
    assert_eq!(FileFinderWidthContent::default(), FileFinderWidthContent::Small);
    assert_eq!(ModeContent::default(), ModeContent::Normal);
    assert_eq!(HourFormat::default(), HourFormat::Hour12);
    assert_eq!(LineIndicatorFormat::default(), LineIndicatorFormat::Long);
    assert_eq!(ImageFileSizeUnit::default(), ImageFileSizeUnit::Binary);
}

#[test]
fn base_keymap_names() {
    assert_eq!(BASE_KEYMAP_NAMES.len(), 8);
    assert_eq!(BASE_KEYMAP_NAMES[0], "VSCode");
    assert_eq!(BASE_KEYMAP_NAMES[2], "Sublime Text");
    assert_eq!(BASE_KEYMAP_NAMES[7], "None");
}

#[test]
fn audio_device_names_round_trip() {
    let output = AudioOutputDeviceName::from(Some("speakers".to_string()));
    assert_eq!(output.as_ref(), &Some("speakers".to_string()));
    let input = AudioInputDeviceName::from(None);
    assert_eq!(input.as_ref(), &None);
    let audio = AudioSettingsContent::default();
    assert_eq!(audio.auto_microphone_volume, None);
    assert_eq!(audio.output_audio_device, None);
}

#[test]
fn feature_flags_map_derefs_to_its_map() {
    let mut flags = FeatureFlagsMap::default();
    flags.insert("new-ui".to_string(), "on".to_string());
    assert_eq!(flags.len(), 1);
    assert_eq!(flags.get("new-ui").map(String::as_str), Some("on"));
    assert_eq!(flags.0.len(), 1);
    let mut expected = HashMap::new();
    expected.insert("new-ui".to_string(), "on".to_string());
    assert_eq!(*flags, expected);
}

#[test]
fn parse_status_variants() {
    let failed = ParseStatus::Failed { error: "bad".to_string() };
    assert_ne!(failed, ParseStatus::Success);
    assert_eq!(failed.clone(), failed);
    assert_ne!(ParseStatus::Unchanged, ParseStatus::Success);
}

#[test]
fn appearance_variants() {
    assert_ne!(AppearanceContent::Light, AppearanceContent::Dark);
}
