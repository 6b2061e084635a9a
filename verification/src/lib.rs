//! Typed settings content for the editor: the values each settings layer may
//! set, with the rules by which layers are merged.

pub mod jump_label_laws;
pub mod jump_labels;
pub mod merge_from;
pub mod remote;
pub mod settings_content;
pub mod theme;
pub mod values;

pub use jump_labels::{
    default_screen_after, default_screen_before, jump_setting_from_strings, JumpLabelSetting,
    JumpLabelSettingsContent,
};
pub use merge_from::MergeFrom as MergeFromTrait;
pub use remote::{
    DevContainerConnection, RemoteProject, RemoteSettingsContent, SshConnection,
    SshPortForwardOption, WslConnection,
};
pub use settings_content::{
    AudioInputDeviceName, AudioOutputDeviceName, AudioSettingsContent, BaseKeymapContent,
    CallSettingsContent, DebuggerSettingsContent, DockPosition, DockSide,
    FileFinderSettingsContent, FileFinderWidthContent, HourFormat, ImageFileSizeUnit,
    ImageViewerSettingsContent, IncludeIgnoredContent, IndentGuidesSettingsContent,
    InstrumentationSettingsContent, JournalSettingsContent, LineIndicatorFormat,
    MessageEditorSettings, ModeContent, ParseStatus, PerformanceProfilerSettingsContent,
    ProfileBase, ReplSettingsContent, ShowIndentGuides, StatusStyle, SteppingGranularity,
    TelemetrySettingsContent, UseSystemClipboard, VimInsertModeCursorShape,
    WhichKeySettingsContent, FeatureFlagsMap, BASE_KEYMAP_NAMES,
};
pub use theme::AppearanceContent;
pub use values::{DelayMs, ExtendingVec, SaturatingBool};
