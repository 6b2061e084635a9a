//! Settings content: the typed shape of the settings files, layer by layer.
//!
//! Every field is optional, so that a layer names only what it changes.

use vstd::prelude::*;

use std::collections::HashMap;

verus! {

/// The outcome of reading a settings file.
#[derive(Debug, Clone, PartialEq, Eq)]
pub enum ParseStatus {
    /// Settings were parsed successfully
    Success,
    /// Settings file was not changed, so no parsing was performed
    Unchanged,
    /// Settings failed to parse
    Failed { error: String },
}

/// Configuration of audio in Zed.
#[derive(Clone, PartialEq, Default, Debug)]
pub struct AudioSettingsContent {
    /// Automatically increase or decrease you microphone's volume.
    pub auto_microphone_volume: Option<bool>,
    /// Select specific output audio device.
    pub output_audio_device: Option<AudioOutputDeviceName>,
    /// Select specific input audio device.
    pub input_audio_device: Option<AudioInputDeviceName>,
}

/// The name of an audio output device; `None` selects the system default.
#[derive(Clone, Default, Debug, PartialEq, Eq)]
pub struct AudioOutputDeviceName(pub Option<String>);

impl AsRef<Option<String>> for AudioInputDeviceName {
    fn as_ref(&self) -> (name: &Option<String>)
        ensures
            *name == self.0,
    {
        &self.0
    }
}

impl From<Option<String>> for AudioInputDeviceName {
    fn from(value: Option<String>) -> (device: Self)
        ensures
            device.0 == value,
    {
        Self(value)
    }
}

impl vstd::std_specs::convert::FromSpecImpl<Option<String>> for AudioInputDeviceName {
    open spec fn obeys_from_spec() -> bool {
        true
    }

    open spec fn from_spec(value: Option<String>) -> Self {
        AudioInputDeviceName(value)
    }
}

/// Law: a device name built from an optional name hands that name back, for
/// output and input devices alike.
pub proof fn audio_device_names_round_trip(name: Option<String>)
    ensures
        <AudioOutputDeviceName as vstd::std_specs::convert::FromSpec<Option<String>>>::from_spec(
            name,
        ).0 == name,
        <AudioInputDeviceName as vstd::std_specs::convert::FromSpec<Option<String>>>::from_spec(
            name,
        ).0 == name,
{
}

/// The name of an audio input device; `None` selects the system default.
#[derive(Clone, Default, Debug, PartialEq, Eq)]
pub struct AudioInputDeviceName(pub Option<String>);

impl AsRef<Option<String>> for AudioOutputDeviceName {
    fn as_ref(&self) -> (name: &Option<String>)
        ensures
            *name == self.0,
    {
        &self.0
    }
}

impl From<Option<String>> for AudioOutputDeviceName {
    fn from(value: Option<String>) -> (device: Self)
        ensures
            device.0 == value,
    {
        Self(value)
    }
}

impl vstd::std_specs::convert::FromSpecImpl<Option<String>> for AudioOutputDeviceName {
    open spec fn obeys_from_spec() -> bool {
        true
    }

    open spec fn from_spec(value: Option<String>) -> Self {
        AudioOutputDeviceName(value)
    }
}

/// Configuration for developer-oriented instrumentation tools that collect
/// diagnostic data about a running Zed instance.
#[derive(Clone, Debug, Default, PartialEq)]
pub struct InstrumentationSettingsContent {
    /// Configuration for the performance profiler, accessed via the
    /// `zed: open performance profiler` action.
    pub performance_profiler: Option<PerformanceProfilerSettingsContent>,
}

/// Configuration for the performance profiler which collects timing data
/// for foreground and background executor tasks.
#[derive(Clone, Debug, Default, PartialEq)]
pub struct PerformanceProfilerSettingsContent {
    /// Whether to collect timing data for foreground and background executor
    /// tasks.
    ///
    /// Default: false
    pub enabled: Option<bool>,
}

/// Determines what settings a profile starts from before applying its overrides.
#[derive(Debug, Clone, Copy, PartialEq, Eq)]
pub enum ProfileBase {
    /// Apply profile settings on top of the user's current settings.
    User,
    /// Apply profile settings on top of Zed's default settings, ignoring user customizations.
    Default,
}

impl Default for ProfileBase {
    fn default() -> (base: Self)
        ensures
            base == ProfileBase::User,
    {
        ProfileBase::User
    }
}

/// Base key bindings scheme. Base keymaps can be overridden with user keymaps.
///
/// Default: VSCode
#[derive(Copy, Clone, Debug, PartialEq, Eq)]
pub enum BaseKeymapContent {
    VSCode,
    JetBrains,
    SublimeText,
    Atom,
    TextMate,
    Emacs,
    Cursor,
    /// No base keymap (named `None` in settings files).
    NoKeymap,
}

impl Default for BaseKeymapContent {
    fn default() -> (keymap: Self)
        ensures
            keymap == BaseKeymapContent::VSCode,
    {
        BaseKeymapContent::VSCode
    }
}

/// The names under which the base keymaps are offered, in the order of the
/// variants of [`BaseKeymapContent`].
pub const BASE_KEYMAP_NAMES: [&'static str; 8] = [
    "VSCode",
    "JetBrains",
    "Sublime Text",
    "Atom",
    "TextMate",
    "Emacs",
    "Cursor",
    "None",
];

/// Control what info is collected by Zed.
#[derive(Clone, PartialEq, Eq, Debug)]
pub struct TelemetrySettingsContent {
    /// Send debug info like crash reports.
    ///
    /// Default: true
    pub diagnostics: Option<bool>,
    /// Send anonymized usage data like what languages you're using Zed with.
    ///
    /// Default: true
    pub metrics: Option<bool>,
}

impl Default for TelemetrySettingsContent {
    fn default() -> (telemetry: Self)
        ensures
            telemetry.diagnostics == Some(true),
            telemetry.metrics == Some(true),
    {
        Self { diagnostics: Some(true), metrics: Some(true) }
    }
}

#[derive(Default, Debug, PartialEq, Eq, Clone)]
pub struct DebuggerSettingsContent {
    /// Determines the stepping granularity.
    ///
    /// Default: line
    pub stepping_granularity: Option<SteppingGranularity>,
    /// Whether the breakpoints should be reused across Zed sessions.
    ///
    /// Default: true
    pub save_breakpoints: Option<bool>,
    /// Whether to show the debug button in the status bar.
    ///
    /// Default: true
    pub button: Option<bool>,
    /// Time in milliseconds until timeout error when connecting to a TCP debug adapter
    ///
    /// Default: 2000ms
    pub timeout: Option<u64>,
    /// Whether to log messages between active debug adapters and Zed
    ///
    /// Default: true
    pub log_dap_communications: Option<bool>,
    /// Whether to format dap messages in when adding them to debug adapter logger
    ///
    /// Default: true
    pub format_dap_log_messages: Option<bool>,
    /// The dock position of the debug panel
    ///
    /// Default: Bottom
    pub dock: Option<DockPosition>,
}

/// The granularity of one 'step' in the stepping requests `next`, `stepIn`, `stepOut`, and `stepBack`.
#[derive(PartialEq, Eq, Debug, Hash, Clone, Copy)]
pub enum SteppingGranularity {
    /// The step should allow the program to run until the current statement has finished executing.
    /// The meaning of a statement is determined by the adapter and it may be considered equivalent to a line.
    /// For example 'for(int i = 0; i < 10; i++)' could be considered to have 3 statements 'int i = 0', 'i < 10', and 'i++'.
    Statement,
    /// The step should allow the program to run until the current source line has executed.
    Line,
    /// The step should allow one instruction to execute (e.g. one x86 instruction).
    Instruction,
}

#[derive(Copy, Clone, Debug, PartialEq, Eq)]
pub enum DockPosition {
    Left,
    Bottom,
    Right,
}

/// Configuration of voice calls in Zed.
#[derive(Clone, PartialEq, Default, Debug)]
pub struct CallSettingsContent {
    /// Whether the microphone should be muted when joining a channel or a call.
    ///
    /// Default: false
    pub mute_on_join: Option<bool>,
    /// Whether your current project should be shared when joining an empty channel.
    ///
    /// Default: false
    pub share_on_join: Option<bool>,
}

#[derive(Copy, Clone, Debug, PartialEq, Eq)]
pub enum StatusStyle {
    Icon,
    LabelColor,
}

impl Default for StatusStyle {
    fn default() -> (style: Self)
        ensures
            style == StatusStyle::Icon,
    {
        StatusStyle::Icon
    }
}

#[derive(Clone, Default, Debug, PartialEq)]
pub struct MessageEditorSettings {
    /// Whether to automatically replace emoji shortcodes with emoji characters.
    /// For example: typing `:wave:` gets replaced with `👋`.
    ///
    /// Default: false
    pub auto_replace_emoji_shortcode: Option<bool>,
}

#[derive(Clone, Default, Debug, PartialEq)]
pub struct FileFinderSettingsContent {
    /// Whether to show file icons in the file finder.
    ///
    /// Default: true
    pub file_icons: Option<bool>,
    /// Determines how much space the file finder can take up in relation to the available window width.
    ///
    /// Default: small
    pub modal_max_width: Option<FileFinderWidthContent>,
    /// Determines whether the file finder should skip focus for the active file in search results.
    ///
    /// Default: true
    pub skip_focus_for_active_in_search: Option<bool>,
    /// Whether to use gitignored files when searching.
    /// Only the file Zed had indexed will be used, not necessary all the gitignored files.
    ///
    /// Default: Smart
    pub include_ignored: Option<IncludeIgnoredContent>,
    /// Whether to include text channels in file finder results.
    ///
    /// Default: false
    pub include_channels: Option<bool>,
}

#[derive(Debug, PartialEq, Eq, Clone, Copy)]
pub enum IncludeIgnoredContent {
    /// Use all gitignored files
    All,
    /// Use only the files Zed had indexed
    Indexed,
    /// Be smart and search for ignored when called from a gitignored worktree
    Smart,
}

impl Default for IncludeIgnoredContent {
    fn default() -> (ignored: Self)
        ensures
            ignored == IncludeIgnoredContent::Smart,
    {
        IncludeIgnoredContent::Smart
    }
}

#[derive(Debug, PartialEq, Eq, Clone, Copy)]
pub enum FileFinderWidthContent {
    Small,
    Medium,
    Large,
    XLarge,
    Full,
}

impl Default for FileFinderWidthContent {
    fn default() -> (width: Self)
        ensures
            width == FileFinderWidthContent::Small,
    {
        FileFinderWidthContent::Small
    }
}

#[derive(Copy, Clone, PartialEq, Debug)]
pub enum ModeContent {
    Normal,
    Insert,
}

impl Default for ModeContent {
    fn default() -> (mode: Self)
        ensures
            mode == ModeContent::Normal,
    {
        ModeContent::Normal
    }
}

/// Controls when to use system clipboard.
#[derive(Copy, Clone, Debug, PartialEq, Eq)]
pub enum UseSystemClipboard {
    /// Don't use system clipboard.
    Never,
    /// Use system clipboard.
    Always,
    /// Use system clipboard for yank operations.
    OnYank,
}

#[derive(Copy, Clone, Debug, PartialEq, Eq)]
pub enum VimInsertModeCursorShape {
    /// Inherit cursor shape from the editor's base cursor_shape setting.
    Inherit,
    /// Vertical bar cursor.
    Bar,
    /// Block cursor that surrounds the character.
    Block,
    /// Underline cursor.
    Underline,
    /// Hollow box cursor.
    Hollow,
}

/// Settings specific to journaling
#[derive(Clone, Debug, PartialEq)]
pub struct JournalSettingsContent {
    /// The path of the directory where journal entries are stored.
    ///
    /// Default: `~`
    pub path: Option<String>,
    /// What format to display the hours in.
    ///
    /// Default: hour12
    pub hour_format: Option<HourFormat>,
}

#[derive(Clone, Debug, PartialEq)]
pub enum HourFormat {
    Hour12,
    Hour24,
}

impl Default for HourFormat {
    fn default() -> (format: Self)
        ensures
            format == HourFormat::Hour12,
    {
        HourFormat::Hour12
    }
}

#[derive(Clone, Copy, Debug, PartialEq, Eq)]
pub enum DockSide {
    Left,
    Right,
}

#[derive(Copy, Clone, Debug, PartialEq, Eq)]
pub enum ShowIndentGuides {
    Always,
    Never,
}

#[derive(Copy, Clone, Debug, PartialEq, Eq, Default)]
pub struct IndentGuidesSettingsContent {
    /// When to show the scrollbar in the outline panel.
    pub show: Option<ShowIndentGuides>,
}

#[derive(Clone, Copy, PartialEq, Debug)]
pub enum LineIndicatorFormat {
    Short,
    Long,
}

impl Default for LineIndicatorFormat {
    fn default() -> (format: Self)
        ensures
            format == LineIndicatorFormat::Long,
    {
        LineIndicatorFormat::Long
    }
}

/// The settings for the image viewer.
#[derive(Clone, Debug, Default, PartialEq)]
pub struct ImageViewerSettingsContent {
    /// The unit to use for displaying image file sizes.
    ///
    /// Default: "binary"
    pub unit: Option<ImageFileSizeUnit>,
}

#[derive(Clone, Copy, Debug, PartialEq)]
pub enum ImageFileSizeUnit {
    /// Displays file size in binary units (e.g., KiB, MiB).
    Binary,
    /// Displays file size in decimal units (e.g., KB, MB).
    Decimal,
}

impl Default for ImageFileSizeUnit {
    fn default() -> (unit: Self)
        ensures
            unit == ImageFileSizeUnit::Binary,
    {
        ImageFileSizeUnit::Binary
    }
}

/// Settings for configuring REPL display and behavior.
#[derive(Clone, Debug, PartialEq)]
pub struct ReplSettingsContent {
    /// Maximum number of lines to keep in REPL's scrollback buffer.
    /// Clamped with [4, 256] range.
    ///
    /// Default: 32
    pub max_lines: Option<usize>,
    /// Maximum number of columns to keep in REPL's scrollback buffer.
    /// Clamped with [20, 512] range.
    ///
    /// Default: 128
    pub max_columns: Option<usize>,
    /// Whether to show small single-line outputs inline instead of in a block.
    ///
    /// Default: true
    pub inline_output: Option<bool>,
    /// Maximum number of characters for an output to be shown inline.
    /// Only applies when `inline_output` is true.
    ///
    /// Default: 50
    pub inline_output_max_length: Option<usize>,
    /// Maximum number of lines of output to display before scrolling.
    /// Set to 0 to disable output height limits.
    ///
    /// Default: 0
    pub output_max_height_lines: Option<usize>,
}

/// Settings for configuring the which-key popup behaviour.
#[derive(Clone, Debug, Default, PartialEq)]
pub struct WhichKeySettingsContent {
    /// Whether to show the which-key popup when holding down key combinations
    ///
    /// Default: false
    pub enabled: Option<bool>,
    /// Delay in milliseconds before showing the which-key popup.
    ///
    /// Default: 700
    pub delay_ms: Option<u64>,
}


/// Local overrides for feature flags, keyed by flag name.
#[derive(Debug, Default, Clone, PartialEq, Eq)]
pub struct FeatureFlagsMap(pub HashMap<String, String>);

impl std::ops::Deref for FeatureFlagsMap {
    type Target = HashMap<String, String>;

    fn deref(&self) -> (flags: &Self::Target)
        ensures
            *flags == self.0,
    {
        &self.0
    }
}

impl std::ops::DerefMut for FeatureFlagsMap {
    fn deref_mut(&mut self) -> (flags: &mut Self::Target)
        ensures
            *flags == old(self).0,
            *final(self) == FeatureFlagsMap(*final(flags)),
    {
        &mut self.0
    }
}

} // verus!
