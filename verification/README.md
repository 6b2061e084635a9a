# settings_content

The typed content of the editor's settings files, verified with Verus.

- `src/values.rs`: setting values with their own merge rules (`ExtendingVec`,
  `SaturatingBool`) and `DelayMs`, whose text form is proved to be its decimal
  number followed by `ms`.
- `src/merge_from.rs`: the `MergeFrom` trait, whose contract says what merging
  a later settings layer gives.
- `src/jump_labels.rs`: the built-in jump labels, built from a one-handed
  keyboard rule; `src/jump_label_laws.rs` proves that no label is a prefix of
  another, that the two lists have 2372 labels each, and that they share no key.
- `src/settings_content.rs`, `src/remote.rs`, `src/theme.rs`: the settings
  structures and enums, with their defaults stated in contracts.
- `app/`: the serialization copies of these types (serde, schemars, strum),
  with conversions to and from the library's types.

Items of the settings content that are not here, and why:

- `SettingsContent`, `UserSettingsContent`, `SettingsProfile`,
  `ExtensionsSettingsContent`, `VimSettingsContent`, `ScrollbarSettings`,
  `CursorShapeSettings`, `languages_mut`, and the per-channel and per-platform
  override structs: their fields have types from the project, editor and
  language settings modules, whose sources are not part of this crate.
- `RootUserSettings` and its `parse_json` / `parse_json_with_comments`: they
  parse through the `settings_json` crate and the fallible-options helpers,
  which are not available here.
- `GitPanelSettingsContent`, `OutlinePanelSettingsContent`: they hold floats
  and types of the missing modules. `PanelSettingsContent` holds a float, so
  only `app/` has it.
- `try_parse_color`: it parses through `gpui`, which is not available, and
  returns floating-point colors.
- The merge behaviour that the settings structures derive field by field: the
  derive macro's source is not available, so only `ExtendingVec` and
  `SaturatingBool` implement `MergeFrom`.
