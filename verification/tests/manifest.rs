use std::path::PathBuf;

use starbyte::manifest::{
    AdvancedSettings, AppMode, AssetConfig, CheatSettings, InputDeviceMode, InputSettings, LibrarySettings,
    LibraryViewMode, ProviderSettings, VideoSettings,
};

#[test]
fn asset_config_resolves_default_paths() {
    let config = AssetConfig::default();
    assert_eq!(PathBuf::from(config.cache_root()), PathBuf::from(".cache").join("starbyte"));
    assert_eq!(PathBuf::from(config.config_path()), PathBuf::from(".config").join("starbyte").join("config.toml"));
    assert_eq!(
        PathBuf::from(config.legacy_config_path()),
        PathBuf::from(".cache").join("starbyte").join("config.toml")
    );
}

#[test]
fn configured_cache_dir_takes_precedence() {
    let config = AssetConfig { cache_dir: Some("/tmp/cache".to_owned()), ..AssetConfig::default() };
    assert_eq!(config.cache_root(), "/tmp/cache");
    assert_eq!(config.legacy_config_path(), "/tmp/cache/config.toml");
}

#[test]
fn settings_defaults_match_documented_values() {
    assert_eq!(LibraryViewMode::default(), LibraryViewMode::Grid);
    assert_eq!(InputDeviceMode::default(), InputDeviceMode::Keyboard);
    assert_eq!(AppMode::default(), AppMode::Dev);
    let video = VideoSettings::default();
    assert_eq!(video, VideoSettings { fullscreen: false, integer_scale: true, scale: 3, vsync: true });
    let input = InputSettings::default();
    assert_eq!(input.keyboard_bindings.len(), 12);
    assert!(input.keyboard_bindings.contains(&("start".to_owned(), "Enter".to_owned())));
    assert!(input.gamepad_bindings.contains(&("l".to_owned(), "LeftTrigger".to_owned())));
    assert!(CheatSettings::default().enabled_by_game.is_empty());
    let library = LibrarySettings::default();
    assert!(library.rom_dirs.is_empty());
    assert_eq!(library.active_view, LibraryViewMode::Grid);
    let advanced = AdvancedSettings::default();
    assert!(advanced.show_missing_games);
    assert!(!advanced.refresh_on_startup);
    assert!(ProviderSettings::default().cover_index_url.starts_with("https://raw.githubusercontent.com/"));
}
