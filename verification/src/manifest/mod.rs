//! Asset path manifest and persisted setting types.
use vstd::prelude::*;

use crate::paths::{join_path, spec_join};

verus! {

/// Host asset locations resolved by the CLI or frontends.
#[derive(Debug, PartialEq, Eq)]
pub struct AssetConfig {
    /// Optional SPC700 IPL ROM location.
    pub spc700_ipl: Option<String>,
    /// Optional base directory for saves.
    pub save_dir: Option<String>,
    /// Optional base directory for save states.
    pub state_dir: Option<String>,
    /// Optional base directory for cached metadata, covers, and cheats.
    pub cache_dir: Option<String>,
    /// Optional runtime configuration path.
    pub config_path: Option<String>,
}

fn clone_path(p: &Option<String>) -> (c: Option<String>)
    ensures
        c == *p,
{
    match p {
        Some(t) => Some(t.clone()),
        None => None,
    }
}

impl Clone for AssetConfig {
    fn clone(&self) -> (c: Self)
        ensures
            c == *self,
    {
        AssetConfig {
            spc700_ipl: clone_path(&self.spc700_ipl),
            save_dir: clone_path(&self.save_dir),
            state_dir: clone_path(&self.state_dir),
            cache_dir: clone_path(&self.cache_dir),
            config_path: clone_path(&self.config_path),
        }
    }
}

impl Default for AssetConfig {
    fn default() -> (c: Self)
        ensures
            c.spc700_ipl is None,
            c.save_dir is None,
            c.state_dir is None,
            c.cache_dir is None,
            c.config_path is None,
    {
        AssetConfig { spc700_ipl: None, save_dir: None, state_dir: None, cache_dir: None, config_path: None }
    }
}

/// The cache root used when none is configured: `.cache/starbyte`.
pub open spec fn default_cache_root() -> Seq<char> {
    spec_join(".cache"@, "starbyte"@)
}

/// The configuration path used when none is configured: `.config/starbyte/config.toml`.
pub open spec fn default_config_path() -> Seq<char> {
    spec_join(spec_join(".config"@, "starbyte"@), "config.toml"@)
}

fn copy_string(s: &String) -> (c: String)
    ensures
        c@ == s@,
{
    s.clone()
}

impl AssetConfig {
    /// The effective cache root for frontend/library data.
    pub open spec fn spec_cache_root(&self) -> Seq<char> {
        match self.cache_dir {
            Some(dir) => dir@,
            None => default_cache_root(),
        }
    }

    /// Resolve the effective cache root for frontend/library data.
    pub fn cache_root(&self) -> (root: String)
        ensures
            root@ == self.spec_cache_root(),
    {
        match &self.cache_dir {
            Some(dir) => copy_string(dir),
            None => join_path(".cache", "starbyte"),
        }
    }

    /// Resolve the effective configuration path for persisted settings.
    pub fn config_path(&self) -> (path: String)
        ensures
            path@ == match self.config_path {
                Some(p) => p@,
                None => default_config_path(),
            },
    {
        match &self.config_path {
            Some(p) => copy_string(p),
            None => {
                let dir = join_path(".config", "starbyte");
                join_path(dir.as_str(), "config.toml")
            },
        }
    }

    /// Resolve the legacy configuration path used before config relocation: `config.toml`
    /// under the cache root.
    pub fn legacy_config_path(&self) -> (path: String)
        ensures
            path@ == spec_join(self.spec_cache_root(), "config.toml"@),
    {
        let root = self.cache_root();
        join_path(root.as_str(), "config.toml")
    }
}

/// Library presentation mode.
#[derive(Debug, Clone, Copy, PartialEq, Eq, Structural)]
pub enum LibraryViewMode {
    /// Compact list.
    List,
    /// Cover grid.
    Grid,
    /// Detailed rows.
    Detailed,
}

impl Default for LibraryViewMode {
    fn default() -> (m: Self)
        ensures
            m == LibraryViewMode::Grid,
    {
        LibraryViewMode::Grid
    }
}

/// Video presentation settings.
#[derive(Debug, Clone, Copy, PartialEq, Eq, Structural)]
pub struct VideoSettings {
    /// Start in fullscreen.
    pub fullscreen: bool,
    /// Scale by whole multiples only.
    pub integer_scale: bool,
    /// Window scale factor.
    pub scale: u32,
    /// Synchronize presentation with the display.
    pub vsync: bool,
}

impl Default for VideoSettings {
    fn default() -> (v: Self)
        ensures
            v == (VideoSettings { fullscreen: false, integer_scale: true, scale: 3, vsync: true }),
    {
        VideoSettings { fullscreen: false, integer_scale: true, scale: 3, vsync: true }
    }
}

/// Which device drives controller 1.
#[derive(Debug, Clone, Copy, PartialEq, Eq, Structural)]
pub enum InputDeviceMode {
    /// Keyboard.
    Keyboard,
    /// Gamepad.
    Gamepad,
}

impl Default for InputDeviceMode {
    fn default() -> (m: Self)
        ensures
            m == InputDeviceMode::Keyboard,
    {
        InputDeviceMode::Keyboard
    }
}

/// The keyboard keys bound to controller buttons by default, ordered by button name.
pub open spec fn default_keyboard_pairs() -> Seq<(Seq<char>, Seq<char>)> {
    seq![
        ("a"@, "X"@), ("b"@, "Z"@), ("down"@, "ArrowDown"@), ("l"@, "Q"@), ("left"@, "ArrowLeft"@),
        ("r"@, "W"@), ("right"@, "ArrowRight"@), ("select"@, "Space"@), ("start"@, "Enter"@),
        ("up"@, "ArrowUp"@), ("x"@, "S"@), ("y"@, "A"@),
    ]
}

/// The gamepad buttons bound to controller buttons by default, ordered by button name.
pub open spec fn default_gamepad_pairs() -> Seq<(Seq<char>, Seq<char>)> {
    seq![
        ("a"@, "East"@), ("b"@, "South"@), ("down"@, "DPadDown"@), ("l"@, "LeftTrigger"@),
        ("left"@, "DPadLeft"@), ("r"@, "RightTrigger"@), ("right"@, "DPadRight"@), ("select"@, "Select"@),
        ("start"@, "Start"@), ("up"@, "DPadUp"@), ("x"@, "North"@), ("y"@, "West"@),
    ]
}

/// Bindings as text pairs.
pub open spec fn binding_text(b: Seq<(String, String)>) -> Seq<(Seq<char>, Seq<char>)> {
    b.map_values(|p: (String, String)| (p.0@, p.1@))
}

fn bind(pairs: &mut Vec<(String, String)>, button: &str, key: &str)
    ensures
        binding_text(final(pairs)@) == binding_text(old(pairs)@).push((button@, key@)),
{
    pairs.push((button.to_owned(), key.to_owned()));
    assert(binding_text(pairs@) =~= binding_text(old(pairs)@).push((button@, key@)));
}

/// The default keyboard bindings.
pub fn default_keyboard_bindings() -> (b: Vec<(String, String)>)
    ensures
        binding_text(b@) == default_keyboard_pairs(),
{
    let mut b: Vec<(String, String)> = Vec::new();
    assert(binding_text(b@) =~= seq![]);
    bind(&mut b, "a", "X");
    bind(&mut b, "b", "Z");
    bind(&mut b, "down", "ArrowDown");
    bind(&mut b, "l", "Q");
    bind(&mut b, "left", "ArrowLeft");
    bind(&mut b, "r", "W");
    bind(&mut b, "right", "ArrowRight");
    bind(&mut b, "select", "Space");
    bind(&mut b, "start", "Enter");
    bind(&mut b, "up", "ArrowUp");
    bind(&mut b, "x", "S");
    bind(&mut b, "y", "A");
    assert(binding_text(b@) =~= default_keyboard_pairs());
    b
}

/// The default gamepad bindings.
pub fn default_gamepad_bindings() -> (b: Vec<(String, String)>)
    ensures
        binding_text(b@) == default_gamepad_pairs(),
{
    let mut b: Vec<(String, String)> = Vec::new();
    assert(binding_text(b@) =~= seq![]);
    bind(&mut b, "a", "East");
    bind(&mut b, "b", "South");
    bind(&mut b, "down", "DPadDown");
    bind(&mut b, "l", "LeftTrigger");
    bind(&mut b, "left", "DPadLeft");
    bind(&mut b, "r", "RightTrigger");
    bind(&mut b, "right", "DPadRight");
    bind(&mut b, "select", "Select");
    bind(&mut b, "start", "Start");
    bind(&mut b, "up", "DPadUp");
    bind(&mut b, "x", "North");
    bind(&mut b, "y", "West");
    assert(binding_text(b@) =~= default_gamepad_pairs());
    b
}

/// Controller input settings; bindings map button names to host keys, ordered by button.
#[derive(Debug, Clone)]
pub struct InputSettings {
    /// Device driving controller 1.
    pub active_device: InputDeviceMode,
    /// Keyboard bindings.
    pub keyboard_bindings: Vec<(String, String)>,
    /// Gamepad bindings.
    pub gamepad_bindings: Vec<(String, String)>,
}

impl Default for InputSettings {
    fn default() -> (s: Self)
        ensures
            s.active_device == InputDeviceMode::Keyboard,
            binding_text(s.keyboard_bindings@) == default_keyboard_pairs(),
            binding_text(s.gamepad_bindings@) == default_gamepad_pairs(),
    {
        InputSettings {
            active_device: InputDeviceMode::Keyboard,
            keyboard_bindings: default_keyboard_bindings(),
            gamepad_bindings: default_gamepad_bindings(),
        }
    }
}

/// Cheat preferences: the cheat ids enabled per game id, ordered by game id.
#[derive(Debug, Clone)]
pub struct CheatSettings {
    /// Enabled cheat ids per game.
    pub enabled_by_game: Vec<(String, Vec<String>)>,
    /// Show cheat badges in the library.
    pub show_cheat_badges: bool,
}

impl Default for CheatSettings {
    fn default() -> (s: Self)
        ensures
            s.enabled_by_game@.len() == 0,
            !s.show_cheat_badges,
    {
        CheatSettings { enabled_by_game: Vec::new(), show_cheat_badges: false }
    }
}

/// Library preferences.
#[derive(Debug, Clone)]
pub struct LibrarySettings {
    /// Directories scanned for ROMs.
    pub rom_dirs: Vec<String>,
    /// Active presentation mode.
    pub active_view: LibraryViewMode,
    /// Show installed games only.
    pub show_installed_only: bool,
    /// Library cache directory override.
    pub cache_dir: Option<String>,
}

impl Default for LibrarySettings {
    fn default() -> (s: Self)
        ensures
            s.rom_dirs@.len() == 0,
            s.active_view == LibraryViewMode::Grid,
            !s.show_installed_only,
            s.cache_dir is None,
    {
        LibrarySettings { rom_dirs: Vec::new(), active_view: LibraryViewMode::Grid, show_installed_only: false, cache_dir: None }
    }
}

/// Remote catalog settings.
#[derive(Debug, Clone)]
pub struct ProviderSettings {
    /// Allow network access.
    pub enable_network: bool,
    /// Metadata index location.
    pub metadata_index_url: String,
    /// Cover index location.
    pub cover_index_url: String,
    /// Cheat index location.
    pub cheat_index_url: String,
    /// Last metadata refresh time.
    pub last_metadata_refresh_unix: Option<u64>,
    /// Last cover refresh time.
    pub last_cover_refresh_unix: Option<u64>,
    /// Last cheat refresh time.
    pub last_cheat_refresh_unix: Option<u64>,
}

impl Default for ProviderSettings {
    fn default() -> (s: Self)
        ensures
            s.enable_network,
            s.metadata_index_url@ == "https://api.github.com/repos/libretro-thumbnails/Nintendo_-_Super_Nintendo_Entertainment_System/git/trees/master?recursive=1"@,
            s.cover_index_url@ == "https://raw.githubusercontent.com/libretro-thumbnails/Nintendo_-_Super_Nintendo_Entertainment_System/master"@,
            s.cheat_index_url@ == "https://api.github.com/repos/libretro/libretro-database/git/trees/master?recursive=1"@,
            s.last_metadata_refresh_unix is None,
            s.last_cover_refresh_unix is None,
            s.last_cheat_refresh_unix is None,
    {
        ProviderSettings {
            enable_network: true,
            metadata_index_url: "https://api.github.com/repos/libretro-thumbnails/Nintendo_-_Super_Nintendo_Entertainment_System/git/trees/master?recursive=1".to_owned(),
            cover_index_url: "https://raw.githubusercontent.com/libretro-thumbnails/Nintendo_-_Super_Nintendo_Entertainment_System/master".to_owned(),
            cheat_index_url: "https://api.github.com/repos/libretro/libretro-database/git/trees/master?recursive=1".to_owned(),
            last_metadata_refresh_unix: None,
            last_cover_refresh_unix: None,
            last_cheat_refresh_unix: None,
        }
    }
}

/// Advanced preferences.
#[derive(Debug, Clone)]
pub struct AdvancedSettings {
    /// List games known only from metadata.
    pub show_missing_games: bool,
    /// Refresh caches at startup.
    pub refresh_on_startup: bool,
    /// Remote catalog settings.
    pub providers: ProviderSettings,
}

impl Default for AdvancedSettings {
    fn default() -> (s: Self)
        ensures
            s.show_missing_games,
            !s.refresh_on_startup,
            s.providers.enable_network,
    {
        AdvancedSettings { show_missing_games: true, refresh_on_startup: false, providers: ProviderSettings::default() }
    }
}

/// Application build mode.
#[derive(Debug, Clone, Copy, PartialEq, Eq, Structural)]
pub enum AppMode {
    /// Development.
    Dev,
    /// Production.
    Prod,
}

impl Default for AppMode {
    fn default() -> (m: Self)
        ensures
            m == AppMode::Dev,
    {
        AppMode::Dev
    }
}

} // verus!
