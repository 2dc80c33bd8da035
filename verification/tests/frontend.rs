use starbyte::cartridge::Cartridge;
use starbyte::error::Error;
use starbyte::frontend::library::{
    apply_enabled_cheats, set_cheat_enabled, cheat_cache_path, cheat_kind_from_stem, game_id_for_title, is_rom_path, library_cache_root,
    library_snapshot, local_rom_info, merge_library_entries, normalize_title, select_entries, slugify,
    strip_cheat_suffix, text_before_exec, CheatEntry, GameMetadata, InstalledStatus, LibraryEntry, LibraryFilter,
    LibraryTarget, LocalRomInfo, RefreshSummary, RomDownloadProvider,
};
use starbyte::frontend::cheats::{cheat_file_matches_title, libretro_cheat_stem, libretro_cheat_url, parse_libretro_cheats};
use starbyte::frontend::log_lines::{LogLines, MAX_LOG_LINES};
use starbyte::frontend::session::{EmulatorSession, FrontendSession, SessionSnapshot};
use starbyte::frontend::worker::{label_for_kind, metadata_status, refresh_all_status, WorkerCommandKind};
use starbyte::coprocessor::TrigTable;
use starbyte::input::ControllerState;
use starbyte::manifest::{AssetConfig, CheatSettings};

fn synthetic_rom_bytes() -> Vec<u8> {
    let mut rom = vec![0_u8; 0x10000];
    let base = 0x7FC0;
    rom[base..base + 20].copy_from_slice(b"STARBYTE FRONTEND   ");
    rom[base + 0x15] = 0x20;
    rom[base + 0x16] = 0x00;
    rom[base + 0x17] = 0x09;
    rom[base + 0x18] = 0x01;
    rom[base + 0x19] = 0x01;
    rom[base + 0x1C] = 0xFF;
    rom[base + 0x1D] = 0xFF;
    rom[base + 0x1E] = 0x00;
    rom[base + 0x1F] = 0x00;
    rom
}

fn no_firmware() -> Result<Vec<u8>, Error> {
    Err(Error::MissingFirmware { name: "SPC700 IPL ROM".to_owned() })
}

#[test]
fn snapshot_reports_empty_session() {
    let session = FrontendSession::new(Default::default(), TrigTable::empty(), no_firmware()).unwrap();
    let snapshot = session.snapshot();
    assert!(!snapshot.has_rom);
    assert_eq!(snapshot.status_line(), "No ROM loaded");
}

#[test]
fn session_runs_frames_without_frontend_specific_state() {
    let mut session = FrontendSession::new(AssetConfig::default(), TrigTable::empty(), no_firmware()).unwrap();
    session
        .load_rom("frontend-test.sfc".to_owned(), Cartridge::from_bytes(synthetic_rom_bytes(), None))
        .unwrap();
    session.set_controller1(ControllerState { start: true, ..ControllerState::default() });

    session.run_frames(2).unwrap();

    let snapshot = session.snapshot();
    assert!(snapshot.has_rom);
    assert!(snapshot.frame >= 2);
    assert!(snapshot.audio_sample_count > 0);
    assert_eq!(snapshot.rom_path, Some("frontend-test.sfc".to_owned()));
    assert!(snapshot.status_line().contains("Audio samples"));
    assert_eq!(
        session.framebuffer_rgba().len(),
        (snapshot.framebuffer_width * snapshot.framebuffer_height * 4) as usize
    );
}

#[test]
fn status_line_lists_frame_steps_and_samples() {
    let snapshot = SessionSnapshot {
        rom_path: None,
        has_rom: true,
        frame: 12,
        apu_steps: 345,
        audio_sample_count: 6,
        framebuffer_width: 256,
        framebuffer_height: 224,
    };
    assert_eq!(snapshot.status_line(), "Frame 12 | APU steps 345 | Audio samples 6");
}

#[test]
fn failed_rom_load_leaves_session_empty() {
    let mut session = FrontendSession::new(AssetConfig::default(), TrigTable::empty(), no_firmware()).unwrap();
    assert!(session.load_rom("bad.sfc".to_owned(), Cartridge::from_bytes(vec![1, 2, 3], None)).is_err());
    assert!(session.snapshot().rom_path.is_none());
    assert!(session.run_frame().is_err());
}

#[test]
fn emulator_session_tracks_rom_path() {
    let mut session = EmulatorSession::new(AssetConfig::default(), TrigTable::empty(), no_firmware()).unwrap();
    assert!(session.rom_path().is_none());
    session.load_rom("game.sfc".to_owned(), Cartridge::from_bytes(synthetic_rom_bytes(), None)).unwrap();
    session.hold_controller1(ControllerState { a: true, ..ControllerState::default() });
    session.run_frame().unwrap();
    assert_eq!(session.rom_path().map(String::as_str), Some("game.sfc"));
    assert!(session.emulator().timing().frame >= 1);
}

#[test]
fn normalize_title_collapses_punctuation() {
    assert_eq!(normalize_title("Mega Man X (USA, Europe)"), "mega man x usa europe");
}

#[test]
fn slugs_and_ids_follow_normalized_titles() {
    assert_eq!(slugify("Super Mario World (USA)"), "super-mario-world-usa");
    let id = game_id_for_title("Mega Man X");
    assert_eq!(id.len(), 40);
    assert_eq!(id, game_id_for_title("MEGA-MAN x"));
    assert_ne!(id, game_id_for_title("Mega Man X2"));
    assert_eq!(game_id_for_title(""), "da39a3ee5e6b4b0d3255bfef95601890afd80709");
}

#[test]
fn cheat_file_names_map_to_kinds_and_stems() {
    assert_eq!(cheat_kind_from_stem("Chrono Trigger (USA) (Game Genie)"), "Game Genie");
    assert_eq!(cheat_kind_from_stem("Chrono Trigger (USA) (Pro Action Replay)"), "Action Replay");
    assert_eq!(cheat_kind_from_stem("Chrono Trigger"), "Unknown");
    assert_eq!(strip_cheat_suffix("Chrono Trigger (USA) (Game Genie)"), "Chrono Trigger (USA)");
    assert_eq!(strip_cheat_suffix("Chrono Trigger (USA) (Action Replay) (diff)"), "Chrono Trigger (USA) (Action Replay)");
}

fn entry(title: &str, path: Option<&str>) -> LibraryEntry {
    LibraryEntry {
        game_id: game_id_for_title(title),
        display_title: title.to_owned(),
        installed_status: if path.is_some() { InstalledStatus::Installed } else { InstalledStatus::Missing },
        local: path.map(|p| LocalRomInfo {
            game_id: game_id_for_title(title),
            title: title.to_owned(),
            normalized_title: normalize_title(title),
            rom_path: p.to_owned(),
            mapper: "LoRom".to_owned(),
            coprocessor: None,
            region: "Ntsc".to_owned(),
            file_size_bytes: 0x10000,
        }),
        metadata: None,
        cover: None,
        cheats: Vec::new(),
    }
}

#[test]
fn targets_select_by_id_title_and_path() {
    let entries = vec![
        entry("Mega Man X", Some("roms/mmx.sfc")),
        entry("Super Metroid", None),
        entry("Mega Man X2", Some("roms/mmx2.sfc")),
    ];
    let by_title = select_entries(
        entries.clone(),
        &LibraryTarget { title: Some("mega man".to_owned()), ..LibraryTarget::default() },
    );
    assert_eq!(by_title.len(), 2);
    let by_path = select_entries(
        entries.clone(),
        &LibraryTarget { rom_path: Some("roms/mmx2.sfc".to_owned()), ..LibraryTarget::default() },
    );
    assert_eq!(by_path.len(), 1);
    assert_eq!(by_path[0].display_title, "Mega Man X2");
    let by_id = select_entries(
        entries.clone(),
        &LibraryTarget { game_id: Some(game_id_for_title("Super Metroid")), ..LibraryTarget::default() },
    );
    assert_eq!(by_id.len(), 1);
    assert_eq!(select_entries(entries, &LibraryTarget::default()).len(), 3);
}

struct NoDownloads;

impl RomDownloadProvider for NoDownloads {}

#[test]
fn rom_downloads_are_unsupported() {
    let result = NoDownloads.download_rom(&entry("Mega Man X", None));
    assert!(result.unwrap_err().message().contains("unsupported"));
}

#[test]
fn worker_jobs_have_labels_and_status_lines() {
    assert_eq!(label_for_kind(&WorkerCommandKind::RefreshSnapshot), "Scan Library");
    assert_eq!(
        label_for_kind(&WorkerCommandKind::RefreshCovers { target: LibraryTarget::default() }),
        "Refresh Covers"
    );
    assert_eq!(metadata_status(3), "Refreshed metadata index (3 records).");
    assert_eq!(
        refresh_all_status(&RefreshSummary { metadata_records: 1, covers_written: 2, cheat_records: 3 }),
        "Refreshed metadata 1, covers 2, cheats 3."
    );
}

fn metadata(title: &str) -> GameMetadata {
    GameMetadata {
        game_id: game_id_for_title(title),
        title: title.to_owned(),
        normalized_title: normalize_title(title),
        source: "test".to_owned(),
        cover_url: None,
        has_cheat_files: false,
        fetched_at_unix: 0,
    }
}

#[test]
fn snapshot_merges_installed_and_metadata_only_entries() {
    let local = local_rom_info(
        &Cartridge::from_bytes(
            {
                let mut rom = synthetic_rom_bytes();
                rom[0x7FC0..0x7FC0 + 21].copy_from_slice(b"STARBYTE INSTALLED   ");
                rom
            },
            None,
        )
        .unwrap(),
        "roms/installed.sfc".to_owned(),
        0x10000,
    );
    assert_eq!(local.game_id, game_id_for_title("STARBYTE INSTALLED"));
    assert_eq!(local.mapper, "LoRom");
    let missing_id = game_id_for_title("Missing Game (USA)");
    let entries = merge_library_entries(&[local], &[metadata("STARBYTE INSTALLED"), metadata("Missing Game (USA)")]);
    let snapshot = library_snapshot(entries, LibraryFilter::default(), true);
    assert_eq!(snapshot.total_count, 2);
    assert_eq!(snapshot.installed_count, 1);
    assert_eq!(snapshot.missing_count, 1);
    assert!(snapshot
        .entries
        .iter()
        .any(|entry| entry.game_id == missing_id && entry.installed_status == InstalledStatus::Missing));
    assert_eq!(snapshot.entries[0].display_title, "Missing Game (USA)");
}

#[test]
fn merged_entries_are_unique_and_ordered_by_id() {
    let entries = merge_library_entries(
        &[],
        &[metadata("Zelda"), metadata("Metroid"), metadata("Zelda"), metadata("F-Zero")],
    );
    assert_eq!(entries.len(), 3);
    assert!(entries.windows(2).all(|pair| pair[0].game_id < pair[1].game_id));
    assert!(entries.iter().all(|entry| entry.installed_status == InstalledStatus::Missing && entry.cover.is_none()));
}

#[test]
fn snapshot_filters_by_status_and_query() {
    let entries = merge_library_entries(
        &[LocalRomInfo {
            game_id: game_id_for_title("Mega Man X"),
            title: "MEGAMAN X".to_owned(),
            normalized_title: normalize_title("MEGAMAN X"),
            rom_path: "roms/mmx.sfc".to_owned(),
            mapper: "LoRom".to_owned(),
            coprocessor: None,
            region: "NTSC".to_owned(),
            file_size_bytes: 0x100000,
        }],
        &[metadata("Mega Man X"), metadata("Mega Man X2"), metadata("Super Metroid")],
    );
    let hidden_missing = library_snapshot(entries.clone(), LibraryFilter::default(), false);
    assert_eq!(hidden_missing.entries.len(), 1);
    assert_eq!(hidden_missing.total_count, 3);
    let query = LibraryFilter { query: "MEGA-man".to_owned(), ..LibraryFilter::default() };
    let by_query = library_snapshot(entries, query, true);
    let titles: Vec<&str> = by_query.entries.iter().map(|entry| entry.display_title.as_str()).collect();
    assert_eq!(titles, vec!["Mega Man X", "Mega Man X2"]);
}

#[test]
fn text_order_matches_string_order() {
    assert!(text_before_exec("abc", "abd"));
    assert!(text_before_exec("ab", "abc"));
    assert!(!text_before_exec("abc", "abc"));
    assert!(!text_before_exec("b", "abc"));
}

#[test]
fn cache_paths_and_rom_extensions() {
    assert_eq!(cheat_cache_path(".cache/starbyte", "abc"), ".cache/starbyte/games/cheats/abc.json");
    assert_eq!(library_cache_root(&Some("lib".to_owned()), &AssetConfig::default()), "lib");
    assert_eq!(library_cache_root(&None, &AssetConfig::default()), ".cache/starbyte");
    assert!(is_rom_path("roms/Game.SFC"));
    assert!(is_rom_path("game.fig"));
    assert!(!is_rom_path("notes.txt"));
    assert!(!is_rom_path(".sfc"));
    assert!(!is_rom_path("roms/"));
}

#[test]
fn cached_cheats_take_enabled_state_from_settings() {
    let cheat = CheatEntry {
        id: "cheat-1".to_owned(),
        game_id: "abc".to_owned(),
        name: "Infinite lives".to_owned(),
        code: "7E149C09".to_owned(),
        source: "test".to_owned(),
        kind: "Action Replay".to_owned(),
        enabled: false,
    };
    let other = CheatEntry { id: "cheat-2".to_owned(), enabled: true, ..cheat.clone() };
    let cheats = apply_enabled_cheats(vec![cheat, other], &vec!["cheat-1".to_owned()]);
    assert!(cheats[0].enabled);
    assert!(!cheats[1].enabled);
    assert_eq!(cheats[1].name, "Infinite lives");
}

#[test]
fn normalizing_twice_changes_nothing() {
    for title in ["Mega Man X (USA, Europe)", "  --Final   Fantasy III--  ", "", "ÉLAN 2"] {
        let once = normalize_title(title);
        assert_eq!(normalize_title(&once), once);
        assert_eq!(game_id_for_title(&once), game_id_for_title(title));
    }
}

#[test]
fn libretro_cheat_files_pair_descriptions_with_codes() {
    let text = "cheats = 3\r\n\r\ncheat1_desc = \"Infinite HP\"\r\ncheat1_code = \"7E0000:FF\"\r\ncheat0_desc = \"Max Gold\"\ncheat0_code = \"7E1000:99\"\ncheat2_desc = \"No code\"\ncheat0_enable = false\n";
    let enabled = vec!["chrono-trigger-chrono-trigger-usa-game-genie-1".to_owned()];
    let cheats = parse_libretro_cheats(&"chrono-trigger".to_owned(), text, "Chrono Trigger (USA) (Game Genie)", &enabled);
    assert_eq!(cheats.len(), 2);
    assert_eq!(cheats[0].id, "chrono-trigger-chrono-trigger-usa-game-genie-0");
    assert_eq!(cheats[0].name, "Max Gold");
    assert_eq!(cheats[0].code, "7E1000:99");
    assert_eq!(cheats[0].kind, "Game Genie");
    assert_eq!(cheats[0].source, "libretro-database");
    assert_eq!(cheats[0].game_id, "chrono-trigger");
    assert!(!cheats[0].enabled);
    assert_eq!(cheats[1].name, "Infinite HP");
    assert_eq!(cheats[1].code, "7E0000:FF");
    assert!(cheats[1].enabled);
}

#[test]
fn later_cheat_lines_replace_earlier_ones() {
    let text = "cheat+3_desc=\"First\"\ncheat3_desc=\"Second\"\ncheat3_code=AB\ncheatx_code=CD\nnot a setting\n";
    let cheats = parse_libretro_cheats(&"game".to_owned(), text, "Game", &Vec::new());
    assert_eq!(cheats.len(), 1);
    assert_eq!(cheats[0].name, "Second");
    assert_eq!(cheats[0].code, "AB");
    assert_eq!(cheats[0].kind, "Unknown");
    assert_eq!(cheats[0].id, "game-game-3");
}

#[test]
fn only_console_cheat_files_are_considered() {
    let path = "cht/Nintendo - Super Nintendo Entertainment System/Chrono Trigger (USA) (Game Genie).cht";
    assert_eq!(libretro_cheat_stem(path, "blob"), Some("Chrono Trigger (USA) (Game Genie)".to_owned()));
    assert_eq!(libretro_cheat_stem(path, "tree"), None);
    assert_eq!(libretro_cheat_stem("cht/Nintendo - Game Boy/Tetris.cht", "blob"), None);
    assert_eq!(libretro_cheat_stem("cht/Nintendo - Super Nintendo Entertainment System/readme.txt", "blob"), None);
}

#[test]
fn cheat_files_match_titles_after_suffixes_are_dropped() {
    assert!(cheat_file_matches_title("Chrono Trigger (USA) (Game Genie)", "Chrono Trigger (USA)"));
    assert!(cheat_file_matches_title("Chrono Trigger (USA) (diff)", "Chrono Trigger (USA)"));
    assert!(!cheat_file_matches_title("Chrono Trigger (USA) (Action Replay) (diff)", "Chrono Trigger (USA)"));
    assert!(!cheat_file_matches_title("Chrono Trigger (Japan) (Game Genie)", "Chrono Trigger (USA)"));
}

#[test]
fn cheat_file_urls_percent_encode_the_path() {
    assert_eq!(
        libretro_cheat_url("cht/Nintendo - Super Nintendo Entertainment System/Chrono Trigger (USA).cht"),
        "https://raw.githubusercontent.com/libretro/libretro-database/master/cht%2FNintendo%20-%20Super%20Nintendo%20Entertainment%20System%2FChrono%20Trigger%20%28USA%29.cht"
    );
    assert_eq!(
        libretro_cheat_url("Pokémon~_.x"),
        "https://raw.githubusercontent.com/libretro/libretro-database/master/Pok%C3%A9mon~_.x"
    );
}

#[test]
fn snapshot_keeps_the_order_of_equal_titles() {
    let mut first = entry("Zelda", Some("roms/zelda-a.sfc"));
    first.game_id = "zelda-a".to_owned();
    let mut second = entry("Zelda", Some("roms/zelda-b.sfc"));
    second.game_id = "zelda-b".to_owned();
    let entries = vec![first, entry("Axelay", None), second];
    let snapshot = library_snapshot(entries, LibraryFilter::default(), true);
    let ids: Vec<&str> = snapshot.entries.iter().map(|entry| entry.game_id.as_str()).collect();
    assert_eq!(ids, vec![game_id_for_title("Axelay").as_str(), "zelda-a", "zelda-b"]);
}

#[test]
fn toggling_cheats_updates_one_game_in_id_order() {
    let mut settings = CheatSettings::default();
    set_cheat_enabled(&mut settings, "zelda", "z-1", true);
    set_cheat_enabled(&mut settings, "axelay", "a-1", true);
    set_cheat_enabled(&mut settings, "zelda", "z-2", true);
    set_cheat_enabled(&mut settings, "zelda", "z-1", true);
    assert_eq!(settings.enabled_by_game.len(), 2);
    assert_eq!(settings.enabled_by_game[0], ("axelay".to_owned(), vec!["a-1".to_owned()]));
    assert_eq!(settings.enabled_by_game[1], ("zelda".to_owned(), vec!["z-1".to_owned(), "z-2".to_owned()]));
    set_cheat_enabled(&mut settings, "zelda", "z-1", false);
    assert_eq!(settings.enabled_by_game[1], ("zelda".to_owned(), vec!["z-2".to_owned()]));
    set_cheat_enabled(&mut settings, "mario", "m-1", false);
    assert_eq!(settings.enabled_by_game[1], ("mario".to_owned(), Vec::<String>::new()));
    assert_eq!(settings.enabled_by_game.len(), 3);
}

#[test]
fn log_pane_collects_complete_trimmed_lines() {
    let mut log = LogLines::new();
    log.push_bytes(b"  first line\r\nsecond");
    assert_eq!(log.lines(), &vec!["first line".to_owned()]);
    log.push_bytes(b" half\n\n   \n");
    assert_eq!(log.lines(), &vec!["first line".to_owned(), "second half".to_owned()]);
    log.push_bytes(&[0xFF, b'x', b'\n']);
    assert_eq!(log.lines()[2], "\u{FFFD}x");
}

#[test]
fn log_pane_keeps_only_the_most_recent_lines() {
    let mut log = LogLines::new();
    let mut text = String::new();
    for index in 0..(MAX_LOG_LINES + 5) {
        text.push_str(&format!("line {index}\n"));
    }
    log.push_bytes(text.as_bytes());
    assert_eq!(log.lines().len(), MAX_LOG_LINES);
    assert_eq!(log.lines()[0], "line 5");
    assert_eq!(log.lines()[MAX_LOG_LINES - 1], format!("line {}", MAX_LOG_LINES + 4));
}
