use wideval::config::{Config, ConfigManager, Preset};
use wideval::resolution::Resolution;
use wideval::selection::{position_of, Selection, DEFAULT_HEIGHT, DEFAULT_WIDTH};
use wideval::text::{parse_u32, same_text};
use wideval::types::Tab;

fn offered() -> Vec<Resolution> {
    vec![
        Resolution::new(800, 600),
        Resolution::new(1280, 1024),
        Resolution::new(1920, 1080),
        Resolution::new(1280, 1024),
    ]
}

fn preset(w: u32, h: u32) -> Preset {
    Preset {
        name: "p".to_string(),
        resolution_width: w,
        resolution_height: h,
        apply_to_all_accounts: true,
        restore_after_close: true,
    }
}

#[test]
fn parse_u32_reads_decimal_numbers() {
    assert_eq!(parse_u32("0"), Some(0));
    assert_eq!(parse_u32("1280"), Some(1280));
    assert_eq!(parse_u32("+42"), Some(42));
    assert_eq!(parse_u32("007"), Some(7));
    assert_eq!(parse_u32("4294967295"), Some(4294967295));
    assert_eq!(parse_u32("4294967296"), None);
    assert_eq!(parse_u32("99999999999999999999999"), None);
    assert_eq!(parse_u32(""), None);
    assert_eq!(parse_u32("+"), None);
    assert_eq!(parse_u32("-"), None);
    assert_eq!(parse_u32("-1"), None);
    assert_eq!(parse_u32("++1"), None);
    assert_eq!(parse_u32(" 1"), None);
    assert_eq!(parse_u32("1 "), None);
    assert_eq!(parse_u32("12a"), None);
    assert_eq!(parse_u32("1_000"), None);
    assert_eq!(parse_u32("\u{663}"), None);
    assert_eq!(parse_u32("42949672950000x"), None);
}

#[test]
fn parse_u32_agrees_with_the_standard_library() {
    let samples = [
        "", "+", "-", "0", "+0", "-0", "00", "1", "+1", "4294967295", "4294967296",
        "+4294967295", "42949672951", "abc", "1e3", "0x10", "12 ", "\u{ff11}",
    ];
    for s in samples {
        assert_eq!(parse_u32(s), s.parse::<u32>().ok(), "{:?}", s);
    }
}

#[test]
fn same_text_is_equality() {
    assert!(same_text("", ""));
    assert!(same_text("abc", "abc"));
    assert!(!same_text("abc", "abd"));
    assert!(!same_text("abc", "ab"));
    assert!(!same_text("ab", "abc"));
    assert!(!same_text("ABC", "abc"));
}

#[test]
fn position_is_the_first_place() {
    let list = offered();
    assert_eq!(position_of(&list, 800, 600), Some(0));
    assert_eq!(position_of(&list, 1280, 1024), Some(1));
    assert_eq!(position_of(&list, 1920, 1080), Some(2));
    assert_eq!(position_of(&list, 1024, 1280), None);
    assert_eq!(position_of(&Vec::new(), 800, 600), None);
}

#[test]
fn selection_starts_at_the_configured_resolution() {
    let config = Config { target_width: 1920, target_height: 1080, ..Config::default() };
    let s = Selection::new(offered(), &config);
    assert_eq!(s.selected_index, 2);
    assert!(!s.use_custom);
    assert_eq!(s.custom_width, "1280");
    assert_eq!(s.custom_height, "1024");
    assert_eq!(s.available, offered());
    assert_eq!(s.target(), Some(Resolution::new(1920, 1080)));
}

#[test]
fn selection_starts_at_the_first_when_the_configured_is_not_offered() {
    let config = Config { target_width: 1, target_height: 2, ..Config::default() };
    let s = Selection::new(offered(), &config);
    assert_eq!(s.selected_index, 0);
    assert_eq!(s.target(), Some(Resolution::new(800, 600)));
    let empty = Selection::new(Vec::new(), &config);
    assert_eq!(empty.selected_index, 0);
    assert_eq!(empty.target(), None);
}

#[test]
fn typed_resolution_falls_back_to_defaults() {
    assert_eq!((DEFAULT_WIDTH, DEFAULT_HEIGHT), (1280, 1024));
    let mut s = Selection::new(offered(), &Config::default());
    s.use_custom = true;
    s.custom_width = "1720".to_string();
    s.custom_height = "1080".to_string();
    assert_eq!(s.target(), Some(Resolution::new(1720, 1080)));
    s.custom_width = "wide".to_string();
    assert_eq!(s.target(), Some(Resolution::new(1280, 1080)));
    s.custom_height = "".to_string();
    assert_eq!(s.target(), Some(Resolution::new(1280, 1024)));
    s.custom_width = "99999999999".to_string();
    s.custom_height = "+600".to_string();
    assert_eq!(s.target(), Some(Resolution::new(1280, 600)));
}

#[test]
fn chosen_index_out_of_range_gives_nothing() {
    let mut s = Selection::new(offered(), &Config::default());
    s.selected_index = 4;
    assert_eq!(s.target(), None);
    s.selected_index = 3;
    assert_eq!(s.target(), Some(Resolution::new(1280, 1024)));
}

#[test]
fn preset_on_offer_is_chosen_from_the_list() {
    let mut s = Selection::new(offered(), &Config::default());
    s.use_custom = true;
    s.custom_width = "17".to_string();
    s.apply_preset(&preset(1920, 1080));
    assert!(!s.use_custom);
    assert_eq!(s.selected_index, 2);
    assert_eq!(s.custom_width, "17");
    assert_eq!(s.target(), Some(Resolution::new(1920, 1080)));
}

#[test]
fn preset_not_on_offer_is_typed_in() {
    let mut s = Selection::new(offered(), &Config::default());
    s.selected_index = 1;
    s.apply_preset(&preset(1720, 1080));
    assert!(s.use_custom);
    assert_eq!(s.selected_index, 1);
    assert_eq!(s.custom_width, "1720");
    assert_eq!(s.custom_height, "1080");
    assert_eq!(s.target(), Some(Resolution::new(1720, 1080)));
    s.apply_preset(&preset(0, 4294967295));
    assert_eq!(s.custom_width, "0");
    assert_eq!(s.custom_height, "4294967295");
    assert_eq!(s.target(), Some(Resolution::new(0, 4294967295)));
}

#[test]
fn selection_becomes_a_preset() {
    let mut s = Selection::new(offered(), &Config::default());
    assert!(s.to_preset("", true, true).is_none());
    let p = s.to_preset("mine", false, true).unwrap();
    assert_eq!(p.name, "mine");
    assert_eq!((p.resolution_width, p.resolution_height), (1280, 1024));
    assert!(!p.apply_to_all_accounts);
    assert!(p.restore_after_close);
    s.use_custom = true;
    s.custom_width = "x".to_string();
    s.custom_height = "900".to_string();
    let p = s.to_preset("typed", true, false).unwrap();
    assert_eq!((p.resolution_width, p.resolution_height), (1280, 900));
    assert!(p.apply_to_all_accounts);
    assert!(!p.restore_after_close);
    s.use_custom = false;
    s.selected_index = 9;
    assert!(s.to_preset("none", true, true).is_none());
}

#[test]
fn account_folders_exclude_the_games_own() {
    assert!(ConfigManager::is_account_folder("0123abcd-ef01-2345-6789-abcdef012345-ap"));
    assert!(!ConfigManager::is_account_folder("WindowsClient"));
    assert!(!ConfigManager::is_account_folder("CrashReportClient"));
    assert!(!ConfigManager::is_account_folder("989e4975"));
    assert!(!ConfigManager::is_account_folder("989e4975-1234"));
    assert!(ConfigManager::is_account_folder("windowsclient"));
    assert!(ConfigManager::is_account_folder("WindowsClient2"));
    assert!(ConfigManager::is_account_folder("x989e4975"));
    assert!(ConfigManager::is_account_folder("989e497"));
    assert!(ConfigManager::is_account_folder(""));
}

#[test]
fn preset_names_come_from_json_files() {
    assert_eq!(ConfigManager::preset_name("wide.json"), Some("wide".to_string()));
    assert_eq!(ConfigManager::preset_name("a.json.json"), Some("a".to_string()));
    assert_eq!(ConfigManager::preset_name(".json"), Some("".to_string()));
    assert_eq!(ConfigManager::preset_name("wide.JSON"), None);
    assert_eq!(ConfigManager::preset_name("wide.json "), None);
    assert_eq!(ConfigManager::preset_name("json"), None);
    assert_eq!(ConfigManager::preset_name(""), None);
    assert_eq!(ConfigManager::preset_name("wide.txt"), None);
    assert_eq!(ConfigManager::preset_name("\u{e9}t\u{e9}.json"), Some("\u{e9}t\u{e9}".to_string()));
    assert_eq!(ConfigManager::preset_file_name("wide"), "wide.json");
    assert_eq!(
        ConfigManager::preset_name(&ConfigManager::preset_file_name("my preset")),
        Some("my preset".to_string())
    );
}

#[test]
fn tabs_are_distinct() {
    assert_eq!(Tab::Main, Tab::Main);
    assert_ne!(Tab::Main, Tab::Presets);
    assert_ne!(Tab::Presets, Tab::Settings);
}
