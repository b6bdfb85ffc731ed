use meow_app_launcher::config::ThemePreset;
use meow_app_launcher::palette::{SettingsTheme, Theme};
use meow_app_launcher::civil::format_unix;
use meow_app_launcher::island::{
    available, plan_transition, wanted_state, EasingName, IslandState, IslandTransition, MotionMode,
};
use meow_app_launcher::launch::{
    auto_start_applied, browser_command, path_with_dir, run_key_command, truncate_output, ERROR_FILE_NOT_FOUND,
};
use meow_app_launcher::hotkey::{register_step, RegisterStep, HOTKEY_ATTEMPTS};
use meow_app_launcher::scanner::{shortcut_entry, skip_scan_dir};
use meow_app_launcher::settings::{
    hash32, is_data_row, spring_at, spring_label, write_bool, write_idx, ButtonTone, RenderMode, RowId, RowValue,
};
use meow_app_launcher::apps::AppSource;

#[test]
fn motion_and_easing_cycles() {
    let mut m = MotionMode::Spring;
    let mut seen = Vec::new();
    for _ in 0..4 {
        seen.push(m.label());
        m = m.cycle();
    }
    assert_eq!(m, MotionMode::Spring);
    assert_eq!(seen, vec!["弹簧", "缓动", "线性", "瞬切"]);
    let mut e = EasingName::Linear;
    for _ in 0..7 {
        e = e.cycle();
    }
    assert_eq!(e, EasingName::Linear);
    assert_eq!(EasingName::EaseOutQuint.as_str(), "easeOutQuint");
    assert_eq!(EasingName::EaseOutBack.label(), "回弹缓出");
}

#[test]
fn island_transitions() {
    assert_eq!(IslandTransition::Summon.from_state(), IslandState::Hidden);
    assert_eq!(IslandTransition::Summon.to_state(), IslandState::Island);
    assert_eq!(IslandTransition::DismissExpanded.to_state(), IslandState::Hidden);
    assert_eq!(IslandTransition::SummonExpanded.label(), "summonExpanded");
    for t in IslandTransition::all() {
        assert_ne!(t.from_state(), t.to_state());
    }
    assert_eq!(wanted_state(false, true), IslandState::Hidden);
    assert_eq!(plan_transition(IslandState::Hidden, true, false), Some(IslandTransition::Summon));
    assert_eq!(plan_transition(IslandState::Hidden, true, true), Some(IslandTransition::SummonExpanded));
    assert_eq!(plan_transition(IslandState::Expanded, false, true), Some(IslandTransition::DismissExpanded));
    assert_eq!(plan_transition(IslandState::Island, true, true), Some(IslandTransition::Expand));
    assert_eq!(plan_transition(IslandState::Expanded, true, true), None);
    assert_eq!(available(IslandState::Island), vec![IslandTransition::Dismiss, IslandTransition::Expand]);
    assert_eq!(available(IslandState::Hidden), vec![IslandTransition::Summon, IslandTransition::SummonExpanded]);
}

#[test]
fn browser_command_lines() {
    assert_eq!(browser_command("https://x", "  "), None);
    assert_eq!(
        browser_command("https://x", "  firefox.exe "),
        Some(("firefox.exe".to_string(), "https://x".to_string()))
    );
    assert_eq!(
        browser_command("u", "\"C:\\Program Files\\B\\b.exe\" --new-window %1"),
        Some(("C:\\Program Files\\B\\b.exe".to_string(), "--new-window u".to_string()))
    );
    assert_eq!(
        browser_command("u", "chrome.exe --incognito"),
        Some(("chrome.exe".to_string(), "--incognito u".to_string()))
    );
    assert_eq!(browser_command("u", "b.exe %1 %1"), Some(("b.exe".to_string(), "u u".to_string())));
    assert_eq!(browser_command("u", "\"odd path"), Some(("\"odd".to_string(), "path u".to_string())));
}

#[test]
fn output_truncation() {
    let long: String = "a".repeat(401);
    let cut = truncate_output(&long);
    assert_eq!(cut.chars().count(), 401);
    assert!(cut.ends_with('…'));
    assert!(cut.starts_with(&"a".repeat(400)));
    assert_eq!(truncate_output(&"b".repeat(400)), "b".repeat(400));
    assert_eq!(truncate_output("输出"), "输出");
}

#[test]
fn auto_start_and_path_values() {
    assert_eq!(run_key_command("C:\\a b\\m.exe"), "\"C:\\a b\\m.exe\"");
    assert_eq!(path_with_dir("C:\\Windows;C:\\Tools", "c:\\tools"), None);
    assert_eq!(path_with_dir("C:\\Windows", "D:\\m").as_deref(), Some("C:\\Windows;D:\\m"));
    assert_eq!(path_with_dir("C:\\Windows;", "D:\\m").as_deref(), Some("C:\\Windows;D:\\m"));
    assert_eq!(path_with_dir("", "D:\\m").as_deref(), Some("D:\\m"));
}

#[test]
fn unix_time_text() {
    assert_eq!(format_unix(0), "从未");
    assert_eq!(format_unix(1), "1970-01-01 00:00");
    assert_eq!(format_unix(31_536_000), "1971-01-01 00:00");
    assert_eq!(format_unix(951_782_400), "2000-02-29 00:00");
    assert_eq!(format_unix(951_868_800), "2000-03-01 00:00");
    assert_eq!(format_unix(1_700_000_000), "2023-11-14 22:13");
}

#[test]
fn calendar_days_follow_each_other() {
    assert_eq!(format_unix(946_598_400), "1999-12-31 00:00");
    assert_eq!(format_unix(946_684_800), "2000-01-01 00:00");
    assert_eq!(format_unix(4_107_456_000), "2100-02-28 00:00");
    assert_eq!(format_unix(4_107_542_400), "2100-03-01 00:00");
    assert_eq!(format_unix(1_709_164_800), "2024-02-29 00:00");
    assert_eq!(format_unix(1_709_251_199), "2024-02-29 23:59");
    assert_eq!(format_unix(1_709_251_200), "2024-03-01 00:00");
}

#[test]
fn scan_entries() {
    assert!(skip_scan_dir("Uninstall Tools"));
    assert!(!skip_scan_dir("Accessories"));
    let a = shortcut_entry("Chrome.lnk", "C:/m/Chrome.lnk").unwrap();
    assert_eq!(a.name, "Chrome");
    assert_eq!(a.path, "C:/m/Chrome.lnk");
    assert_eq!(a.source, AppSource::Scanned);
    assert!(a.tags.is_empty());
    assert_eq!(shortcut_entry("a.b.lnk", "p").unwrap().name, "a.b");
    assert!(shortcut_entry("readme.txt", "p").is_none());
    assert!(shortcut_entry(".lnk", "p").is_none());
    assert!(shortcut_entry("Desktop.INI.lnk", "p").is_none());
    assert!(shortcut_entry(".hidden.lnk", "p").is_none());
    assert!(shortcut_entry("x.LNK", "p").is_none());
    assert!(shortcut_entry("noext", "p").is_none());
}

#[test]
fn settings_rows() {
    assert_eq!(spring_at(0), IslandTransition::Summon);
    assert_eq!(spring_at(7), IslandTransition::Dismiss);
    assert_eq!(spring_label(2), "展开");
    assert_eq!(spring_label(11), "直达收回");
    assert!(is_data_row(RowId::Theme));
    assert!(!is_data_row(RowId::Reset));
    assert!(is_data_row(RowId::SpringDuration(5)));
    assert!(!is_data_row(RowId::SpringBounce(6)));
    assert_eq!(write_bool(RowValue::Bool(true), false), Some(true));
    assert_eq!(write_bool(RowValue::Bool(true), true), None);
    assert_eq!(write_bool(RowValue::Num(1), true), None);
    assert_eq!(write_idx(4, RowValue::Index(2), 1), Some(2));
    assert_eq!(write_idx(4, RowValue::Index(4), 1), None);
    assert_eq!(write_idx(4, RowValue::Index(1), 1), None);
    assert_eq!(ButtonTone::for_id(RowId::Reset, false), ButtonTone::Danger);
    assert_eq!(ButtonTone::for_id(RowId::Reset, true), ButtonTone::Recording);
    assert_eq!(ButtonTone::for_id(RowId::HotkeyRecord, false), ButtonTone::Accent);
    assert_eq!(RenderMode::Gpu.label(), "GPU");
}

#[test]
fn grain_hash() {
    assert_eq!(hash32(1, 0), 374_761_393u32 >> 24);
    assert_eq!(hash32(0, 1), 668_265_263u32 >> 24);
    assert_eq!(hash32(7, 9), 7u32.wrapping_mul(374_761_393).wrapping_add(9u32.wrapping_mul(668_265_263)) >> 24);
    assert_eq!(hash32(0, 0), 0);
}

#[test]
fn palettes_per_preset() {
    assert_eq!(Theme::resolve(ThemePreset::Dark).fill, 0xEE1C_1C1E);
    assert!(Theme::resolve(ThemePreset::FrostedGlass).glass);
    assert!(!Theme::resolve(ThemePreset::Opaque).glass);
    assert_eq!(Theme::resolve(ThemePreset::Mica).accent, 0xFF1F_6B58);
    assert_eq!(SettingsTheme::for_preset(ThemePreset::FrostedGlass).win_bg, 0xF2F4_F1EA);
    assert_eq!(SettingsTheme::for_preset(ThemePreset::Dark).win_bg, 0xF21C_1C1E);
    assert_eq!(SettingsTheme::for_preset(ThemePreset::Mica).win_bg, 0xFFF0_ECE3);
    assert_eq!(SettingsTheme::for_preset(ThemePreset::Mica).accent, 0xFF1F_6B58);
    assert_eq!(SettingsTheme::for_preset(ThemePreset::Opaque).win_bg, 0xFFF4_F1EA);
    assert_eq!(SettingsTheme::for_preset(ThemePreset::Opaque).accent, SettingsTheme::light().accent);
    assert_eq!(SettingsTheme::for_preset(ThemePreset::Dark).text, SettingsTheme::dark().text);
}

#[test]
fn hotkey_registration_retries_then_gives_up() {
    assert_eq!(register_step(1, true), RegisterStep::Registered);
    assert_eq!(register_step(1, false), RegisterStep::Retry);
    assert_eq!(register_step(19, false), RegisterStep::Retry);
    assert_eq!(register_step(HOTKEY_ATTEMPTS, false), RegisterStep::GiveUp);
    assert_eq!(register_step(HOTKEY_ATTEMPTS, true), RegisterStep::Registered);
    let mut attempt = 1;
    while register_step(attempt, false) == RegisterStep::Retry {
        attempt += 1;
    }
    assert_eq!(attempt, 20);
}

#[test]
fn switching_auto_start_off_twice_is_harmless() {
    assert!(auto_start_applied(true, 0));
    assert!(!auto_start_applied(true, ERROR_FILE_NOT_FOUND));
    assert!(auto_start_applied(false, 0));
    assert!(auto_start_applied(false, ERROR_FILE_NOT_FOUND));
    assert!(!auto_start_applied(false, 5));
}
