use meow_app_launcher::edits::{
    add_block_word, cycle_command_kind, delete_command, delete_filter, parse_aliases, rename_app, set_app_icon,
    set_app_path, set_command_aliases, set_filter_keyword, set_web_browser, toggle_filter_case,
};
use meow_app_launcher::apps::{sanitize_file_name, AppInfo, AppRegistry, AppSource, ScanDelta};
use meow_app_launcher::config::{
    default_commands, default_filters, AppLayout, ElevateModifier, FilterRule, HotkeyConfig, RenderBackend, SearchConfig,
    ThemePreset, WebEngine,
};
use meow_app_launcher::env::{expand, expand_all, merge, normalize, EnvEntry, EnvSync};
use meow_app_launcher::platform::{Modifier, SystemCommandKind};
use meow_app_launcher::util::percent_encode_component;

fn scanned(name: &str, path: &str) -> AppInfo {
    let mut a = AppInfo::manual(name, path);
    a.source = AppSource::Scanned;
    a
}

#[test]
fn upsert_find_remove() {
    let mut reg = AppRegistry::default();
    assert!(reg.upsert(AppInfo::manual("a", "1")));
    assert!(reg.upsert(AppInfo::manual("b", "2")));
    assert!(!reg.upsert(AppInfo::manual("a", "3")));
    assert_eq!(reg.apps.len(), 2);
    assert_eq!(reg.find("a").unwrap().path, "3");
    assert!(reg.remove("a"));
    assert!(!reg.remove("a"));
    assert!(reg.find("a").is_none());
    assert_eq!(reg.apps.len(), 1);
}

#[test]
fn merge_scan_adds_updates_and_removes() {
    let mut reg = AppRegistry {
        apps: vec![scanned("old", "o"), scanned("keep", "k1"), AppInfo::manual("mine", "m")],
    };
    reg.apps[1].favorite = true;
    let delta = reg.merge_scanned(vec![scanned("keep", "k2"), scanned("new", "n"), scanned("mine", "x")]);
    assert_eq!(delta.added, 1);
    assert_eq!(delta.removed, 1);
    assert_eq!(delta.removed_names, vec!["old".to_string()]);
    assert!(delta.any());
    let names: Vec<&str> = reg.apps.iter().map(|a| a.name.as_str()).collect();
    assert_eq!(names, vec!["keep", "mine", "new"]);
    assert_eq!(reg.find("keep").unwrap().path, "k2");
    assert!(reg.find("keep").unwrap().favorite);
    assert_eq!(reg.find("mine").unwrap().path, "m");
    // The same scan again changes nothing.
    let again = reg.merge_scanned(vec![scanned("keep", "k2"), scanned("new", "n"), scanned("mine", "x")]);
    assert_eq!(again.added, 0);
    assert_eq!(again.removed, 0);
    assert!(!again.any());
}

#[test]
fn path_only_scan_changes_no_names() {
    let mut reg = AppRegistry { apps: vec![scanned("a", "p1"), scanned("b", "p2")] };
    let delta = reg.merge_scanned(vec![scanned("a", "q1"), scanned("b", "p2")]);
    assert!(!delta.any());
    assert_eq!(reg.find("a").unwrap().path, "q1");
}

#[test]
fn scan_delta_summary_text() {
    let d = ScanDelta { added: 3, removed: 12, removed_names: Vec::new() };
    assert_eq!(d.summary(), "新增 3 个,移除 12 个应用喵");
}

#[test]
fn tags_favourites_and_launches() {
    let mut reg = AppRegistry { apps: vec![AppInfo::manual("a", "1")] };
    reg.add_tag("a", "  Dev ");
    reg.add_tag("a", "dev");
    reg.add_tag("a", "   ");
    reg.add_tag("missing", "x");
    assert_eq!(reg.apps[0].tags, vec!["Dev".to_string()]);
    reg.add_tag("a", "工具");
    reg.remove_tag("a", "Dev");
    assert_eq!(reg.apps[0].tags, vec!["工具".to_string()]);
    reg.toggle_favorite("a");
    assert!(reg.apps[0].favorite);
    reg.toggle_favorite("a");
    assert!(!reg.apps[0].favorite);
    reg.record_launch("a", 1_700_000_000);
    reg.record_launch("a", 1_700_000_100);
    assert_eq!(reg.apps[0].launch_count, 2);
    assert_eq!(reg.apps[0].last_used, 1_700_000_100);
    reg.apps[0].launch_count = u32::MAX;
    reg.record_launch("a", 5);
    assert_eq!(reg.apps[0].launch_count, u32::MAX);
}

#[test]
fn icon_file_names() {
    assert_eq!(sanitize_file_name("a/b:c*?"), "a_b_c__");
    assert_eq!(AppInfo::manual("x|y", "p").icon_snapshot_name(), "x_y.png");
}

#[test]
fn env_merge_rules() {
    let system = vec![
        EnvEntry::expanding("PATH", "C:\\Windows;"),
        EnvEntry::expanding("TEMP", "C:\\Windows\\Temp"),
        EnvEntry::expanding("JAVA", "a"),
    ];
    let user = vec![
        EnvEntry::expanding("Path", ";C:\\Tools"),
        EnvEntry::expanding("java", "b"),
        EnvEntry::expanding("TEMP", "C:\\Users\\me\\Temp"),
    ];
    let m = merge(&system, &user);
    assert_eq!(m.len(), 3);
    assert_eq!(m[0].name, "Path");
    assert_eq!(m[0].value, "C:\\Windows;C:\\Tools");
    assert_eq!(m[1].name, "java");
    assert_eq!(m[1].value, "b");
    assert_eq!(m[2].name, "TEMP");
    assert_eq!(m[2].value, "C:\\Users\\me\\Temp");
    assert_eq!(normalize("Path"), "PATH");
}

#[test]
fn env_expand_references() {
    let lookup = |n: &str| if n == "A" { Some("1".to_string()) } else { None };
    assert_eq!(expand("%A%-%B%-%%-50%", lookup), "1-%B%-%%-50%");
    assert_eq!(expand("100%", lookup), "100%");
    let entries = vec![
        EnvEntry { name: "Home".to_string(), value: "C:\\u".to_string(), expand: false },
        EnvEntry::expanding("P", "%HOME%\\bin"),
        EnvEntry::expanding("LOOP", "%LOOP%"),
        EnvEntry::expanding("X", "%WINDIR%"),
    ];
    let map = expand_all(&entries, |n: &str| if n == "WINDIR" { Some("C:\\Windows".to_string()) } else { None });
    let get = |k: &str| map.iter().find(|(n, _)| n == k).map(|(_, v)| v.clone());
    assert_eq!(get("HOME").as_deref(), Some("C:\\u"));
    assert_eq!(get("P").as_deref(), Some("C:\\u\\bin"));
    assert_eq!(get("LOOP").as_deref(), Some("%LOOP%"));
    assert_eq!(get("X").as_deref(), Some("C:\\Windows"));
}

#[test]
fn env_sync_plans_deletions() {
    let mut sync = EnvSync::new();
    let first = vec![("B".to_string(), "2".to_string()), ("A".to_string(), "1".to_string())];
    let p1 = sync.plan(&first);
    assert_eq!(p1.set, vec![("A".to_string(), "1".to_string()), ("B".to_string(), "2".to_string())]);
    assert!(p1.remove.is_empty());
    let second = vec![("B".to_string(), "3".to_string())];
    let p2 = sync.plan(&second);
    assert_eq!(p2.set, vec![("B".to_string(), "3".to_string())]);
    assert_eq!(p2.remove, vec!["A".to_string()]);
    let p3 = sync.plan(&second);
    assert!(p3.remove.is_empty());
    assert!(!p3.is_empty());
    assert!(sync.plan(&Vec::new()).remove == vec!["B".to_string()]);
}

#[test]
fn config_options_cycle() {
    let mut t = ThemePreset::default_preset();
    let labels: Vec<&str> = (0..4)
        .map(|_| {
            let l = t.label();
            t = t.cycle();
            l
        })
        .collect();
    assert_eq!(labels, vec!["毛玻璃", "云母", "不透明", "深色"]);
    assert_eq!(t, ThemePreset::FrostedGlass);
    assert_eq!(AppLayout::Grid.cycle(), AppLayout::Row);
    assert_eq!(RenderBackend::Cpu.cycle().label(), "GPU");
    assert_eq!(ElevateModifier::Shift.modifier(), Some(Modifier::Shift));
    assert_eq!(ElevateModifier::Disabled.modifier(), None);
    assert_eq!(SystemCommandKind::Shutdown.title(), "关机");
    let hk = HotkeyConfig::default_hotkey();
    assert_eq!((hk.modifiers.as_str(), hk.key.as_str(), hk.enabled), ("ctrl+alt", "space", true));
}

#[test]
fn filters_hide_names() {
    let cfg = SearchConfig::default_search();
    assert!(cfg.is_app_filtered("Uninstall Foo"));
    assert!(cfg.is_app_filtered("卸载程序"));
    assert!(!cfg.is_app_filtered("Firefox"));
    let exact = FilterRule { keyword: "Beta".to_string(), case_sensitive: true };
    assert!(exact.matches("App Beta"));
    assert!(!exact.matches("app beta"));
    assert!(!FilterRule { keyword: String::new(), case_sensitive: false }.matches("anything"));
    assert_eq!(default_filters().len(), 2);
}

#[test]
fn web_search_links() {
    assert_eq!(WebEngine::Google.search_url("a&b"), "https://www.google.com/search?q=a%26b");
    assert_eq!(percent_encode_component("喵 ~"), "%E5%96%B5%20~");
    assert_eq!(percent_encode_component("你 a"), "%E4%BD%A0%20a");
    assert_eq!(WebEngine::Duckduckgo.label(), "DuckDuckGo");
}

#[test]
fn edits_replace_in_place_unless_the_name_is_taken() {
    let mut reg = AppRegistry { apps: vec![AppInfo::manual("a", "1"), AppInfo::manual("b", "2")] };
    let mut d = reg.find("a").unwrap().clone();
    d.name = "b".to_string();
    assert!(!reg.mutate_app("a", d));
    assert_eq!(reg.apps[0].name, "a");
    let mut d = reg.find("a").unwrap().clone();
    d.name = "c".to_string();
    d.path = "9".to_string();
    assert!(reg.mutate_app("a", d));
    assert_eq!(reg.apps[0].name, "c");
    assert_eq!(reg.apps[0].path, "9");
    assert_eq!(reg.apps[1].name, "b");
    let mut d = reg.find("b").unwrap().clone();
    d.path = "3".to_string();
    assert!(reg.mutate_app("b", d));
    assert_eq!(reg.find("b").unwrap().path, "3");
    assert!(!reg.mutate_app("zzz", AppInfo::manual("zzz", "0")));
    assert_eq!(reg.apps.len(), 2);
}

#[test]
fn settings_edits_on_rules_and_commands() {
    let mut rules = default_filters();
    assert!(set_filter_keyword(&mut rules, 0, "  卸载程序 "));
    assert_eq!(rules[0].keyword, "卸载程序");
    assert!(!set_filter_keyword(&mut rules, 0, "卸载程序"));
    assert!(!set_filter_keyword(&mut rules, 9, "x"));
    assert!(toggle_filter_case(&mut rules, 1));
    assert!(rules[1].case_sensitive);
    assert!(!toggle_filter_case(&mut rules, 5));
    assert!(!add_block_word(&mut rules, "UNINSTALL"));
    assert!(!add_block_word(&mut rules, "   "));
    assert!(add_block_word(&mut rules, " Helper "));
    assert_eq!(rules.len(), 3);
    assert_eq!(rules[2].keyword, "Helper");
    assert!(!rules[2].case_sensitive);
    assert!(delete_filter(&mut rules, 0));
    assert!(!delete_filter(&mut rules, 7));
    assert_eq!(rules.len(), 2);

    assert_eq!(parse_aliases("锁屏, lock，LOCK  l ,,"), vec!["锁屏".to_string(), "lock".to_string(), "l".to_string()]);
    assert!(parse_aliases(" , ").is_empty());
    let mut cmds = default_commands();
    assert!(set_command_aliases(&mut cmds, 0, "a b"));
    assert_eq!(cmds[0].aliases, vec!["a".to_string(), "b".to_string()]);
    assert!(!set_command_aliases(&mut cmds, 0, "a,b"));
    assert_eq!(cycle_command_kind(&mut cmds, 0), Some(SystemCommandKind::Sleep));
    assert_eq!(cycle_command_kind(&mut cmds, 3), Some(SystemCommandKind::Lock));
    assert_eq!(cycle_command_kind(&mut cmds, 4), None);
    assert!(delete_command(&mut cmds, 3));
    assert_eq!(cmds.len(), 3);
    let mut browser = String::new();
    assert!(set_web_browser(&mut browser, " firefox %1 "));
    assert_eq!(browser, "firefox %1");
    assert!(!set_web_browser(&mut browser, "firefox %1"));
}

#[test]
fn manager_edits_on_applications() {
    let mut reg = AppRegistry { apps: vec![AppInfo::manual("a", "1"), AppInfo::manual("b", "2")] };
    assert!(!rename_app(&mut reg, "a", " b "));
    assert!(!rename_app(&mut reg, "a", "  "));
    assert!(!rename_app(&mut reg, "a", "a"));
    assert!(rename_app(&mut reg, "a", " c "));
    assert_eq!(reg.apps[0].name, "c");
    assert!(set_app_path(&mut reg, "c", " 9 "));
    assert_eq!(reg.apps[0].path, "9");
    assert!(!set_app_path(&mut reg, "c", "9"));
    assert!(!set_app_path(&mut reg, "zz", "9"));
    assert!(set_app_icon(&mut reg, "b", "i.png"));
    assert_eq!(reg.apps[1].icon_path.as_deref(), Some("i.png"));
    assert!(!set_app_icon(&mut reg, "b", " i.png "));
    assert!(set_app_icon(&mut reg, "b", "  "));
    assert_eq!(reg.apps[1].icon_path, None);
}
