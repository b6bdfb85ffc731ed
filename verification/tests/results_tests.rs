use meow_app_launcher::apps::{AppInfo, AppRegistry};
use meow_app_launcher::config::{default_commands, SearchConfig, WebEngine};
use meow_app_launcher::fuzzy::Score;
use meow_app_launcher::item::{item_effect, run_outcome, Action, BuiltinIcon, ItemEffect, ItemIcon, ListItem, Scored, SearchItem};
use meow_app_launcher::listing::{
    aggregate_items, browse_list, filtered_apps, first_selectable_index, list_results, move_selection, selected_item,
    BrowseSettings,
};
use meow_app_launcher::platform::{SystemCommandKind, TrayEvent};
use meow_app_launcher::listing::{Command, KeyAction};
use meow_app_launcher::platform::Key;
use meow_app_launcher::island::IslandState;
use meow_app_launcher::provider::{calc_item, cmd_query, extra_results, summarize_script, web_query};
use meow_app_launcher::config::{default_prefix, SearchMode};
use meow_app_launcher::search::{ParsedQuery, SearchEngine};
use meow_app_launcher::search::SearchMode as QueryMode;

fn titles(items: &[ListItem]) -> Vec<String> {
    items
        .iter()
        .map(|i| match i {
            ListItem::Section(s) => format!("#{s}"),
            ListItem::Item(it) => it.title.clone(),
        })
        .collect()
}

#[test]
fn app_item_subtitle_and_action() {
    let mut a = AppInfo::manual("Code", "C:/code.exe");
    let plain = SearchItem::from_app(&a);
    assert_eq!(plain.title, "Code");
    assert_eq!(plain.subtitle.as_deref(), Some("C:/code.exe"));
    assert_eq!(plain.action, Action::Launch("C:/code.exe".to_string()));
    a.tags = vec!["dev".to_string(), "编辑器".to_string()];
    let tagged = SearchItem::from_app(&a);
    assert_eq!(tagged.subtitle.as_deref(), Some("dev / 编辑器  ·  C:/code.exe"));
    assert!(matches!(tagged.icon, ItemIcon::App(_)));
}

#[test]
fn fallback_label_takes_two_chars() {
    let mut it = SearchItem::from_app(&AppInfo::manual("微信电脑版", "x"));
    assert_eq!(it.fallback_label(), "微信");
    it.title = "Q".to_string();
    assert_eq!(it.fallback_label(), "Q");
    it.title = String::new();
    assert_eq!(it.fallback_label(), "?");
    assert_eq!(BuiltinIcon::Calculator.svg_name(), "calculator");
}

#[test]
fn command_query_matches_aliases() {
    let cmds = default_commands();
    let lock = cmd_query("  LOCK ", &cmds);
    assert_eq!(lock.len(), 1);
    assert_eq!(lock[0].item.title, "锁屏");
    assert_eq!(lock[0].item.action, Action::SystemCommand(SystemCommandKind::Lock));
    // exact alias: 2 + 5 + 5 + 3, contiguous 50, at start 10, plus the command bonus 2.
    assert_eq!(lock[0].score, Score { whole: 77, span: Some(3) });
    let re = cmd_query("re", &cmds);
    assert_eq!(re.len(), 1);
    assert_eq!(re[0].item.action, Action::SystemCommand(SystemCommandKind::Restart));
    assert!(cmd_query("   ", &cmds).is_empty());
    assert_eq!(cmd_query("关机", &cmds)[0].item.title, "关机");
}

#[test]
fn web_query_builds_link() {
    let w = web_query("  hello world ", WebEngine::Baidu);
    assert_eq!(w.len(), 1);
    assert_eq!(w[0].item.title, "用百度搜索「hello world」");
    assert_eq!(w[0].item.subtitle.as_deref(), Some("https://www.baidu.com/s?wd=hello%20world"));
    assert_eq!(w[0].item.action, Action::OpenUrl("https://www.baidu.com/s?wd=hello%20world".to_string()));
    assert_eq!(w[0].score, Score { whole: 0, span: None });
    assert!(web_query(" ", WebEngine::Bing).is_empty());
}

#[test]
fn calc_item_copies_answer() {
    let c = calc_item("1+2", "3");
    assert_eq!(c.item.title, "3");
    assert_eq!(c.item.subtitle.as_deref(), Some("1+2 = 3"));
    assert_eq!(c.item.action, Action::CopyText("3".to_string()));
    assert_eq!(c.score, Score { whole: 3, span: None });
}

#[test]
fn extra_results_order() {
    let cfg = SearchConfig::default_search();
    let all = extra_results("lock", Some("42"), &cfg);
    let names: Vec<&str> = all.iter().map(|s| s.item.title.as_str()).collect();
    assert_eq!(names, vec!["42", "锁屏", "用百度搜索「lock」"]);
    assert_eq!(extra_results("zzz", None, &cfg).len(), 1);
}

#[test]
fn summarize_script_cuts_at_sixteen() {
    assert_eq!(summarize_script("  echo hi  "), "echo hi");
    assert_eq!(summarize_script("0123456789abcdefXYZ"), "0123456789abcdef…");
    assert_eq!(summarize_script("0123456789abcdef"), "0123456789abcdef");
}

fn scored(title: &str, whole: u128, action: Action) -> Scored {
    Scored::new(
        Score { whole, span: None },
        SearchItem { title: title.to_string(), subtitle: None, icon: ItemIcon::Builtin(BuiltinIcon::Web), action },
    )
}

#[test]
fn aggregate_puts_commands_last() {
    let input = vec![
        scored("b", 5, Action::Launch("b".into())),
        scored("shutdown", 90, Action::SystemCommand(SystemCommandKind::Shutdown)),
        scored("a", 5, Action::Launch("a".into())),
        scored("top", 9, Action::OpenUrl("u".into())),
        scored("lock", 95, Action::SystemCommand(SystemCommandKind::Lock)),
    ];
    let out = aggregate_items(input);
    assert_eq!(titles(&out), vec!["top", "a", "b", "#指令", "lock", "shutdown"]);
    assert_eq!(first_selectable_index(&out), Some(0));
}

#[test]
fn aggregate_cuts_ordinary_results() {
    let input: Vec<Scored> = (0..40).map(|i| scored(&format!("{i:02}"), i, Action::Launch("x".into()))).collect();
    let out = aggregate_items(input);
    assert_eq!(out.len(), 30);
    assert_eq!(titles(&out)[0], "39");
    assert_eq!(titles(&out)[29], "10");
    assert!(aggregate_items(Vec::new()).is_empty());
}

fn entry(name: &str, last_used: u64, launches: u32, favorite: bool) -> AppInfo {
    let mut a = AppInfo::manual(name, "p");
    a.last_used = last_used;
    a.launch_count = launches;
    a.favorite = favorite;
    a
}

fn browse_registry() -> AppRegistry {
    AppRegistry {
        apps: vec![
            entry("Alpha", 10, 1, false),
            entry("Beta", 30, 5, true),
            entry("卸载器", 50, 9, true),
            entry("微信", 0, 0, false),
        ],
    }
}

#[test]
fn browse_list_groups() {
    let reg = browse_registry();
    let cfg = SearchConfig::default_search();
    let all = BrowseSettings { show_recent: true, show_favorites: true, show_frequent: true, show_all: true };
    let out = browse_list(&reg, &cfg, all);
    assert_eq!(
        titles(&out),
        vec![
            "#最近打开", "Beta", "Alpha", "#收藏", "Beta", "#最常用", "Beta", "Alpha", "#A", "Alpha", "#B",
            "Beta", "#W", "微信",
        ]
    );
    let only_all = BrowseSettings { show_recent: false, show_favorites: false, show_frequent: false, show_all: true };
    assert_eq!(titles(&browse_list(&reg, &cfg, only_all)), vec!["#A", "Alpha", "#B", "Beta", "#W", "微信"]);
    let none = BrowseSettings { show_recent: false, show_favorites: false, show_frequent: false, show_all: false };
    assert!(browse_list(&reg, &cfg, none).is_empty());
}

#[test]
fn recent_group_keeps_eight() {
    let apps: Vec<AppInfo> = (1..=10).map(|i| entry(&format!("app{i}"), i, 0, false)).collect();
    let reg = AppRegistry { apps };
    let cfg = SearchConfig::default_search();
    let recent = BrowseSettings { show_recent: true, show_favorites: false, show_frequent: false, show_all: false };
    let out = browse_list(&reg, &cfg, recent);
    assert_eq!(out.len(), 9);
    assert_eq!(titles(&out)[1], "app10");
    assert_eq!(titles(&out)[8], "app3");
}

#[test]
fn selection_moves_over_headings() {
    let item = |t: &str| ListItem::Item(SearchItem::from_app(&AppInfo::manual(t, "p")));
    let items = vec![ListItem::Section("s".into()), item("a"), item("b"), ListItem::Section("t".into()), item("c")];
    assert_eq!(first_selectable_index(&items), Some(1));
    assert_eq!(move_selection(&items, 1, 1), 2);
    assert_eq!(move_selection(&items, 2, 1), 4);
    assert_eq!(move_selection(&items, 4, 1), 1);
    assert_eq!(move_selection(&items, 1, -1), 4);
    assert_eq!(move_selection(&items, 4, -2), 2);
    assert_eq!(move_selection(&items, 2, 5), 2);
    assert_eq!(move_selection(&Vec::new(), 3, 1), 3);
    let headings = vec![ListItem::Section("x".into())];
    assert_eq!(move_selection(&headings, 0, 1), 0);
    assert_eq!(first_selectable_index(&headings), None);
}

#[test]
fn list_results_for_queries() {
    let reg = browse_registry();
    let mut engine = SearchEngine::new();
    engine.sync(&reg.apps);
    let cfg = SearchConfig::default_search();
    let show = BrowseSettings { show_recent: false, show_favorites: false, show_frequent: false, show_all: true };
    assert_eq!(titles(&list_results(&engine, &reg, &cfg, show, "  ", None)), vec!["#A", "Alpha", "#B", "Beta", "#W", "微信"]);
    let lock = list_results(&engine, &reg, &cfg, show, "lock", None);
    assert_eq!(titles(&lock), vec!["用百度搜索「lock」", "#指令", "锁屏"]);
    let beta = list_results(&engine, &reg, &cfg, show, "beta", Some("7"));
    assert_eq!(titles(&beta), vec!["Beta", "7", "用百度搜索「beta」"]);
    let tag = list_results(&engine, &reg, &cfg, show, "t: x", None);
    assert!(tag.is_empty());
}

fn item(title: &str, icon: ItemIcon, action: Action) -> SearchItem {
    SearchItem { title: title.to_string(), subtitle: None, icon, action }
}

#[test]
fn running_items() {
    let app = AppInfo::manual("Notes", "C:/notes.exe");
    let launch = item("Notes", ItemIcon::App(app), Action::Launch("C:/notes.exe".to_string()));
    assert_eq!(item_effect(&launch, "ff"), ItemEffect::Launch("C:/notes.exe".to_string()));
    let done = run_outcome(&launch, true);
    assert_eq!(done.report.as_deref(), Some("Notes"));
    assert_eq!(done.record.as_deref(), Some("Notes"));
    let failed = run_outcome(&launch, false);
    assert_eq!(failed.report, None);
    assert_eq!(failed.record, None);
    let web = item("搜索", ItemIcon::Builtin(BuiltinIcon::Web), Action::OpenUrl("https://x".to_string()));
    assert_eq!(
        item_effect(&web, "firefox %1"),
        ItemEffect::OpenUrl { url: "https://x".to_string(), browser: "firefox %1".to_string() }
    );
    assert_eq!(run_outcome(&web, true).record, None);
    let copy = item("= 3", ItemIcon::Builtin(BuiltinIcon::Calculator), Action::CopyText("3".to_string()));
    assert_eq!(item_effect(&copy, ""), ItemEffect::Copy("3".to_string()));
    assert_eq!(run_outcome(&copy, true).report.as_deref(), Some("已复制 3"));
    let lock = item("锁屏", ItemIcon::Builtin(BuiltinIcon::Power), Action::SystemCommand(SystemCommandKind::Lock));
    assert_eq!(item_effect(&lock, ""), ItemEffect::System(SystemCommandKind::Lock));
    assert_eq!(run_outcome(&lock, true).report.as_deref(), Some("锁屏"));
}

#[test]
fn selection_reads_items_only() {
    let items = vec![
        ListItem::Section("最近打开".to_string()),
        ListItem::Item(item("a", ItemIcon::Builtin(BuiltinIcon::Web), Action::OpenUrl("u".to_string()))),
    ];
    assert!(selected_item(&items, 0).is_none());
    assert_eq!(selected_item(&items, 1).map(|i| i.title.as_str()), Some("a"));
    assert!(selected_item(&items, 2).is_none());
}

#[test]
fn default_prefixes_select_their_mode() {
    assert_eq!(default_prefix(SearchMode::Tag), "t: ");
    assert_eq!(default_prefix(SearchMode::Initial), "i: ");
    assert_eq!(default_prefix(SearchMode::Name), "");
    assert_eq!(ParsedQuery::parse(default_prefix(SearchMode::Tag)).mode, QueryMode::Tag);
    assert_eq!(ParsedQuery::parse(default_prefix(SearchMode::Initial)).mode, QueryMode::Initial);
    assert_eq!(ParsedQuery::parse(default_prefix(SearchMode::Name)).mode, QueryMode::Name);
}

#[test]
fn manager_filter_and_order() {
    let mut alpha = AppInfo::manual("Alpha", "a");
    alpha.tags = vec!["Editor".to_string()];
    let reg = AppRegistry {
        apps: vec![AppInfo::manual("Zed", "z"), AppInfo::manual("微信", "w"), alpha, AppInfo::manual("beta", "b")],
    };
    let names = |v: Vec<AppInfo>| v.into_iter().map(|a| a.name).collect::<Vec<String>>();
    assert_eq!(names(filtered_apps(&reg, "")), vec!["Alpha", "beta", "微信", "Zed"]);
    assert_eq!(names(filtered_apps(&reg, "  ED ")), vec!["Alpha", "Zed"]);
    assert_eq!(names(filtered_apps(&reg, "微")), vec!["微信"]);
    assert!(filtered_apps(&reg, "nothing").is_empty());
}

#[test]
fn tray_entries_and_commands() {
    let shown = meow_app_launcher::listing::tray_menu(true);
    let labels: Vec<&str> = shown.iter().map(|m| m.label.as_str()).collect();
    assert_eq!(labels, vec!["隐藏", "扫描应用", "设置", "应用管理", "重启", "退出"]);
    assert!(shown.iter().all(|m| m.enabled));
    assert_eq!(meow_app_launcher::listing::tray_menu(false)[0].label, "显示");
    let cmd = |e| meow_app_launcher::listing::tray_command(e);
    assert_eq!(cmd(TrayEvent::LeftClick), Some(Command::ToggleLauncher));
    assert_eq!(cmd(TrayEvent::Menu(0)), Some(Command::ToggleLauncher));
    assert_eq!(cmd(TrayEvent::Menu(1)), Some(Command::Rescan));
    assert_eq!(cmd(TrayEvent::Menu(2)), Some(Command::OpenSettings));
    assert_eq!(cmd(TrayEvent::Menu(3)), Some(Command::OpenAppManager));
    assert_eq!(cmd(TrayEvent::Menu(4)), Some(Command::Restart));
    assert_eq!(cmd(TrayEvent::Menu(5)), Some(Command::Quit));
    assert_eq!(cmd(TrayEvent::Menu(6)), None);
}

#[test]
fn launcher_keys() {
    let act = |k, st, g| meow_app_launcher::listing::key_action(k, st, g);
    assert_eq!(act(Key::Enter, IslandState::Island, false), KeyAction::RunSelected);
    assert_eq!(act(Key::Escape, IslandState::Expanded, false), KeyAction::Collapse);
    assert_eq!(act(Key::Escape, IslandState::Island, false), KeyAction::Hide);
    assert_eq!(act(Key::Backspace, IslandState::Island, true), KeyAction::DeleteBack);
    assert_eq!(act(Key::Delete, IslandState::Island, true), KeyAction::DeleteForward);
    assert_eq!(act(Key::Up, IslandState::Expanded, false), KeyAction::MoveRows(-1));
    assert_eq!(act(Key::Down, IslandState::Expanded, true), KeyAction::MoveRows(1));
    assert_eq!(act(Key::Left, IslandState::Expanded, false), KeyAction::Ignore);
    assert_eq!(act(Key::Left, IslandState::Expanded, true), KeyAction::MoveColumns(-1));
    assert_eq!(act(Key::Right, IslandState::Expanded, true), KeyAction::MoveColumns(1));
    assert_eq!(act(Key::Tab, IslandState::Expanded, true), KeyAction::Ignore);
}
