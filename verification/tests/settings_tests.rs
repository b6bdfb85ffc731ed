use meow_app_launcher::pages::build_pages;
use meow_app_launcher::settings::{RowId, RowKind, RowValue, SettingsRow};
use meow_app_launcher::settings_data::{
    apply_data_value, data_rows, data_value, dirty_data_ids, find_row, restore_data_row, SettingsModel,
};

#[test]
fn data_row_table_order_and_metadata() {
    let rows = data_rows();
    assert_eq!(rows.len(), 42);
    assert_eq!(rows[0].id, RowId::Theme);
    assert_eq!((rows[0].label, rows[0].page, rows[0].group), ("主题", 0, "外观"));
    assert_eq!(rows[29].id, RowId::Easing);
    assert_eq!(rows[30].id, RowId::SpringDuration(0));
    assert_eq!(rows[31].id, RowId::SpringBounce(0));
    assert_eq!(rows[41].id, RowId::SpringBounce(5));
    assert_eq!((rows[41].label, rows[41].page, rows[41].group, rows[41].index), ("弹性", 2, "过渡参数", 5));
    let fps = rows.iter().find(|d| d.id == RowId::AnimFps).unwrap();
    match &fps.kind {
        RowKind::Choice { options } => assert_eq!(options.len(), 6),
        _ => panic!("the frame-rate row cycles through options"),
    }
    let icon = find_row(RowId::IconSize).unwrap();
    assert_eq!(icon.stepper_meta(), Some((24, 64, 2, "px")));
    assert!(find_row(RowId::Reset).is_none());
    assert!(find_row(RowId::SpringDuration(6)).is_none());
}

#[test]
fn writes_read_back_clamped() {
    let mut cfg = SettingsModel::defaults();
    assert_eq!(data_value(&cfg, RowId::IconSize), Some(RowValue::Num(36)));
    assert!(apply_data_value(&mut cfg, RowId::IconSize, RowValue::Num(100)));
    assert_eq!(data_value(&cfg, RowId::IconSize), Some(RowValue::Num(64)));
    // Clamped to the value it already has: nothing changes.
    assert!(!apply_data_value(&mut cfg, RowId::IconSize, RowValue::Num(70)));
    // A value of another kind is ignored.
    assert!(!apply_data_value(&mut cfg, RowId::IconSize, RowValue::Bool(true)));
    assert!(apply_data_value(&mut cfg, RowId::Theme, RowValue::Index(2)));
    assert_eq!(cfg.theme, 2);
    assert!(!apply_data_value(&mut cfg, RowId::Theme, RowValue::Index(9)));
    assert!(!apply_data_value(&mut cfg, RowId::Theme, RowValue::Index(2)));
    assert!(apply_data_value(&mut cfg, RowId::ShowRecent, RowValue::Bool(true)));
    assert!(cfg.show_recent);
    assert!(apply_data_value(&mut cfg, RowId::AnimFps, RowValue::Index(3)));
    assert_eq!(cfg.anim_fps, 90);
    assert_eq!(data_value(&cfg, RowId::AnimFps), Some(RowValue::Index(3)));
    // Past the last option the frame rate falls back to the display's own.
    assert!(apply_data_value(&mut cfg, RowId::AnimFps, RowValue::Index(9)));
    assert_eq!(cfg.anim_fps, 0);
    assert!(apply_data_value(&mut cfg, RowId::SpringBounce(2), RowValue::Num(500)));
    assert_eq!(cfg.springs.expand.bounce, 95);
    assert_eq!(cfg.springs.expand.duration, 62);
    assert!(apply_data_value(&mut cfg, RowId::InputRatio, RowValue::Num(5)));
    assert_eq!(cfg.input_ratio, 20);
    assert!(!apply_data_value(&mut cfg, RowId::Reset, RowValue::Bool(true)));
    assert_eq!(data_value(&cfg, RowId::Reset), None);
}

#[test]
fn dirty_rows_and_restore() {
    let mut cfg = SettingsModel::defaults();
    assert!(dirty_data_ids(&cfg).is_empty());
    assert!(apply_data_value(&mut cfg, RowId::SpringDuration(1), RowValue::Num(120)));
    assert!(apply_data_value(&mut cfg, RowId::IconSize, RowValue::Num(40)));
    assert_eq!(dirty_data_ids(&cfg), vec![RowId::IconSize, RowId::SpringDuration(1)]);
    assert!(restore_data_row(&mut cfg, RowId::IconSize));
    assert_eq!(cfg.icon_size, 36);
    assert!(!restore_data_row(&mut cfg, RowId::IconSize));
    assert_eq!(dirty_data_ids(&cfg), vec![RowId::SpringDuration(1)]);
    assert!(restore_data_row(&mut cfg, RowId::SpringDuration(1)));
    assert_eq!(cfg.springs.dismiss.duration, 40);
    assert!(dirty_data_ids(&cfg).is_empty());
    assert!(!restore_data_row(&mut cfg, RowId::Reset));
}

#[test]
fn choice_text_names_the_option() {
    let mut cfg = SettingsModel::defaults();
    let theme = find_row(RowId::Theme).unwrap();
    assert_eq!(theme.choice_text(&cfg), "毛玻璃");
    cfg.theme = 3;
    assert_eq!(theme.choice_text(&cfg), "深色");
    cfg.theme = 7;
    assert_eq!(theme.choice_text(&cfg), "?");
    let icon = find_row(RowId::IconSize).unwrap();
    assert_eq!(icon.choice_text(&cfg), "");
    assert_eq!(icon.value(&cfg), RowValue::Num(36));
}

fn titles(groups: &[meow_app_launcher::settings::SettingsGroup]) -> Vec<&str> {
    groups.iter().map(|g| g.title.as_str()).collect()
}

#[test]
fn pages_from_default_settings() {
    let cfg = SettingsModel::defaults();
    let pages = build_pages(&cfg, false, "1.2.3");
    let page_titles: Vec<&str> = pages.iter().map(|p| p.title.as_str()).collect();
    assert_eq!(page_titles, vec!["常规", "灵动岛", "弹簧", "应用", "关于"]);
    assert_eq!(titles(&pages[0].groups), vec!["外观", "热键", "显示", "Web 搜索", "系统", "指令模块", "维护"]);
    assert_eq!(titles(&pages[1].groups), vec!["几何", "行为"]);
    assert_eq!(titles(&pages[2].groups), vec!["过渡参数"]);
    let hotkey = &pages[0].groups[1];
    assert_eq!(hotkey.rows.len(), 3);
    match hotkey.rows.last().unwrap() {
        SettingsRow::Button { id, label } => {
            assert_eq!(*id, RowId::HotkeyRecord);
            assert_eq!(label, "重新录制热键 · ctrl+alt+space");
        }
        _ => panic!("the hotkey group ends with the recording button"),
    }
    match &pages[0].groups[3].rows[0] {
        SettingsRow::Input { id, value, .. } => {
            assert_eq!(*id, RowId::WebBrowser);
            assert_eq!(value, "");
        }
        _ => panic!("the web-search group starts with the browser field"),
    }
    match &pages[0].groups[5].rows[3] {
        SettingsRow::Command { index, aliases, .. } => {
            assert_eq!(*index, 3);
            assert_eq!(aliases, "重启, restart, reboot");
        }
        _ => panic!("one row per system command"),
    }
    match &pages[2].groups[0].rows[0] {
        SettingsRow::Stepper { label, value, min, max, unit, .. } => {
            assert_eq!(label, "唤出 时长");
            assert_eq!((*value, *min, *max, unit.as_str()), (55, 5, 200, "ms"));
        }
        _ => panic!("spring rows are steppers"),
    }
    assert_eq!(pages[2].groups[0].rows.len(), 12);
    match &pages[0].groups[0].rows[0] {
        SettingsRow::Choice { label, value, .. } => assert_eq!((label.as_str(), value.as_str()), ("主题", "毛玻璃")),
        _ => panic!("the theme row is a choice"),
    }
    assert_eq!(titles(&pages[3].groups), vec!["管理", "关键词过滤"]);
    assert_eq!(pages[3].groups[1].rows.len(), 3);
    match &pages[4].groups[0].rows[0] {
        SettingsRow::Label { label, value } => assert_eq!((label.as_str(), value.as_str()), ("版本", "1.2.3")),
        _ => panic!("the about page starts with the version"),
    }
}

#[test]
fn pages_while_recording_and_without_modifiers() {
    let mut cfg = SettingsModel::defaults();
    let pages = build_pages(&cfg, true, "0");
    match pages[0].groups[1].rows.last().unwrap() {
        SettingsRow::Button { label, .. } => assert_eq!(label, "按下新组合键··· (Esc 取消)"),
        _ => panic!("recording button"),
    }
    cfg.hotkey_modifiers = String::new();
    cfg.hotkey_key = "f1".to_string();
    cfg.show_all = false;
    let pages = build_pages(&cfg, false, "0");
    match pages[0].groups[1].rows.last().unwrap() {
        SettingsRow::Button { label, .. } => assert_eq!(label, "重新录制热键 · f1"),
        _ => panic!("recording button"),
    }
    match &pages[0].groups[2].rows[3] {
        SettingsRow::Switch { id, value, .. } => assert_eq!((*id, *value), (RowId::ShowAll, false)),
        _ => panic!("the show-all row is a switch"),
    }
}
