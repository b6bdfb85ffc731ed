//! The configuration-backed rows of the settings window: a table that says,
//! for every switch, stepper and cycling choice, its label, page, group and
//! adjustment, and which setting of the model it reads and writes. Pages,
//! hit handling, the "changed from default" marks and restoring defaults all
//! go through this one table.

use vstd::prelude::*;
use crate::config::{
    default_commands, default_filters, is_default_commands, is_default_filters, CommandEntry, FilterRule,
    HotkeyConfig,
};
use crate::island::IslandTransition;
use crate::settings::{
    is_data_row, spec_is_data_row, spec_spring_at, spring_at, write_bool, write_idx, RowId, RowKind,
    RowValue,
};

verus! {

/// Duration (hundredths of a second) and bounce (percent) of one island
/// transition.
#[derive(Debug, Clone, Copy, PartialEq, Eq, Structural)]
pub struct SpringTune {
    pub duration: i32,
    pub bounce: i32,
}

/// The spring parameters of the six island transitions.
#[derive(Debug, Clone, Copy, PartialEq, Eq, Structural)]
pub struct SpringTable {
    pub summon: SpringTune,
    pub dismiss: SpringTune,
    pub expand: SpringTune,
    pub collapse: SpringTune,
    pub summon_expanded: SpringTune,
    pub dismiss_expanded: SpringTune,
}

impl SpringTable {
    /// The parameters of transition `t`.
    pub open spec fn tune(self, t: IslandTransition) -> SpringTune {
        match t {
            IslandTransition::Summon => self.summon,
            IslandTransition::Dismiss => self.dismiss,
            IslandTransition::Expand => self.expand,
            IslandTransition::Collapse => self.collapse,
            IslandTransition::SummonExpanded => self.summon_expanded,
            IslandTransition::DismissExpanded => self.dismiss_expanded,
        }
    }

    /// The table with the parameters of transition `t` replaced by `x`.
    pub open spec fn with_tune(self, t: IslandTransition, x: SpringTune) -> SpringTable {
        match t {
            IslandTransition::Summon => SpringTable { summon: x, ..self },
            IslandTransition::Dismiss => SpringTable { dismiss: x, ..self },
            IslandTransition::Expand => SpringTable { expand: x, ..self },
            IslandTransition::Collapse => SpringTable { collapse: x, ..self },
            IslandTransition::SummonExpanded => SpringTable { summon_expanded: x, ..self },
            IslandTransition::DismissExpanded => SpringTable { dismiss_expanded: x, ..self },
        }
    }

    /// The parameters of transition `t`.
    pub fn get(&self, t: IslandTransition) -> (r: SpringTune)
        ensures
            r == self.tune(t),
    {
        match t {
            IslandTransition::Summon => self.summon,
            IslandTransition::Dismiss => self.dismiss,
            IslandTransition::Expand => self.expand,
            IslandTransition::Collapse => self.collapse,
            IslandTransition::SummonExpanded => self.summon_expanded,
            IslandTransition::DismissExpanded => self.dismiss_expanded,
        }
    }

    /// Replaces the parameters of transition `t`.
    pub fn set(&mut self, t: IslandTransition, x: SpringTune)
        ensures
            *final(self) == old(self).with_tune(t, x),
    {
        match t {
            IslandTransition::Summon => self.summon = x,
            IslandTransition::Dismiss => self.dismiss = x,
            IslandTransition::Expand => self.expand = x,
            IslandTransition::Collapse => self.collapse = x,
            IslandTransition::SummonExpanded => self.summon_expanded = x,
            IslandTransition::DismissExpanded => self.dismiss_expanded = x,
        }
    }
}

/// The default spring parameters.
pub open spec fn default_springs() -> SpringTable {
    SpringTable {
        summon: SpringTune { duration: 55, bounce: 28 },
        dismiss: SpringTune { duration: 40, bounce: 0 },
        expand: SpringTune { duration: 62, bounce: 14 },
        collapse: SpringTune { duration: 48, bounce: 10 },
        summon_expanded: SpringTune { duration: 74, bounce: 22 },
        dismiss_expanded: SpringTune { duration: 52, bounce: 4 },
    }
}

/// The settings that the settings window shows, as plain values.
///
/// A cycling choice is held as the position of its option in the option list
/// of its row; lengths are whole pixels and ratios whole percents, and spring
/// durations hundredths of a second.
#[derive(Debug, Clone)]
pub struct SettingsModel {
    pub theme: usize,
    pub hotkey_enabled: bool,
    pub elevate_modifier: usize,
    pub show_recent: bool,
    pub show_favorites: bool,
    pub show_frequent: bool,
    pub show_all: bool,
    pub icon_size: i32,
    pub search_mode: usize,
    pub layout: usize,
    pub settings_anim: bool,
    pub web_engine: usize,
    pub auto_start: bool,
    pub render_backend: usize,
    pub island_w: i32,
    pub island_h: i32,
    pub island_x: i32,
    pub island_y: i32,
    pub expanded_w: i32,
    pub expanded_h: i32,
    pub expanded_r: i32,
    pub input_ratio: i32,
    pub margin: i32,
    pub squash: i32,
    pub auto_morph: bool,
    pub draggable: bool,
    pub reduce_motion: bool,
    /// Animation frame rate in Hz, 0 for the display's own rate.
    pub anim_fps: u32,
    pub motion_mode: usize,
    pub easing: usize,
    pub springs: SpringTable,
    /// Hotkey modifiers as written in the configuration ("ctrl+alt").
    pub hotkey_modifiers: String,
    /// Hotkey key as written in the configuration ("space").
    pub hotkey_key: String,
    /// Custom browser for web searches (empty for the system default).
    pub web_browser: String,
    pub commands: Vec<CommandEntry>,
    pub filters: Vec<FilterRule>,
}

impl SettingsModel {
    /// The default settings: every data row at its default value, the
    /// Ctrl+Alt+Space hotkey, the system browser, the default system
    /// commands and filter keywords.
    pub fn defaults() -> (r: SettingsModel)
        ensures
            forall|id: RowId| spec_is_data_row(id) ==> #[trigger] spec_row_value(r, id) == spec_default_value(id),
            r.hotkey_modifiers@ == "ctrl+alt"@,
            r.hotkey_key@ == "space"@,
            r.web_browser@ == Seq::<char>::empty(),
            is_default_commands(r.commands@),
            is_default_filters(r.filters@),
    {
        let hotkey = HotkeyConfig::default_hotkey();
        SettingsModel {
            theme: 0,
            hotkey_enabled: true,
            elevate_modifier: 1,
            show_recent: false,
            show_favorites: false,
            show_frequent: false,
            show_all: true,
            icon_size: 36,
            search_mode: 0,
            layout: 1,
            settings_anim: true,
            web_engine: 0,
            auto_start: false,
            render_backend: 0,
            island_w: 300,
            island_h: 46,
            island_x: 50,
            island_y: 14,
            expanded_w: 560,
            expanded_h: 268,
            expanded_r: 34,
            input_ratio: 72,
            margin: 16,
            squash: 34,
            auto_morph: true,
            draggable: true,
            reduce_motion: false,
            anim_fps: 0,
            motion_mode: 0,
            easing: 3,
            springs: SpringTable {
                summon: SpringTune { duration: 55, bounce: 28 },
                dismiss: SpringTune { duration: 40, bounce: 0 },
                expand: SpringTune { duration: 62, bounce: 14 },
                collapse: SpringTune { duration: 48, bounce: 10 },
                summon_expanded: SpringTune { duration: 74, bounce: 22 },
                dismiss_expanded: SpringTune { duration: 52, bounce: 4 },
            },
            hotkey_modifiers: hotkey.modifiers,
            hotkey_key: hotkey.key,
            web_browser: String::new(),
            commands: default_commands(),
            filters: default_filters(),
        }
    }
}

/// The frame rates offered by the frame-rate row (0: the display's rate).
pub open spec fn fps_step(i: usize) -> u32 {
    if i == 0 {
        0
    } else if i == 1 {
        30
    } else if i == 2 {
        60
    } else if i == 3 {
        90
    } else if i == 4 {
        120
    } else if i == 5 {
        144
    } else {
        0
    }
}

/// Position of frame rate `f` among the offered ones (the first when it is
/// not offered).
pub open spec fn fps_position(f: u32) -> usize {
    if f == 30 {
        1
    } else if f == 60 {
        2
    } else if f == 90 {
        3
    } else if f == 120 {
        4
    } else if f == 144 {
        5
    } else {
        0
    }
}

fn fps_step_of(i: usize) -> (r: u32)
    ensures
        r == fps_step(i),
{
    if i == 0 {
        0
    } else if i == 1 {
        30
    } else if i == 2 {
        60
    } else if i == 3 {
        90
    } else if i == 4 {
        120
    } else if i == 5 {
        144
    } else {
        0
    }
}

fn fps_position_of(f: u32) -> (r: usize)
    ensures
        r == fps_position(f),
{
    if f == 30 {
        1
    } else if f == 60 {
        2
    } else if f == 90 {
        3
    } else if f == 120 {
        4
    } else if f == 144 {
        5
    } else {
        0
    }
}

/// `n` brought into `lo..=hi`.
pub open spec fn clamp(n: i32, lo: i32, hi: i32) -> i32 {
    if n < lo {
        lo
    } else if n > hi {
        hi
    } else {
        n
    }
}

fn clamp_i32(n: i32, lo: i32, hi: i32) -> (r: i32)
    ensures
        r == clamp(n, lo, hi),
{
    if n < lo {
        lo
    } else if n > hi {
        hi
    } else {
        n
    }
}

/// How a row is adjusted, as text and numbers.
pub enum RowKindView {
    Switch,
    Stepper { min: i32, max: i32, step: i32, unit: Seq<char> },
    Choice { options: Seq<Seq<char>> },
}

/// A table entry, as text and numbers.
pub struct RowDescView {
    pub id: RowId,
    pub label: Seq<char>,
    pub page: usize,
    pub group: Seq<char>,
    pub index: usize,
    pub kind: RowKindView,
}

impl View for RowKind {
    type V = RowKindView;

    open spec fn view(&self) -> RowKindView {
        match self {
            RowKind::Switch => RowKindView::Switch,
            RowKind::Stepper { min, max, step, unit } => RowKindView::Stepper {
                min: *min,
                max: *max,
                step: *step,
                unit: unit@,
            },
            RowKind::Choice { options } => RowKindView::Choice {
                options: options@.map_values(|s: &'static str| s@),
            },
        }
    }
}

/// An entry of the table of configuration-backed rows.
#[derive(Debug, Clone)]
pub struct RowDesc {
    pub id: RowId,
    pub label: &'static str,
    /// Page: 0 general, 1 island, 2 springs.
    pub page: usize,
    pub group: &'static str,
    /// Spring slot of a spring row, 0 otherwise.
    pub index: usize,
    pub kind: RowKind,
}

impl View for RowDesc {
    type V = RowDescView;

    open spec fn view(&self) -> RowDescView {
        RowDescView {
            id: self.id,
            label: self.label@,
            page: self.page,
            group: self.group@,
            index: self.index,
            kind: self.kind@,
        }
    }
}

/// Spring slot of data row `id`.
pub open spec fn spec_row_index(id: RowId) -> usize {
    match id {
        RowId::SpringDuration(i) | RowId::SpringBounce(i) => i as usize,
        _ => 0,
    }
}

/// Label of data row `id`.
pub open spec fn spec_row_label(id: RowId) -> Seq<char> {
    match id {
        RowId::Theme => "主题"@,
        RowId::HotkeyEnabled => "启用全局热键"@,
        RowId::ElevateModifier => "提权启动修饰键"@,
        RowId::ShowRecent => "显示最近打开"@,
        RowId::ShowFavorites => "显示收藏"@,
        RowId::ShowFrequent => "显示最常用"@,
        RowId::ShowAll => "始终显示全部"@,
        RowId::IconSize => "图标大小"@,
        RowId::SearchMode => "默认模式"@,
        RowId::AppLayout => "结果排版"@,
        RowId::SettingsAnim => "配置面板动效"@,
        RowId::WebEngine => "搜索引擎"@,
        RowId::AutoStart => "开机自启"@,
        RowId::RenderBackend => "渲染后端"@,
        RowId::IslandW => "胶囊宽"@,
        RowId::IslandH => "胶囊高"@,
        RowId::IslandX => "水平锚点"@,
        RowId::IslandY => "垂直锚点"@,
        RowId::ExpandedW => "展开宽"@,
        RowId::ExpandedH => "展开高"@,
        RowId::ExpandedR => "展开圆角"@,
        RowId::InputRatio => "输入槽占比"@,
        RowId::Margin => "安全边距"@,
        RowId::Squash => "收起压扁"@,
        RowId::AutoMorph => "输入自动展开"@,
        RowId::Draggable => "允许拖拽定位"@,
        RowId::ReduceMotion => "减少动效"@,
        RowId::AnimFps => "动画帧率"@,
        RowId::MotionMode => "运动引擎"@,
        RowId::Easing => "缓动曲线"@,
        RowId::SpringDuration(_) => "时长"@,
        RowId::SpringBounce(_) => "弹性"@,
        _ => Seq::empty(),
    }
}

/// Page (general, island, springs) of data row `id`.
pub open spec fn spec_row_page(id: RowId) -> usize {
    match id {
        RowId::Theme | RowId::HotkeyEnabled | RowId::ElevateModifier | RowId::ShowRecent
        | RowId::ShowFavorites | RowId::ShowFrequent | RowId::ShowAll | RowId::IconSize
        | RowId::SearchMode | RowId::AppLayout | RowId::SettingsAnim | RowId::WebEngine
        | RowId::AutoStart | RowId::RenderBackend => 0,
        RowId::IslandW | RowId::IslandH | RowId::IslandX | RowId::IslandY | RowId::ExpandedW
        | RowId::ExpandedH | RowId::ExpandedR | RowId::InputRatio | RowId::Margin | RowId::Squash
        | RowId::AutoMorph | RowId::Draggable | RowId::ReduceMotion | RowId::AnimFps
        | RowId::MotionMode | RowId::Easing => 1,
        _ => 2,
    }
}

/// Group title of data row `id`.
pub open spec fn spec_row_group(id: RowId) -> Seq<char> {
    match id {
        RowId::Theme => "外观"@,
        RowId::HotkeyEnabled | RowId::ElevateModifier => "热键"@,
        RowId::ShowRecent | RowId::ShowFavorites | RowId::ShowFrequent | RowId::ShowAll
        | RowId::IconSize | RowId::SearchMode | RowId::AppLayout | RowId::SettingsAnim => "显示"@,
        RowId::WebEngine => "Web 搜索"@,
        RowId::AutoStart | RowId::RenderBackend => "系统"@,
        RowId::IslandW | RowId::IslandH | RowId::IslandX | RowId::IslandY | RowId::ExpandedW
        | RowId::ExpandedH | RowId::ExpandedR | RowId::InputRatio | RowId::Margin | RowId::Squash => "几何"@,
        RowId::AutoMorph | RowId::Draggable | RowId::ReduceMotion | RowId::AnimFps
        | RowId::MotionMode | RowId::Easing => "行为"@,
        RowId::SpringDuration(_) | RowId::SpringBounce(_) => "过渡参数"@,
        _ => Seq::empty(),
    }
}

/// How data row `id` is adjusted.
pub open spec fn spec_row_kind(id: RowId) -> RowKindView {
    match id {
        RowId::HotkeyEnabled | RowId::ShowRecent | RowId::ShowFavorites | RowId::ShowFrequent
        | RowId::ShowAll | RowId::SettingsAnim | RowId::AutoStart | RowId::AutoMorph
        | RowId::Draggable | RowId::ReduceMotion => RowKindView::Switch,
        RowId::Theme => RowKindView::Choice { options: seq!["毛玻璃"@, "云母"@, "不透明"@, "深色"@] },
        RowId::ElevateModifier => RowKindView::Choice { options: seq![
            "关闭"@, "Shift"@, "Ctrl"@, "Alt"@, "Win"@
        ] },
        RowId::IconSize => RowKindView::Stepper { min: 24, max: 64, step: 2, unit: "px"@ },
        RowId::SearchMode => RowKindView::Choice { options: seq!["名称"@, "标签 t:"@, "首字母 i:"@] },
        RowId::AppLayout => RowKindView::Choice { options: seq!["网格"@, "列表"@] },
        RowId::WebEngine => RowKindView::Choice { options: seq![
            "百度"@, "必应"@, "搜狗"@, "谷歌"@, "DuckDuckGo"@
        ] },
        RowId::RenderBackend => RowKindView::Choice { options: seq!["CPU"@, "GPU"@] },
        RowId::IslandW => RowKindView::Stepper { min: 160, max: 640, step: 4, unit: "px"@ },
        RowId::IslandH => RowKindView::Stepper { min: 32, max: 80, step: 2, unit: "px"@ },
        RowId::IslandX => RowKindView::Stepper { min: 2, max: 98, step: 1, unit: "%"@ },
        RowId::IslandY => RowKindView::Stepper { min: 2, max: 98, step: 1, unit: "%"@ },
        RowId::ExpandedW => RowKindView::Stepper { min: 280, max: 900, step: 10, unit: "px"@ },
        RowId::ExpandedH => RowKindView::Stepper { min: 160, max: 720, step: 8, unit: "px"@ },
        RowId::ExpandedR => RowKindView::Stepper { min: 8, max: 48, step: 2, unit: "px"@ },
        RowId::InputRatio => RowKindView::Stepper { min: 20, max: 100, step: 1, unit: "%"@ },
        RowId::Margin => RowKindView::Stepper { min: 0, max: 80, step: 2, unit: "px"@ },
        RowId::Squash => RowKindView::Stepper { min: 5, max: 100, step: 1, unit: "%"@ },
        RowId::AnimFps => RowKindView::Choice { options: seq![
            "自动(屏刷)"@, "30 Hz"@, "60 Hz"@, "90 Hz"@, "120 Hz"@, "144 Hz"@
        ] },
        RowId::MotionMode => RowKindView::Choice { options: seq!["弹簧"@, "缓动"@, "线性"@, "瞬切"@] },
        RowId::Easing => RowKindView::Choice { options: seq![
            "线性"@, "二次缓出"@, "四次缓出"@, "五次缓出"@, "指数缓出"@, "三次缓入缓出"@, "回弹缓出"@
        ] },
        RowId::SpringDuration(_) => RowKindView::Stepper { min: 5, max: 200, step: 10, unit: "ms"@ },
        RowId::SpringBounce(_) => RowKindView::Stepper { min: 0, max: 95, step: 5, unit: "%"@ },
        _ => RowKindView::Switch,
    }
}

/// Current value of data row `id` in `m`.
pub open spec fn spec_row_value(m: SettingsModel, id: RowId) -> RowValue {
    match id {
        RowId::Theme => RowValue::Index(m.theme),
        RowId::HotkeyEnabled => RowValue::Bool(m.hotkey_enabled),
        RowId::ElevateModifier => RowValue::Index(m.elevate_modifier),
        RowId::ShowRecent => RowValue::Bool(m.show_recent),
        RowId::ShowFavorites => RowValue::Bool(m.show_favorites),
        RowId::ShowFrequent => RowValue::Bool(m.show_frequent),
        RowId::ShowAll => RowValue::Bool(m.show_all),
        RowId::IconSize => RowValue::Num(m.icon_size),
        RowId::SearchMode => RowValue::Index(m.search_mode),
        RowId::AppLayout => RowValue::Index(m.layout),
        RowId::SettingsAnim => RowValue::Bool(m.settings_anim),
        RowId::WebEngine => RowValue::Index(m.web_engine),
        RowId::AutoStart => RowValue::Bool(m.auto_start),
        RowId::RenderBackend => RowValue::Index(m.render_backend),
        RowId::IslandW => RowValue::Num(m.island_w),
        RowId::IslandH => RowValue::Num(m.island_h),
        RowId::IslandX => RowValue::Num(m.island_x),
        RowId::IslandY => RowValue::Num(m.island_y),
        RowId::ExpandedW => RowValue::Num(m.expanded_w),
        RowId::ExpandedH => RowValue::Num(m.expanded_h),
        RowId::ExpandedR => RowValue::Num(m.expanded_r),
        RowId::InputRatio => RowValue::Num(m.input_ratio),
        RowId::Margin => RowValue::Num(m.margin),
        RowId::Squash => RowValue::Num(m.squash),
        RowId::AutoMorph => RowValue::Bool(m.auto_morph),
        RowId::Draggable => RowValue::Bool(m.draggable),
        RowId::ReduceMotion => RowValue::Bool(m.reduce_motion),
        RowId::AnimFps => RowValue::Index(fps_position(m.anim_fps)),
        RowId::MotionMode => RowValue::Index(m.motion_mode),
        RowId::Easing => RowValue::Index(m.easing),
        RowId::SpringDuration(i) => RowValue::Num(m.springs.tune(spec_spring_at(i as usize)).duration),
        RowId::SpringBounce(i) => RowValue::Num(m.springs.tune(spec_spring_at(i as usize)).bounce),
        _ => RowValue::Bool(false),
    }
}

/// Value of data row `id` in the default configuration.
pub open spec fn spec_default_value(id: RowId) -> RowValue {
    match id {
        RowId::Theme => RowValue::Index(0),
        RowId::HotkeyEnabled => RowValue::Bool(true),
        RowId::ElevateModifier => RowValue::Index(1),
        RowId::ShowRecent => RowValue::Bool(false),
        RowId::ShowFavorites => RowValue::Bool(false),
        RowId::ShowFrequent => RowValue::Bool(false),
        RowId::ShowAll => RowValue::Bool(true),
        RowId::IconSize => RowValue::Num(36),
        RowId::SearchMode => RowValue::Index(0),
        RowId::AppLayout => RowValue::Index(1),
        RowId::SettingsAnim => RowValue::Bool(true),
        RowId::WebEngine => RowValue::Index(0),
        RowId::AutoStart => RowValue::Bool(false),
        RowId::RenderBackend => RowValue::Index(0),
        RowId::IslandW => RowValue::Num(300),
        RowId::IslandH => RowValue::Num(46),
        RowId::IslandX => RowValue::Num(50),
        RowId::IslandY => RowValue::Num(14),
        RowId::ExpandedW => RowValue::Num(560),
        RowId::ExpandedH => RowValue::Num(268),
        RowId::ExpandedR => RowValue::Num(34),
        RowId::InputRatio => RowValue::Num(72),
        RowId::Margin => RowValue::Num(16),
        RowId::Squash => RowValue::Num(34),
        RowId::AutoMorph => RowValue::Bool(true),
        RowId::Draggable => RowValue::Bool(true),
        RowId::ReduceMotion => RowValue::Bool(false),
        RowId::AnimFps => RowValue::Index(0),
        RowId::MotionMode => RowValue::Index(0),
        RowId::Easing => RowValue::Index(3),
        RowId::SpringDuration(i) => RowValue::Num(default_springs().tune(spec_spring_at(i as usize)).duration),
        RowId::SpringBounce(i) => RowValue::Num(default_springs().tune(spec_spring_at(i as usize)).bounce),
        _ => RowValue::Bool(false),
    }
}

/// `m` with the bool held by data row `id` set to `x`.
pub open spec fn with_bool(m: SettingsModel, id: RowId, x: bool) -> SettingsModel {
    match id {
        RowId::HotkeyEnabled => SettingsModel { hotkey_enabled: x, ..m },
        RowId::ShowRecent => SettingsModel { show_recent: x, ..m },
        RowId::ShowFavorites => SettingsModel { show_favorites: x, ..m },
        RowId::ShowFrequent => SettingsModel { show_frequent: x, ..m },
        RowId::ShowAll => SettingsModel { show_all: x, ..m },
        RowId::SettingsAnim => SettingsModel { settings_anim: x, ..m },
        RowId::AutoStart => SettingsModel { auto_start: x, ..m },
        RowId::AutoMorph => SettingsModel { auto_morph: x, ..m },
        RowId::Draggable => SettingsModel { draggable: x, ..m },
        RowId::ReduceMotion => SettingsModel { reduce_motion: x, ..m },
        _ => m,
    }
}

/// `m` with the num held by data row `id` set to `x`.
pub open spec fn with_num(m: SettingsModel, id: RowId, x: i32) -> SettingsModel {
    match id {
        RowId::IconSize => SettingsModel { icon_size: x, ..m },
        RowId::IslandW => SettingsModel { island_w: x, ..m },
        RowId::IslandH => SettingsModel { island_h: x, ..m },
        RowId::IslandX => SettingsModel { island_x: x, ..m },
        RowId::IslandY => SettingsModel { island_y: x, ..m },
        RowId::ExpandedW => SettingsModel { expanded_w: x, ..m },
        RowId::ExpandedH => SettingsModel { expanded_h: x, ..m },
        RowId::ExpandedR => SettingsModel { expanded_r: x, ..m },
        RowId::InputRatio => SettingsModel { input_ratio: x, ..m },
        RowId::Margin => SettingsModel { margin: x, ..m },
        RowId::Squash => SettingsModel { squash: x, ..m },
        RowId::SpringDuration(i) => {
            let t = spec_spring_at(i as usize);
            SettingsModel { springs: m.springs.with_tune(t, SpringTune { duration: x, ..m.springs.tune(t) }), ..m }
        },
        RowId::SpringBounce(i) => {
            let t = spec_spring_at(i as usize);
            SettingsModel { springs: m.springs.with_tune(t, SpringTune { bounce: x, ..m.springs.tune(t) }), ..m }
        },
        _ => m,
    }
}

/// `m` with the index held by data row `id` set to `x`.
pub open spec fn with_index(m: SettingsModel, id: RowId, x: usize) -> SettingsModel {
    match id {
        RowId::Theme => SettingsModel { theme: x, ..m },
        RowId::ElevateModifier => SettingsModel { elevate_modifier: x, ..m },
        RowId::SearchMode => SettingsModel { search_mode: x, ..m },
        RowId::AppLayout => SettingsModel { layout: x, ..m },
        RowId::WebEngine => SettingsModel { web_engine: x, ..m },
        RowId::RenderBackend => SettingsModel { render_backend: x, ..m },
        RowId::MotionMode => SettingsModel { motion_mode: x, ..m },
        RowId::Easing => SettingsModel { easing: x, ..m },
        _ => m,
    }
}

/// The table entry of data row `id`.
pub open spec fn spec_desc(id: RowId) -> RowDescView {
    RowDescView {
        id,
        label: spec_row_label(id),
        page: spec_row_page(id),
        group: spec_row_group(id),
        index: spec_row_index(id),
        kind: spec_row_kind(id),
    }
}

/// The spring rows: duration then bounce of each of the six transitions.
pub open spec fn spring_ids() -> Seq<RowId> {
    Seq::new(
        12,
        |k: int|
            if k % 2 == 0 {
                RowId::SpringDuration((k / 2) as u8)
            } else {
                RowId::SpringBounce((k / 2) as u8)
            },
    )
}

/// The data rows in display order.
pub open spec fn spec_data_ids() -> Seq<RowId> {
    seq![
        RowId::Theme, RowId::HotkeyEnabled, RowId::ElevateModifier, RowId::ShowRecent,
        RowId::ShowFavorites, RowId::ShowFrequent, RowId::ShowAll, RowId::IconSize,
        RowId::SearchMode, RowId::AppLayout, RowId::SettingsAnim, RowId::WebEngine,
        RowId::AutoStart, RowId::RenderBackend, RowId::IslandW, RowId::IslandH, RowId::IslandX,
        RowId::IslandY, RowId::ExpandedW, RowId::ExpandedH, RowId::ExpandedR, RowId::InputRatio,
        RowId::Margin, RowId::Squash, RowId::AutoMorph, RowId::Draggable, RowId::ReduceMotion,
        RowId::AnimFps, RowId::MotionMode, RowId::Easing,
    ] + spring_ids()
}

/// The table of data rows in display order.
pub open spec fn spec_data_rows() -> Seq<RowDescView> {
    spec_data_ids().map_values(|id: RowId| spec_desc(id))
}

/// Writing `v` to data row `id` of `m`: the new model and whether anything
/// changed. A value of another kind than the row's, a choice out of range
/// and the current value change nothing; a number is clamped into the
/// stepper's range; the frame-rate row takes an option out of range as the
/// first one.
pub open spec fn spec_write_row(m: SettingsModel, id: RowId, v: RowValue) -> (SettingsModel, bool) {
    if !spec_is_data_row(id) {
        (m, false)
    } else {
        match v {
            RowValue::Bool(b) => if spec_row_kind(id) is Switch && spec_row_value(m, id) != RowValue::Bool(b) {
                (with_bool(m, id, b), true)
            } else {
                (m, false)
            },
            RowValue::Num(n) => match spec_row_kind(id) {
                RowKindView::Stepper { min, max, .. } => {
                    let t = clamp(n, min, max);
                    if spec_row_value(m, id) != RowValue::Num(t) {
                        (with_num(m, id, t), true)
                    } else {
                        (m, false)
                    }
                },
                _ => (m, false),
            },
            RowValue::Index(i) => if id == RowId::AnimFps {
                let f = fps_step(i);
                if m.anim_fps != f {
                    (SettingsModel { anim_fps: f, ..m }, true)
                } else {
                    (m, false)
                }
            } else {
                match spec_row_kind(id) {
                    RowKindView::Choice { options } => if i < options.len() && spec_row_value(m, id)
                        != RowValue::Index(i) {
                        (with_index(m, id, i), true)
                    } else {
                        (m, false)
                    },
                    _ => (m, false),
                }
            },
        }
    }
}

/// Restoring data row `id` of `m` to its default: the new model and whether
/// anything changed.
pub open spec fn spec_restore_row(m: SettingsModel, id: RowId) -> (SettingsModel, bool) {
    if spec_is_data_row(id) && spec_row_value(m, id) != spec_default_value(id) {
        spec_write_row(m, id, spec_default_value(id))
    } else {
        (m, false)
    }
}

/// The data rows whose value differs from the default, in display order.
pub open spec fn spec_dirty_ids(m: SettingsModel) -> Seq<RowId> {
    spec_data_ids().filter(|id: RowId| spec_row_value(m, id) != spec_default_value(id))
}

/// What data row `id` reads after a write of `v`, when `v` fits the row: the
/// number clamped into the stepper's range, the value itself otherwise.
pub open spec fn spec_written(id: RowId, v: RowValue) -> RowValue {
    match (v, spec_row_kind(id)) {
        (RowValue::Num(n), RowKindView::Stepper { min, max, .. }) => RowValue::Num(clamp(n, min, max)),
        _ => v,
    }
}

/// Whether `v` is a value of the kind of data row `id` (a choice within the
/// row's options).
pub open spec fn spec_fits(id: RowId, v: RowValue) -> bool {
    match (v, spec_row_kind(id)) {
        (RowValue::Bool(_), RowKindView::Switch) => true,
        (RowValue::Num(_), RowKindView::Stepper { .. }) => true,
        (RowValue::Index(i), RowKindView::Choice { options }) => i < options.len(),
        _ => false,
    }
}

/// The table entry of data row `id`.
pub(crate) fn describe(id: RowId) -> (r: RowDesc)
    requires
        spec_is_data_row(id),
    ensures
        r@ == spec_desc(id),
{
    match id {
        RowId::Theme => {
            let options = vec!["毛玻璃", "云母", "不透明", "深色"];
            assert(options@.map_values(|s: &'static str| s@) =~= seq![
                "毛玻璃"@, "云母"@, "不透明"@, "深色"@
            ]);
            RowDesc {
                id,
                label: "主题",
                page: 0,
                group: "外观",
                index: 0,
                kind: RowKind::Choice { options },
            }
        },
        RowId::HotkeyEnabled => RowDesc {
            id,
            label: "启用全局热键",
            page: 0,
            group: "热键",
            index: 0,
            kind: RowKind::Switch,
        },
        RowId::ElevateModifier => {
            let options = vec!["关闭", "Shift", "Ctrl", "Alt", "Win"];
            assert(options@.map_values(|s: &'static str| s@) =~= seq![
                "关闭"@, "Shift"@, "Ctrl"@, "Alt"@, "Win"@
            ]);
            RowDesc {
                id,
                label: "提权启动修饰键",
                page: 0,
                group: "热键",
                index: 0,
                kind: RowKind::Choice { options },
            }
        },
        RowId::ShowRecent => RowDesc {
            id,
            label: "显示最近打开",
            page: 0,
            group: "显示",
            index: 0,
            kind: RowKind::Switch,
        },
        RowId::ShowFavorites => RowDesc {
            id,
            label: "显示收藏",
            page: 0,
            group: "显示",
            index: 0,
            kind: RowKind::Switch,
        },
        RowId::ShowFrequent => RowDesc {
            id,
            label: "显示最常用",
            page: 0,
            group: "显示",
            index: 0,
            kind: RowKind::Switch,
        },
        RowId::ShowAll => RowDesc {
            id,
            label: "始终显示全部",
            page: 0,
            group: "显示",
            index: 0,
            kind: RowKind::Switch,
        },
        RowId::IconSize => RowDesc {
            id,
            label: "图标大小",
            page: 0,
            group: "显示",
            index: 0,
            kind: RowKind::Stepper { min: 24, max: 64, step: 2, unit: "px" },
        },
        RowId::SearchMode => {
            let options = vec!["名称", "标签 t:", "首字母 i:"];
            assert(options@.map_values(|s: &'static str| s@) =~= seq!["名称"@, "标签 t:"@, "首字母 i:"@]);
            RowDesc {
                id,
                label: "默认模式",
                page: 0,
                group: "显示",
                index: 0,
                kind: RowKind::Choice { options },
            }
        },
        RowId::AppLayout => {
            let options = vec!["网格", "列表"];
            assert(options@.map_values(|s: &'static str| s@) =~= seq!["网格"@, "列表"@]);
            RowDesc {
                id,
                label: "结果排版",
                page: 0,
                group: "显示",
                index: 0,
                kind: RowKind::Choice { options },
            }
        },
        RowId::SettingsAnim => RowDesc {
            id,
            label: "配置面板动效",
            page: 0,
            group: "显示",
            index: 0,
            kind: RowKind::Switch,
        },
        RowId::WebEngine => {
            let options = vec!["百度", "必应", "搜狗", "谷歌", "DuckDuckGo"];
            assert(options@.map_values(|s: &'static str| s@) =~= seq![
                "百度"@, "必应"@, "搜狗"@, "谷歌"@, "DuckDuckGo"@
            ]);
            RowDesc {
                id,
                label: "搜索引擎",
                page: 0,
                group: "Web 搜索",
                index: 0,
                kind: RowKind::Choice { options },
            }
        },
        RowId::AutoStart => RowDesc {
            id,
            label: "开机自启",
            page: 0,
            group: "系统",
            index: 0,
            kind: RowKind::Switch,
        },
        RowId::RenderBackend => {
            let options = vec!["CPU", "GPU"];
            assert(options@.map_values(|s: &'static str| s@) =~= seq!["CPU"@, "GPU"@]);
            RowDesc {
                id,
                label: "渲染后端",
                page: 0,
                group: "系统",
                index: 0,
                kind: RowKind::Choice { options },
            }
        },
        RowId::IslandW => RowDesc {
            id,
            label: "胶囊宽",
            page: 1,
            group: "几何",
            index: 0,
            kind: RowKind::Stepper { min: 160, max: 640, step: 4, unit: "px" },
        },
        RowId::IslandH => RowDesc {
            id,
            label: "胶囊高",
            page: 1,
            group: "几何",
            index: 0,
            kind: RowKind::Stepper { min: 32, max: 80, step: 2, unit: "px" },
        },
        RowId::IslandX => RowDesc {
            id,
            label: "水平锚点",
            page: 1,
            group: "几何",
            index: 0,
            kind: RowKind::Stepper { min: 2, max: 98, step: 1, unit: "%" },
        },
        RowId::IslandY => RowDesc {
            id,
            label: "垂直锚点",
            page: 1,
            group: "几何",
            index: 0,
            kind: RowKind::Stepper { min: 2, max: 98, step: 1, unit: "%" },
        },
        RowId::ExpandedW => RowDesc {
            id,
            label: "展开宽",
            page: 1,
            group: "几何",
            index: 0,
            kind: RowKind::Stepper { min: 280, max: 900, step: 10, unit: "px" },
        },
        RowId::ExpandedH => RowDesc {
            id,
            label: "展开高",
            page: 1,
            group: "几何",
            index: 0,
            kind: RowKind::Stepper { min: 160, max: 720, step: 8, unit: "px" },
        },
        RowId::ExpandedR => RowDesc {
            id,
            label: "展开圆角",
            page: 1,
            group: "几何",
            index: 0,
            kind: RowKind::Stepper { min: 8, max: 48, step: 2, unit: "px" },
        },
        RowId::InputRatio => RowDesc {
            id,
            label: "输入槽占比",
            page: 1,
            group: "几何",
            index: 0,
            kind: RowKind::Stepper { min: 20, max: 100, step: 1, unit: "%" },
        },
        RowId::Margin => RowDesc {
            id,
            label: "安全边距",
            page: 1,
            group: "几何",
            index: 0,
            kind: RowKind::Stepper { min: 0, max: 80, step: 2, unit: "px" },
        },
        RowId::Squash => RowDesc {
            id,
            label: "收起压扁",
            page: 1,
            group: "几何",
            index: 0,
            kind: RowKind::Stepper { min: 5, max: 100, step: 1, unit: "%" },
        },
        RowId::AutoMorph => RowDesc {
            id,
            label: "输入自动展开",
            page: 1,
            group: "行为",
            index: 0,
            kind: RowKind::Switch,
        },
        RowId::Draggable => RowDesc {
            id,
            label: "允许拖拽定位",
            page: 1,
            group: "行为",
            index: 0,
            kind: RowKind::Switch,
        },
        RowId::ReduceMotion => RowDesc {
            id,
            label: "减少动效",
            page: 1,
            group: "行为",
            index: 0,
            kind: RowKind::Switch,
        },
        RowId::AnimFps => {
            let options = vec!["自动(屏刷)", "30 Hz", "60 Hz", "90 Hz", "120 Hz", "144 Hz"];
            assert(options@.map_values(|s: &'static str| s@) =~= seq![
                "自动(屏刷)"@, "30 Hz"@, "60 Hz"@, "90 Hz"@, "120 Hz"@, "144 Hz"@
            ]);
            RowDesc {
                id,
                label: "动画帧率",
                page: 1,
                group: "行为",
                index: 0,
                kind: RowKind::Choice { options },
            }
        },
        RowId::MotionMode => {
            let options = vec!["弹簧", "缓动", "线性", "瞬切"];
            assert(options@.map_values(|s: &'static str| s@) =~= seq!["弹簧"@, "缓动"@, "线性"@, "瞬切"@]);
            RowDesc {
                id,
                label: "运动引擎",
                page: 1,
                group: "行为",
                index: 0,
                kind: RowKind::Choice { options },
            }
        },
        RowId::Easing => {
            let options = vec!["线性", "二次缓出", "四次缓出", "五次缓出", "指数缓出", "三次缓入缓出", "回弹缓出"];
            assert(options@.map_values(|s: &'static str| s@) =~= seq![
                "线性"@, "二次缓出"@, "四次缓出"@, "五次缓出"@, "指数缓出"@, "三次缓入缓出"@, "回弹缓出"@
            ]);
            RowDesc {
                id,
                label: "缓动曲线",
                page: 1,
                group: "行为",
                index: 0,
                kind: RowKind::Choice { options },
            }
        },
        RowId::SpringDuration(i) => RowDesc {
            id,
            label: "时长",
            page: 2,
            group: "过渡参数",
            index: i as usize,
            kind: RowKind::Stepper { min: 5, max: 200, step: 10, unit: "ms" },
        },
        _ => {
            let i: u8 = match id {
                RowId::SpringBounce(i) => i,
                _ => 0,
            };
            RowDesc {
                id,
                label: "弹性",
                page: 2,
                group: "过渡参数",
                index: i as usize,
                kind: RowKind::Stepper { min: 0, max: 95, step: 5, unit: "%" },
            }
        },
    }
}
fn current_value(cfg: &SettingsModel, id: RowId) -> (r: RowValue)
    requires
        spec_is_data_row(id),
    ensures
        r == spec_row_value(*cfg, id),
{
    match id {
        RowId::Theme => RowValue::Index(cfg.theme),
        RowId::HotkeyEnabled => RowValue::Bool(cfg.hotkey_enabled),
        RowId::ElevateModifier => RowValue::Index(cfg.elevate_modifier),
        RowId::ShowRecent => RowValue::Bool(cfg.show_recent),
        RowId::ShowFavorites => RowValue::Bool(cfg.show_favorites),
        RowId::ShowFrequent => RowValue::Bool(cfg.show_frequent),
        RowId::ShowAll => RowValue::Bool(cfg.show_all),
        RowId::IconSize => RowValue::Num(cfg.icon_size),
        RowId::SearchMode => RowValue::Index(cfg.search_mode),
        RowId::AppLayout => RowValue::Index(cfg.layout),
        RowId::SettingsAnim => RowValue::Bool(cfg.settings_anim),
        RowId::WebEngine => RowValue::Index(cfg.web_engine),
        RowId::AutoStart => RowValue::Bool(cfg.auto_start),
        RowId::RenderBackend => RowValue::Index(cfg.render_backend),
        RowId::IslandW => RowValue::Num(cfg.island_w),
        RowId::IslandH => RowValue::Num(cfg.island_h),
        RowId::IslandX => RowValue::Num(cfg.island_x),
        RowId::IslandY => RowValue::Num(cfg.island_y),
        RowId::ExpandedW => RowValue::Num(cfg.expanded_w),
        RowId::ExpandedH => RowValue::Num(cfg.expanded_h),
        RowId::ExpandedR => RowValue::Num(cfg.expanded_r),
        RowId::InputRatio => RowValue::Num(cfg.input_ratio),
        RowId::Margin => RowValue::Num(cfg.margin),
        RowId::Squash => RowValue::Num(cfg.squash),
        RowId::AutoMorph => RowValue::Bool(cfg.auto_morph),
        RowId::Draggable => RowValue::Bool(cfg.draggable),
        RowId::ReduceMotion => RowValue::Bool(cfg.reduce_motion),
        RowId::AnimFps => RowValue::Index(fps_position_of(cfg.anim_fps)),
        RowId::MotionMode => RowValue::Index(cfg.motion_mode),
        RowId::Easing => RowValue::Index(cfg.easing),
        RowId::SpringDuration(i) => RowValue::Num(cfg.springs.get(spring_at(i as usize)).duration),
        RowId::SpringBounce(i) => RowValue::Num(cfg.springs.get(spring_at(i as usize)).bounce),
        _ => RowValue::Bool(false),
    }
}

fn default_value(id: RowId) -> (r: RowValue)
    requires
        spec_is_data_row(id),
    ensures
        r == spec_default_value(id),
{
    match id {
        RowId::Theme => RowValue::Index(0),
        RowId::HotkeyEnabled => RowValue::Bool(true),
        RowId::ElevateModifier => RowValue::Index(1),
        RowId::ShowRecent => RowValue::Bool(false),
        RowId::ShowFavorites => RowValue::Bool(false),
        RowId::ShowFrequent => RowValue::Bool(false),
        RowId::ShowAll => RowValue::Bool(true),
        RowId::IconSize => RowValue::Num(36),
        RowId::SearchMode => RowValue::Index(0),
        RowId::AppLayout => RowValue::Index(1),
        RowId::SettingsAnim => RowValue::Bool(true),
        RowId::WebEngine => RowValue::Index(0),
        RowId::AutoStart => RowValue::Bool(false),
        RowId::RenderBackend => RowValue::Index(0),
        RowId::IslandW => RowValue::Num(300),
        RowId::IslandH => RowValue::Num(46),
        RowId::IslandX => RowValue::Num(50),
        RowId::IslandY => RowValue::Num(14),
        RowId::ExpandedW => RowValue::Num(560),
        RowId::ExpandedH => RowValue::Num(268),
        RowId::ExpandedR => RowValue::Num(34),
        RowId::InputRatio => RowValue::Num(72),
        RowId::Margin => RowValue::Num(16),
        RowId::Squash => RowValue::Num(34),
        RowId::AutoMorph => RowValue::Bool(true),
        RowId::Draggable => RowValue::Bool(true),
        RowId::ReduceMotion => RowValue::Bool(false),
        RowId::AnimFps => RowValue::Index(0),
        RowId::MotionMode => RowValue::Index(0),
        RowId::Easing => RowValue::Index(3),
        RowId::SpringDuration(i) => RowValue::Num(match i {
            0 => 55,
            1 => 40,
            2 => 62,
            3 => 48,
            4 => 74,
            _ => 52,
        }),
        RowId::SpringBounce(i) => RowValue::Num(match i {
            0 => 28,
            1 => 0,
            2 => 14,
            3 => 10,
            4 => 22,
            _ => 4,
        }),
        _ => RowValue::Bool(false),
    }
}

#[verifier::spinoff_prover]
#[verifier::rlimit(40)]
fn set_bool(cfg: &mut SettingsModel, id: RowId, x: bool)
    requires
        spec_is_data_row(id),
    ensures
        *final(cfg) == with_bool(*old(cfg), id, x),
{
    match id {
        RowId::HotkeyEnabled => cfg.hotkey_enabled = x,
        RowId::ShowRecent => cfg.show_recent = x,
        RowId::ShowFavorites => cfg.show_favorites = x,
        RowId::ShowFrequent => cfg.show_frequent = x,
        RowId::ShowAll => cfg.show_all = x,
        RowId::SettingsAnim => cfg.settings_anim = x,
        RowId::AutoStart => cfg.auto_start = x,
        RowId::AutoMorph => cfg.auto_morph = x,
        RowId::Draggable => cfg.draggable = x,
        RowId::ReduceMotion => cfg.reduce_motion = x,
        _ => {},
    }
}

#[verifier::spinoff_prover]
#[verifier::rlimit(40)]
fn set_num(cfg: &mut SettingsModel, id: RowId, x: i32)
    requires
        spec_is_data_row(id),
    ensures
        *final(cfg) == with_num(*old(cfg), id, x),
{
    match id {
        RowId::IconSize => cfg.icon_size = x,
        RowId::IslandW => cfg.island_w = x,
        RowId::IslandH => cfg.island_h = x,
        RowId::IslandX => cfg.island_x = x,
        RowId::IslandY => cfg.island_y = x,
        RowId::ExpandedW => cfg.expanded_w = x,
        RowId::ExpandedH => cfg.expanded_h = x,
        RowId::ExpandedR => cfg.expanded_r = x,
        RowId::InputRatio => cfg.input_ratio = x,
        RowId::Margin => cfg.margin = x,
        RowId::Squash => cfg.squash = x,
        RowId::SpringDuration(i) => {
            let t = spring_at(i as usize);
            let old = cfg.springs.get(t);
            cfg.springs.set(t, SpringTune { duration: x, ..old });
        },
        RowId::SpringBounce(i) => {
            let t = spring_at(i as usize);
            let old = cfg.springs.get(t);
            cfg.springs.set(t, SpringTune { bounce: x, ..old });
        },
        _ => {},
    }
}

#[verifier::spinoff_prover]
#[verifier::rlimit(40)]
fn set_index(cfg: &mut SettingsModel, id: RowId, x: usize)
    requires
        spec_is_data_row(id),
    ensures
        *final(cfg) == with_index(*old(cfg), id, x),
{
    match id {
        RowId::Theme => cfg.theme = x,
        RowId::ElevateModifier => cfg.elevate_modifier = x,
        RowId::SearchMode => cfg.search_mode = x,
        RowId::AppLayout => cfg.layout = x,
        RowId::WebEngine => cfg.web_engine = x,
        RowId::RenderBackend => cfg.render_backend = x,
        RowId::MotionMode => cfg.motion_mode = x,
        RowId::Easing => cfg.easing = x,
        _ => {},
    }
}

fn stepper_bounds(id: RowId) -> (r: Option<(i32, i32)>)
    ensures
        r == (match spec_row_kind(id) {
            RowKindView::Stepper { min, max, .. } => Some((min, max)),
            _ => None,
        }),
{
    match id {
        RowId::IconSize => Some((24, 64)),
        RowId::IslandW => Some((160, 640)),
        RowId::IslandH => Some((32, 80)),
        RowId::IslandX => Some((2, 98)),
        RowId::IslandY => Some((2, 98)),
        RowId::ExpandedW => Some((280, 900)),
        RowId::ExpandedH => Some((160, 720)),
        RowId::ExpandedR => Some((8, 48)),
        RowId::InputRatio => Some((20, 100)),
        RowId::Margin => Some((0, 80)),
        RowId::Squash => Some((5, 100)),
        RowId::SpringDuration(_) => Some((5, 200)),
        RowId::SpringBounce(_) => Some((0, 95)),
        _ => None,
    }
}

fn choice_count(id: RowId) -> (r: usize)
    ensures
        r == (match spec_row_kind(id) {
            RowKindView::Choice { options } => options.len(),
            _ => 0,
        }),
{
    match id {
        RowId::Theme => 4,
        RowId::ElevateModifier => 5,
        RowId::SearchMode => 3,
        RowId::AppLayout => 2,
        RowId::WebEngine => 5,
        RowId::RenderBackend => 2,
        RowId::AnimFps => 6,
        RowId::MotionMode => 4,
        RowId::Easing => 7,
        _ => 0,
    }
}

pub(crate) fn data_ids() -> (r: Vec<RowId>)
    ensures
        r@ == spec_data_ids(),
{
    let mut r: Vec<RowId> = Vec::new();
    r.push(RowId::Theme);
    r.push(RowId::HotkeyEnabled);
    r.push(RowId::ElevateModifier);
    r.push(RowId::ShowRecent);
    r.push(RowId::ShowFavorites);
    r.push(RowId::ShowFrequent);
    r.push(RowId::ShowAll);
    r.push(RowId::IconSize);
    r.push(RowId::SearchMode);
    r.push(RowId::AppLayout);
    r.push(RowId::SettingsAnim);
    r.push(RowId::WebEngine);
    r.push(RowId::AutoStart);
    r.push(RowId::RenderBackend);
    r.push(RowId::IslandW);
    r.push(RowId::IslandH);
    r.push(RowId::IslandX);
    r.push(RowId::IslandY);
    r.push(RowId::ExpandedW);
    r.push(RowId::ExpandedH);
    r.push(RowId::ExpandedR);
    r.push(RowId::InputRatio);
    r.push(RowId::Margin);
    r.push(RowId::Squash);
    r.push(RowId::AutoMorph);
    r.push(RowId::Draggable);
    r.push(RowId::ReduceMotion);
    r.push(RowId::AnimFps);
    r.push(RowId::MotionMode);
    r.push(RowId::Easing);
    let ghost base = r@;
    assert(base + spring_ids() == spec_data_ids());
    for i in 0..6u8
        invariant
            r@ == base + spring_ids().take(2 * i),
    {
        r.push(RowId::SpringDuration(i));
        r.push(RowId::SpringBounce(i));
        assert(spring_ids().take(2 * i + 2) == spring_ids().take(2 * i).push(
            RowId::SpringDuration(i),
        ).push(RowId::SpringBounce(i)));
    }
    assert(spring_ids().take(12) == spring_ids());
    r
}

pub(crate) proof fn lemma_data_ids_are_data_rows()
    ensures
        forall|k: int| 0 <= k < spec_data_ids().len() ==> spec_is_data_row(#[trigger] spec_data_ids()[k]),
        spec_data_ids().len() == 42,
{
    assert forall|k: int| 0 <= k < spec_data_ids().len() implies spec_is_data_row(#[trigger] spec_data_ids()[k]) by {
        if k >= 30 {
            assert(spec_data_ids()[k] == spring_ids()[k - 30]);
        }
    }
}

/// Every data row, in display order: which page and group it sits in, its
/// label, and how it is adjusted.
pub fn data_rows() -> (r: Vec<RowDesc>)
    ensures
        r@.map_values(|d: RowDesc| d@) == spec_data_rows(),
{
    let ids = data_ids();
    proof {
        lemma_data_ids_are_data_rows();
    }
    let mut rows: Vec<RowDesc> = Vec::new();
    for k in 0..ids.len()
        invariant
            ids@ == spec_data_ids(),
            forall|j: int| 0 <= j < spec_data_ids().len() ==> spec_is_data_row(#[trigger] spec_data_ids()[j]),
            rows@.map_values(|d: RowDesc| d@) == spec_data_rows().take(k as int),
    {
        let d = describe(ids[k]);
        rows.push(d);
        assert(rows@.map_values(|d: RowDesc| d@) == spec_data_rows().take(k as int).push(d@));
        assert(spec_data_rows().take(k + 1) == spec_data_rows().take(k as int).push(d@));
    }
    assert(spec_data_rows().take(ids.len() as int) == spec_data_rows());
    rows
}

/// The table entry of row `id`, if it is configuration-backed.
pub fn find_row(id: RowId) -> (r: Option<RowDesc>)
    ensures
        r is Some <==> spec_is_data_row(id),
        r matches Some(d) ==> d@ == spec_desc(id),
{
    if is_data_row(id) {
        Some(describe(id))
    } else {
        None
    }
}

/// The current value of row `id`, if it is configuration-backed.
pub fn data_value(cfg: &SettingsModel, id: RowId) -> (r: Option<RowValue>)
    ensures
        r == (if spec_is_data_row(id) {
            Some(spec_row_value(*cfg, id))
        } else {
            None
        }),
{
    if is_data_row(id) {
        Some(current_value(cfg, id))
    } else {
        None
    }
}

/// Writes `value` to row `id`; returns whether the model changed.
pub fn apply_data_value(cfg: &mut SettingsModel, id: RowId, value: RowValue) -> (changed: bool)
    ensures
        *final(cfg) == spec_write_row(*old(cfg), id, value).0,
        changed == spec_write_row(*old(cfg), id, value).1,
{
    if !is_data_row(id) {
        return false;
    }
    let cur = current_value(cfg, id);
    match value {
        RowValue::Bool(_) => match cur {
            RowValue::Bool(c) => match write_bool(value, c) {
                Some(b) => {
                    set_bool(cfg, id, b);
                    true
                },
                None => false,
            },
            _ => false,
        },
        RowValue::Num(n) => match stepper_bounds(id) {
            Some((lo, hi)) => {
                let t = clamp_i32(n, lo, hi);
                if cur != RowValue::Num(t) {
                    set_num(cfg, id, t);
                    true
                } else {
                    false
                }
            },
            None => false,
        },
        RowValue::Index(i) => {
            if id == RowId::AnimFps {
                let f = fps_step_of(i);
                if cfg.anim_fps != f {
                    cfg.anim_fps = f;
                    true
                } else {
                    false
                }
            } else {
                match cur {
                    RowValue::Index(c) => match write_idx(choice_count(id), value, c) {
                        Some(j) => {
                            set_index(cfg, id, j);
                            true
                        },
                        None => false,
                    },
                    _ => false,
                }
            }
        },
    }
}

/// Restores row `id` to its default value; returns whether the model
/// changed.
pub fn restore_data_row(cfg: &mut SettingsModel, id: RowId) -> (changed: bool)
    ensures
        *final(cfg) == spec_restore_row(*old(cfg), id).0,
        changed == spec_restore_row(*old(cfg), id).1,
{
    if !is_data_row(id) {
        return false;
    }
    let d = default_value(id);
    if current_value(cfg, id) == d {
        return false;
    }
    apply_data_value(cfg, id, d)
}

/// The data rows whose value differs from the default, in display order.
pub fn dirty_data_ids(cfg: &SettingsModel) -> (r: Vec<RowId>)
    ensures
        r@ == spec_dirty_ids(*cfg),
{
    let ids = data_ids();
    proof {
        lemma_data_ids_are_data_rows();
    }
    let ghost pred = |id: RowId| spec_row_value(*cfg, id) != spec_default_value(id);
    let mut r: Vec<RowId> = Vec::new();
    for k in 0..ids.len()
        invariant
            ids@ == spec_data_ids(),
            forall|j: int| 0 <= j < spec_data_ids().len() ==> spec_is_data_row(#[trigger] spec_data_ids()[j]),
            pred == (|id: RowId| spec_row_value(*cfg, id) != spec_default_value(id)),
            r@ == ids@.take(k as int).filter(pred),
    {
        reveal_with_fuel(Seq::filter, 1);
        assert(ids@.take(k + 1).drop_last() == ids@.take(k as int));
        let id = ids[k];
        if current_value(cfg, id) != default_value(id) {
            r.push(id);
        }
    }
    assert(ids@.take(ids.len() as int) == ids@);
    r
}

/// Text shown by a choice row whose kind is `k` and value `v`: the option at
/// the value's position ("?" past the last), nothing for other rows.
pub open spec fn spec_choice_text(k: RowKindView, v: RowValue) -> Seq<char> {
    match (k, v) {
        (RowKindView::Choice { options }, RowValue::Index(i)) => if i < options.len() {
            options[i as int]
        } else {
            "?"@
        },
        _ => Seq::empty(),
    }
}

impl RowDesc {
    /// The row's current value.
    pub fn value(&self, cfg: &SettingsModel) -> (r: RowValue)
        requires
            spec_is_data_row(self.id),
        ensures
            r == spec_row_value(*cfg, self.id),
    {
        current_value(cfg, self.id)
    }

    /// Name of the current option of a choice row (empty for other rows).
    pub fn choice_text(&self, cfg: &SettingsModel) -> (r: String)
        requires
            spec_is_data_row(self.id),
        ensures
            r@ == spec_choice_text(self.kind@, spec_row_value(*cfg, self.id)),
    {
        match (&self.kind, self.value(cfg)) {
            (RowKind::Choice { options }, RowValue::Index(i)) => {
                if i < options.len() {
                    options[i].to_string()
                } else {
                    "?".to_string()
                }
            },
            _ => String::new(),
        }
    }

    /// Range, step and unit of a stepper row.
    pub fn stepper_meta(&self) -> (r: Option<(i32, i32, i32, &'static str)>)
        ensures
            match self.kind@ {
                RowKindView::Stepper { min, max, step, unit } => r matches Some(t) && t.0 == min
                    && t.1 == max && t.2 == step && t.3@ == unit,
                _ => r is None,
            },
    {
        match &self.kind {
            RowKind::Stepper { min, max, step, unit } => Some((*min, *max, *step, *unit)),
            _ => None,
        }
    }
}

/// A write of a value that fits a data row makes the row read that value
/// back (a number clamped into the stepper's range).
pub proof fn lemma_write_reads_back(m: SettingsModel, id: RowId, v: RowValue)
    requires
        spec_is_data_row(id),
        spec_fits(id, v),
    ensures
        spec_row_value(spec_write_row(m, id, v).0, id) == spec_written(id, v),
{
}

/// A write to one row leaves every other data row as it was.
pub proof fn lemma_write_keeps_other_rows(m: SettingsModel, id: RowId, other: RowId, v: RowValue)
    requires
        spec_is_data_row(other),
        other != id,
    ensures
        spec_row_value(spec_write_row(m, id, v).0, other) == spec_row_value(m, other),
{
    if spec_is_data_row(id) {
        match v {
            RowValue::Bool(b) => lemma_with_bool_keeps(m, id, other, b),
            RowValue::Num(n) => match spec_row_kind(id) {
                RowKindView::Stepper { min, max, .. } => lemma_with_num_keeps(m, id, other, clamp(n, min, max)),
                _ => {},
            },
            RowValue::Index(i) => lemma_with_index_keeps(m, id, other, i),
        }
    }
}

/// Restoring a data row brings it back to its default value, so it is no
/// longer among the rows that differ from the defaults.
pub proof fn lemma_restore_clears(m: SettingsModel, id: RowId)
    requires
        spec_is_data_row(id),
    ensures
        spec_row_value(spec_restore_row(m, id).0, id) == spec_default_value(id),
        !spec_dirty_ids(spec_restore_row(m, id).0).contains(id),
{
}

/// The table holds exactly the configuration-backed rows, each once.
pub proof fn lemma_data_ids_cover(id: RowId)
    ensures
        spec_data_ids().contains(id) <==> spec_is_data_row(id),
        spec_data_ids().no_duplicates(),
{
    lemma_data_ids_are_data_rows();
    let ids = spec_data_ids();
    match id {
        RowId::Theme => assert(ids[0] == id),
        RowId::HotkeyEnabled => assert(ids[1] == id),
        RowId::ElevateModifier => assert(ids[2] == id),
        RowId::ShowRecent => assert(ids[3] == id),
        RowId::ShowFavorites => assert(ids[4] == id),
        RowId::ShowFrequent => assert(ids[5] == id),
        RowId::ShowAll => assert(ids[6] == id),
        RowId::IconSize => assert(ids[7] == id),
        RowId::SearchMode => assert(ids[8] == id),
        RowId::AppLayout => assert(ids[9] == id),
        RowId::SettingsAnim => assert(ids[10] == id),
        RowId::WebEngine => assert(ids[11] == id),
        RowId::AutoStart => assert(ids[12] == id),
        RowId::RenderBackend => assert(ids[13] == id),
        RowId::IslandW => assert(ids[14] == id),
        RowId::IslandH => assert(ids[15] == id),
        RowId::IslandX => assert(ids[16] == id),
        RowId::IslandY => assert(ids[17] == id),
        RowId::ExpandedW => assert(ids[18] == id),
        RowId::ExpandedH => assert(ids[19] == id),
        RowId::ExpandedR => assert(ids[20] == id),
        RowId::InputRatio => assert(ids[21] == id),
        RowId::Margin => assert(ids[22] == id),
        RowId::Squash => assert(ids[23] == id),
        RowId::AutoMorph => assert(ids[24] == id),
        RowId::Draggable => assert(ids[25] == id),
        RowId::ReduceMotion => assert(ids[26] == id),
        RowId::AnimFps => assert(ids[27] == id),
        RowId::MotionMode => assert(ids[28] == id),
        RowId::Easing => assert(ids[29] == id),
        RowId::SpringDuration(i) => if i < 6 {
            assert(ids[30 + 2 * i] == id);
        },
        RowId::SpringBounce(i) => if i < 6 {
            assert(ids[31 + 2 * i] == id);
        },
        _ => {},
    }
}

#[verifier::spinoff_prover]
#[verifier::rlimit(60)]
proof fn lemma_with_bool_keeps(m: SettingsModel, id: RowId, other: RowId, x: bool)
    requires
        spec_is_data_row(id),
        spec_is_data_row(other),
        other != id,
    ensures
        spec_row_value(with_bool(m, id, x), other) == spec_row_value(m, other),
{
    match id {
        RowId::Theme => {},
        RowId::HotkeyEnabled => {},
        RowId::ElevateModifier => {},
        RowId::ShowRecent => {},
        RowId::ShowFavorites => {},
        RowId::ShowFrequent => {},
        RowId::ShowAll => {},
        RowId::IconSize => {},
        RowId::SearchMode => {},
        RowId::AppLayout => {},
        RowId::SettingsAnim => {},
        RowId::WebEngine => {},
        RowId::AutoStart => {},
        RowId::RenderBackend => {},
        RowId::IslandW => {},
        RowId::IslandH => {},
        RowId::IslandX => {},
        RowId::IslandY => {},
        RowId::ExpandedW => {},
        RowId::ExpandedH => {},
        RowId::ExpandedR => {},
        RowId::InputRatio => {},
        RowId::Margin => {},
        RowId::Squash => {},
        RowId::AutoMorph => {},
        RowId::Draggable => {},
        RowId::ReduceMotion => {},
        RowId::AnimFps => {},
        RowId::MotionMode => {},
        RowId::Easing => {},
        RowId::SpringDuration(i) => {},
        RowId::SpringBounce(i) => {},
        _ => {},
    }
}

#[verifier::spinoff_prover]
#[verifier::rlimit(60)]
proof fn lemma_with_num_keeps(m: SettingsModel, id: RowId, other: RowId, x: i32)
    requires
        spec_is_data_row(id),
        spec_is_data_row(other),
        other != id,
    ensures
        spec_row_value(with_num(m, id, x), other) == spec_row_value(m, other),
{
    match id {
        RowId::Theme => {},
        RowId::HotkeyEnabled => {},
        RowId::ElevateModifier => {},
        RowId::ShowRecent => {},
        RowId::ShowFavorites => {},
        RowId::ShowFrequent => {},
        RowId::ShowAll => {},
        RowId::IconSize => {},
        RowId::SearchMode => {},
        RowId::AppLayout => {},
        RowId::SettingsAnim => {},
        RowId::WebEngine => {},
        RowId::AutoStart => {},
        RowId::RenderBackend => {},
        RowId::IslandW => {},
        RowId::IslandH => {},
        RowId::IslandX => {},
        RowId::IslandY => {},
        RowId::ExpandedW => {},
        RowId::ExpandedH => {},
        RowId::ExpandedR => {},
        RowId::InputRatio => {},
        RowId::Margin => {},
        RowId::Squash => {},
        RowId::AutoMorph => {},
        RowId::Draggable => {},
        RowId::ReduceMotion => {},
        RowId::AnimFps => {},
        RowId::MotionMode => {},
        RowId::Easing => {},
        RowId::SpringDuration(i) => {},
        RowId::SpringBounce(i) => {},
        _ => {},
    }
}

#[verifier::spinoff_prover]
#[verifier::rlimit(60)]
proof fn lemma_with_index_keeps(m: SettingsModel, id: RowId, other: RowId, x: usize)
    requires
        spec_is_data_row(id),
        spec_is_data_row(other),
        other != id,
    ensures
        spec_row_value(with_index(m, id, x), other) == spec_row_value(m, other),
{
    match id {
        RowId::Theme => {},
        RowId::HotkeyEnabled => {},
        RowId::ElevateModifier => {},
        RowId::ShowRecent => {},
        RowId::ShowFavorites => {},
        RowId::ShowFrequent => {},
        RowId::ShowAll => {},
        RowId::IconSize => {},
        RowId::SearchMode => {},
        RowId::AppLayout => {},
        RowId::SettingsAnim => {},
        RowId::WebEngine => {},
        RowId::AutoStart => {},
        RowId::RenderBackend => {},
        RowId::IslandW => {},
        RowId::IslandH => {},
        RowId::IslandX => {},
        RowId::IslandY => {},
        RowId::ExpandedW => {},
        RowId::ExpandedH => {},
        RowId::ExpandedR => {},
        RowId::InputRatio => {},
        RowId::Margin => {},
        RowId::Squash => {},
        RowId::AutoMorph => {},
        RowId::Draggable => {},
        RowId::ReduceMotion => {},
        RowId::AnimFps => {},
        RowId::MotionMode => {},
        RowId::Easing => {},
        RowId::SpringDuration(i) => {},
        RowId::SpringBounce(i) => {},
        _ => {},
    }
}

} // verus!
