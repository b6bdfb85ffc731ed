//! The settings and application-manager windows' model: pages, groups and
//! rows, their identities and hit targets, the rows backed by a
//! configuration value, and the small decisions of editing them.

use vstd::prelude::*;
use crate::edit::TextEdit;
use crate::island::IslandTransition;
use crate::platform::SystemCommandKind;

verus! {

/// Identity of a settings row (stable across rebuilds of the pages).
#[derive(Debug, Clone, Copy, PartialEq, Eq, Structural)]
pub enum RowId {
    Theme,
    AnimFps,
    AppLayout,
    Reset,
    OpenAppManager,
    SettingsAnim,
    MotionMode,
    Easing,
    AutoMorph,
    Draggable,
    ReduceMotion,
    IslandW,
    IslandH,
    IslandX,
    IslandY,
    ExpandedW,
    ExpandedH,
    ExpandedR,
    InputRatio,
    Margin,
    Squash,
    IconSize,
    HotkeyEnabled,
    HotkeyRecord,
    ElevateModifier,
    AutoStart,
    RenderBackend,
    ShowRecent,
    ShowFavorites,
    ShowFrequent,
    ShowAll,
    SearchMode,
    FilterAdd,
    WebEngine,
    WebBrowser,
    CommandAdd,
    CommandKind(usize),
    CommandAlias(usize),
    CommandDelete(usize),
    SpringDuration(u8),
    SpringBounce(u8),
}

/// What a point of the settings window hits.
#[derive(Debug, Clone, Copy, PartialEq, Eq, Structural)]
pub enum RowHit {
    Nav(usize),
    TitleBar,
    ResizeGrip,
    Close,
    Switch(RowId),
    StepperDec(RowId),
    StepperInc(RowId),
    StepperEdit(RowId),
    Button(RowId),
    Input(RowId),
    FilterInput(usize),
    FilterCase(usize),
    FilterDelete(usize),
    CommandKind(usize),
    CommandAlias(usize),
    CommandDelete(usize),
    Restore(RowId),
    Choice(RowId),
    ScrollThumb,
}

/// A row of a settings page.
#[derive(Debug, Clone)]
pub enum SettingsRow {
    Switch { id: RowId, label: String, value: bool },
    Stepper { id: RowId, label: String, value: i32, min: i32, max: i32, step: i32, unit: String },
    Label { label: String, value: String },
    Button { id: RowId, label: String },
    Choice { id: RowId, label: String, value: String },
    Input { id: RowId, label: String, value: String, placeholder: String },
    Filter { index: usize, keyword: String, case_sensitive: bool },
    Command { index: usize, kind: SystemCommandKind, aliases: String },
}

/// A titled group of rows.
#[derive(Debug, Clone)]
pub struct SettingsGroup {
    pub title: String,
    pub rows: Vec<SettingsRow>,
}

/// A settings page.
#[derive(Debug, Clone)]
pub struct SettingsPage {
    pub title: String,
    pub subtitle: String,
    pub groups: Vec<SettingsGroup>,
}

/// The text field being edited (at most one at a time).
#[derive(Debug, Clone, Copy, Default)]
pub struct EditFocus<'a> {
    pub stepper: Option<(RowId, &'a TextEdit)>,
    pub filter: Option<(usize, &'a TextEdit)>,
    pub command: Option<(usize, &'a TextEdit)>,
    pub browser: Option<&'a TextEdit>,
}

/// Value of a configuration-backed row.
#[derive(Debug, Clone, Copy, PartialEq, Eq, Structural)]
pub enum RowValue {
    Bool(bool),
    Num(i32),
    /// Position of the current option of a cycling choice.
    Index(usize),
}

/// How a configuration-backed row is adjusted.
#[derive(Debug, Clone)]
pub enum RowKind {
    Switch,
    Stepper { min: i32, max: i32, step: i32, unit: &'static str },
    /// Cycles through the options (in the order of the setting's variants).
    Choice { options: Vec<&'static str> },
}

/// The transition of spring slot `i` (six slots, wrapping).
pub open spec fn spec_spring_at(i: usize) -> IslandTransition {
    let k = i % 6;
    if k == 0 {
        IslandTransition::Summon
    } else if k == 1 {
        IslandTransition::Dismiss
    } else if k == 2 {
        IslandTransition::Expand
    } else if k == 3 {
        IslandTransition::Collapse
    } else if k == 4 {
        IslandTransition::SummonExpanded
    } else {
        IslandTransition::DismissExpanded
    }
}

/// The transition whose spring parameters slot `i` edits.
pub fn spring_at(i: usize) -> (r: IslandTransition)
    ensures
        r == spec_spring_at(i),
        r.spec_order() == i % 6,
{
    match i % 6 {
        0 => IslandTransition::Summon,
        1 => IslandTransition::Dismiss,
        2 => IslandTransition::Expand,
        3 => IslandTransition::Collapse,
        4 => IslandTransition::SummonExpanded,
        _ => IslandTransition::DismissExpanded,
    }
}

pub open spec fn spec_spring_label(t: IslandTransition) -> Seq<char> {
    match t {
        IslandTransition::Summon => "唤出"@,
        IslandTransition::Dismiss => "收回"@,
        IslandTransition::Expand => "展开"@,
        IslandTransition::Collapse => "收起"@,
        IslandTransition::SummonExpanded => "直达展开"@,
        IslandTransition::DismissExpanded => "直达收回"@,
    }
}

/// Display name of spring slot `i`.
pub fn spring_label(i: usize) -> (r: &'static str)
    ensures
        r@ == spec_spring_label(spec_spring_at(i)),
{
    match spring_at(i) {
        IslandTransition::Summon => "唤出",
        IslandTransition::Dismiss => "收回",
        IslandTransition::Expand => "展开",
        IslandTransition::Collapse => "收起",
        IslandTransition::SummonExpanded => "直达展开",
        IslandTransition::DismissExpanded => "直达收回",
    }
}

/// The rows backed by a configuration value (switches, steppers and cycling
/// choices); buttons, text fields and list rows are laid out by hand.
pub open spec fn spec_is_data_row(id: RowId) -> bool {
    match id {
        RowId::Theme | RowId::AnimFps | RowId::AppLayout | RowId::SettingsAnim | RowId::MotionMode
        | RowId::Easing | RowId::AutoMorph | RowId::Draggable | RowId::ReduceMotion | RowId::IslandW
        | RowId::IslandH | RowId::IslandX | RowId::IslandY | RowId::ExpandedW | RowId::ExpandedH
        | RowId::ExpandedR | RowId::InputRatio | RowId::Margin | RowId::Squash | RowId::IconSize
        | RowId::HotkeyEnabled | RowId::ElevateModifier | RowId::AutoStart | RowId::RenderBackend
        | RowId::ShowRecent | RowId::ShowFavorites | RowId::ShowFrequent | RowId::ShowAll
        | RowId::SearchMode | RowId::WebEngine => true,
        RowId::SpringDuration(i) | RowId::SpringBounce(i) => i < 6,
        _ => false,
    }
}

/// Whether row `id` is backed by a configuration value.
pub fn is_data_row(id: RowId) -> (r: bool)
    ensures
        r == spec_is_data_row(id),
{
    match id {
        RowId::Theme | RowId::AnimFps | RowId::AppLayout | RowId::SettingsAnim | RowId::MotionMode
        | RowId::Easing | RowId::AutoMorph | RowId::Draggable | RowId::ReduceMotion | RowId::IslandW
        | RowId::IslandH | RowId::IslandX | RowId::IslandY | RowId::ExpandedW | RowId::ExpandedH
        | RowId::ExpandedR | RowId::InputRatio | RowId::Margin | RowId::Squash | RowId::IconSize
        | RowId::HotkeyEnabled | RowId::ElevateModifier | RowId::AutoStart | RowId::RenderBackend
        | RowId::ShowRecent | RowId::ShowFavorites | RowId::ShowFrequent | RowId::ShowAll
        | RowId::SearchMode | RowId::WebEngine => true,
        RowId::SpringDuration(i) | RowId::SpringBounce(i) => i < 6,
        _ => false,
    }
}

/// A switch written with `v` while it is `cur`: the new value, or `None`
/// when `v` is not a switch value or changes nothing.
pub fn write_bool(v: RowValue, cur: bool) -> (r: Option<bool>)
    ensures
        r == (match v {
            RowValue::Bool(b) => if b != cur {
                Some(b)
            } else {
                None
            },
            _ => None,
        }),
{
    match v {
        RowValue::Bool(b) => if cur != b {
            Some(b)
        } else {
            None
        },
        _ => None,
    }
}

/// A choice among `count` options written with `v` while option `cur` is
/// set: the option to set, or `None` for another kind of value, a position
/// out of range, or the current option.
pub fn write_idx(count: usize, v: RowValue, cur: usize) -> (r: Option<usize>)
    ensures
        r == (match v {
            RowValue::Index(i) => if i < count && i != cur {
                Some(i)
            } else {
                None
            },
            _ => None,
        }),
{
    match v {
        RowValue::Index(i) => if i < count && i != cur {
            Some(i)
        } else {
            None
        },
        _ => None,
    }
}

/// Colour of an action button.
#[derive(Debug, Clone, Copy, PartialEq, Eq, Structural)]
pub enum ButtonTone {
    /// Accent-coloured text.
    Accent,
    /// Warning colour (reset and delete actions).
    Danger,
    /// Accent background, white text (while recording a hotkey).
    Recording,
}

impl ButtonTone {
    /// The tone of the button of row `id`.
    pub fn for_id(id: RowId, recording: bool) -> (r: ButtonTone)
        ensures
            r == (if recording {
                ButtonTone::Recording
            } else if id == RowId::Reset {
                ButtonTone::Danger
            } else {
                ButtonTone::Accent
            }),
    {
        if recording {
            ButtonTone::Recording
        } else if id == RowId::Reset {
            ButtonTone::Danger
        } else {
            ButtonTone::Accent
        }
    }
}

/// An editable field of the application details.
#[derive(Debug, Clone, Copy, PartialEq, Eq, Structural)]
pub enum DetailField {
    Name,
    Path,
    Icon,
    TagAdd,
}

/// A control of the filter-keyword bar.
#[derive(Debug, Clone, Copy, PartialEq, Eq, Structural)]
pub enum BlockPart {
    Input,
    Chip(usize),
}

/// What a point of the application manager hits.
#[derive(Debug, Clone, Copy, PartialEq, Eq, Structural)]
pub enum ManagerHit {
    TitleBar,
    Close,
    FilterInput,
    LayoutToggle,
    Rescan,
    ListItem(usize),
    FavStar,
    DetailInput(DetailField),
    TagChip(usize),
    Block(BlockPart),
    Reveal,
    RemoveApp,
    ScrollThumb,
}

/// The drafts of the manager's text fields.
#[derive(Debug, Clone, Copy, Default)]
pub struct ManagerEdits<'a> {
    pub filter: Option<&'a TextEdit>,
    pub name: Option<&'a TextEdit>,
    pub path: Option<&'a TextEdit>,
    pub icon: Option<&'a TextEdit>,
    pub tag: Option<&'a TextEdit>,
    pub block: Option<&'a TextEdit>,
}

/// The back end actually rendering (GPU falls back to CPU when it fails).
#[derive(Debug, Clone, Copy, PartialEq, Eq, Structural)]
pub enum RenderMode {
    Cpu,
    Gpu,
}

impl RenderMode {
    /// Name shown in logs and settings.
    pub fn label(self) -> (r: &'static str)
        ensures
            r@ == (match self {
                RenderMode::Cpu => "CPU"@,
                RenderMode::Gpu => "GPU"@,
            }),
    {
        match self {
            RenderMode::Cpu => "CPU",
            RenderMode::Gpu => "GPU",
        }
    }
}

/// Cheap hash of a pixel position for the background grain:
/// `(x * 374761393 + y * 668265263) mod 2^32`, top eight bits.
pub fn hash32(x: u32, y: u32) -> (r: u32)
    ensures
        r as int == ((x as int * 374761393 + y as int * 668265263) % 0x1_0000_0000) / 0x100_0000,
{
    let a = x.wrapping_mul(374761393);
    let b = y.wrapping_mul(668265263);
    let s = a.wrapping_add(b);
    proof {
        let xa = x as int * 374761393;
        let yb = y as int * 668265263;
        assert(a as int == xa % 0x1_0000_0000);
        assert(b as int == yb % 0x1_0000_0000);
        assert(s as int == (a as int + b as int) % 0x1_0000_0000);
        vstd::arithmetic::div_mod::lemma_add_mod_noop(xa, yb, 0x1_0000_0000);
    }
    let r = s >> 24;
    assert(r == s / 0x100_0000) by (bit_vector)
        requires
            r == s >> 24,
    ;
    r
}

} // verus!
