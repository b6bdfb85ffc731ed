//! The settings window's pages, built from the settings model: the
//! configuration-backed rows grouped as the table orders them, and around
//! them the buttons, text fields and lists that are laid out by hand.

use vstd::prelude::*;
use vstd::string::StringExecFns;
use crate::apps::str_eq;
use crate::config::{CommandEntry, FilterRule};
use crate::platform::SystemCommandKind;
use crate::settings::{
    spec_is_data_row, spec_spring_at, spec_spring_label, spring_label, RowId, RowKind, RowValue,
    SettingsGroup, SettingsPage, SettingsRow,
};
use crate::settings_data::{
    data_ids, describe, lemma_data_ids_are_data_rows, spec_choice_text, spec_data_ids, spec_desc,
    spec_row_group, spec_row_kind, spec_row_label, spec_row_page, spec_row_value, RowDesc,
    RowKindView, SettingsModel,
};

verus! {

/// A settings row, as text and numbers.
pub enum SettingsRowView {
    Switch { id: RowId, label: Seq<char>, value: bool },
    Stepper { id: RowId, label: Seq<char>, value: i32, min: i32, max: i32, step: i32, unit: Seq<char> },
    Label { label: Seq<char>, value: Seq<char> },
    Button { id: RowId, label: Seq<char> },
    Choice { id: RowId, label: Seq<char>, value: Seq<char> },
    Input { id: RowId, label: Seq<char>, value: Seq<char>, placeholder: Seq<char> },
    Filter { index: usize, keyword: Seq<char>, case_sensitive: bool },
    Command { index: usize, kind: SystemCommandKind, aliases: Seq<char> },
}

/// A group of rows, as text and numbers.
pub struct SettingsGroupView {
    pub title: Seq<char>,
    pub rows: Seq<SettingsRowView>,
}

/// A page, as text and numbers.
pub struct SettingsPageView {
    pub title: Seq<char>,
    pub subtitle: Seq<char>,
    pub groups: Seq<SettingsGroupView>,
}

impl View for SettingsRow {
    type V = SettingsRowView;

    open spec fn view(&self) -> SettingsRowView {
        match self {
            SettingsRow::Switch { id, label, value } => SettingsRowView::Switch {
                id: *id,
                label: label@,
                value: *value,
            },
            SettingsRow::Stepper { id, label, value, min, max, step, unit } => SettingsRowView::Stepper {
                id: *id,
                label: label@,
                value: *value,
                min: *min,
                max: *max,
                step: *step,
                unit: unit@,
            },
            SettingsRow::Label { label, value } => SettingsRowView::Label { label: label@, value: value@ },
            SettingsRow::Button { id, label } => SettingsRowView::Button { id: *id, label: label@ },
            SettingsRow::Choice { id, label, value } => SettingsRowView::Choice {
                id: *id,
                label: label@,
                value: value@,
            },
            SettingsRow::Input { id, label, value, placeholder } => SettingsRowView::Input {
                id: *id,
                label: label@,
                value: value@,
                placeholder: placeholder@,
            },
            SettingsRow::Filter { index, keyword, case_sensitive } => SettingsRowView::Filter {
                index: *index,
                keyword: keyword@,
                case_sensitive: *case_sensitive,
            },
            SettingsRow::Command { index, kind, aliases } => SettingsRowView::Command {
                index: *index,
                kind: *kind,
                aliases: aliases@,
            },
        }
    }
}

impl View for SettingsGroup {
    type V = SettingsGroupView;

    open spec fn view(&self) -> SettingsGroupView {
        SettingsGroupView { title: self.title@, rows: self.rows@.map_values(|r: SettingsRow| r@) }
    }
}

impl View for SettingsPage {
    type V = SettingsPageView;

    open spec fn view(&self) -> SettingsPageView {
        SettingsPageView {
            title: self.title@,
            subtitle: self.subtitle@,
            groups: self.groups@.map_values(|g: SettingsGroup| g@),
        }
    }
}

pub open spec fn groups_view(gs: Seq<SettingsGroup>) -> Seq<SettingsGroupView> {
    gs.map_values(|g: SettingsGroup| g@)
}

pub open spec fn pages_view(ps: Seq<SettingsPage>) -> Seq<SettingsPageView> {
    ps.map_values(|p: SettingsPage| p@)
}

/// Label shown for data row `id`: spring rows are prefixed with the name of
/// their transition.
pub open spec fn spec_shown_label(id: RowId) -> Seq<char> {
    match id {
        RowId::SpringDuration(i) | RowId::SpringBounce(i) => spec_spring_label(spec_spring_at(i as usize))
            + " "@ + spec_row_label(id),
        _ => spec_row_label(id),
    }
}

/// The row that data row `id` shows for model `m`.
pub open spec fn spec_row_of(m: SettingsModel, id: RowId) -> SettingsRowView {
    match spec_row_kind(id) {
        RowKindView::Switch => SettingsRowView::Switch {
            id,
            label: spec_shown_label(id),
            value: spec_row_value(m, id) == RowValue::Bool(true),
        },
        RowKindView::Stepper { min, max, step, unit } => SettingsRowView::Stepper {
            id,
            label: spec_shown_label(id),
            value: match spec_row_value(m, id) {
                RowValue::Num(n) => n,
                _ => 0,
            },
            min,
            max,
            step,
            unit,
        },
        RowKindView::Choice { .. } => SettingsRowView::Choice {
            id,
            label: spec_shown_label(id),
            value: spec_choice_text(spec_row_kind(id), spec_row_value(m, id)),
        },
    }
}

fn desc_to_row(desc: &RowDesc, cfg: &SettingsModel) -> (r: SettingsRow)
    requires
        spec_is_data_row(desc.id),
        desc@ == spec_desc(desc.id),
    ensures
        r@ == spec_row_of(*cfg, desc.id),
{
    let label = match desc.id {
        RowId::SpringDuration(i) | RowId::SpringBounce(i) => {
            let mut s = spring_label(i as usize).to_string();
            s.append(" ");
            s.append(desc.label);
            s
        },
        _ => desc.label.to_string(),
    };
    assert(label@ == spec_shown_label(desc.id));
    assert(desc.kind@ == spec_row_kind(desc.id));
    match &desc.kind {
        RowKind::Switch => SettingsRow::Switch {
            id: desc.id,
            label,
            value: desc.value(cfg) == RowValue::Bool(true),
        },
        RowKind::Stepper { min, max, step, unit } => SettingsRow::Stepper {
            id: desc.id,
            label,
            value: match desc.value(cfg) {
                RowValue::Num(n) => n,
                _ => 0,
            },
            min: *min,
            max: *max,
            step: *step,
            unit: (*unit).to_string(),
        },
        RowKind::Choice { .. } => SettingsRow::Choice {
            id: desc.id,
            label,
            value: desc.choice_text(cfg),
        },
    }
}

/// Whether a row belongs to group `g` of page `p`.
pub open spec fn group_pred(p: usize, g: Seq<char>) -> spec_fn(RowId) -> bool {
    |id: RowId| spec_row_page(id) == p && spec_row_group(id) == g
}

/// Titles of the groups of page `p` among rows `ids`, in order of first
/// appearance.
pub open spec fn group_titles(ids: Seq<RowId>, p: usize) -> Seq<Seq<char>>
    decreases ids.len(),
{
    if ids.len() == 0 {
        seq![]
    } else {
        let t = group_titles(ids.drop_last(), p);
        let id = ids.last();
        if spec_row_page(id) == p && !t.contains(spec_row_group(id)) {
            t.push(spec_row_group(id))
        } else {
            t
        }
    }
}

/// The groups of page `p` for rows `ids`: one per title, in order of first
/// appearance, each holding its rows in table order.
pub open spec fn spec_groups(m: SettingsModel, ids: Seq<RowId>, p: usize) -> Seq<SettingsGroupView> {
    group_titles(ids, p).map_values(
        |g: Seq<char>|
            SettingsGroupView {
                title: g,
                rows: ids.filter(group_pred(p, g)).map_values(|id: RowId| spec_row_of(m, id)),
            },
    )
}

proof fn lemma_filter_push(t: Seq<RowId>, id: RowId, f: spec_fn(RowId) -> bool)
    ensures
        t.push(id).filter(f) == (if f(id) {
            t.filter(f).push(id)
        } else {
            t.filter(f)
        }),
{
    reveal_with_fuel(Seq::filter, 1);
    assert(t.push(id).drop_last() == t);
}

proof fn lemma_titles_distinct(ids: Seq<RowId>, p: usize)
    ensures
        group_titles(ids, p).no_duplicates(),
    decreases ids.len(),
{
    if ids.len() > 0 {
        lemma_titles_distinct(ids.drop_last(), p);
    }
}

proof fn lemma_untitled_group_empty(ids: Seq<RowId>, p: usize, g: Seq<char>)
    requires
        !group_titles(ids, p).contains(g),
    ensures
        ids.filter(group_pred(p, g)) == Seq::<RowId>::empty(),
    decreases ids.len(),
{
    reveal_with_fuel(Seq::filter, 1);
    if ids.len() > 0 {
        let t = ids.drop_last();
        let id = ids.last();
        assert(t.push(id) == ids);
        if group_titles(t, p).contains(g) {
            let j = choose|j: int| 0 <= j < group_titles(t, p).len() && group_titles(t, p)[j] == g;
            assert(group_titles(ids, p)[j] == g);
        }
        if spec_row_page(id) == p && spec_row_group(id) == g {
            assert(group_titles(ids, p) == group_titles(t, p).push(g));
            assert(group_titles(ids, p)[group_titles(t, p).len() as int] == g);
        }
        lemma_untitled_group_empty(t, p, g);
        lemma_filter_push(t, id, group_pred(p, g));
    }
}

fn find_group(groups: &Vec<SettingsGroup>, title: &str) -> (r: usize)
    ensures
        r <= groups.len(),
        r < groups.len() ==> groups@[r as int]@.title == title@,
        forall|j: int| 0 <= j < r ==> groups@[j]@.title != title@,
{
    let mut j: usize = 0;
    while j < groups.len()
        invariant
            j <= groups.len(),
            forall|i: int| 0 <= i < j ==> groups@[i]@.title != title@,
        decreases groups.len() - j,
    {
        if str_eq(groups[j].title.as_str(), title) {
            return j;
        }
        j += 1;
    }
    j
}

/// The configuration-backed rows of page `p`, grouped.
fn collect_groups(cfg: &SettingsModel, p: usize) -> (r: Vec<SettingsGroup>)
    ensures
        groups_view(r@) == spec_groups(*cfg, spec_data_ids(), p),
{
    let ids = data_ids();
    proof {
        lemma_data_ids_are_data_rows();
    }
    let mut groups: Vec<SettingsGroup> = Vec::new();
    for k in 0..ids.len()
        invariant
            ids@ == spec_data_ids(),
            forall|j: int| 0 <= j < spec_data_ids().len() ==> spec_is_data_row(#[trigger] spec_data_ids()[j]),
            groups_view(groups@) == spec_groups(*cfg, ids@.take(k as int), p),
    {
        let ghost t = ids@.take(k as int);
        let id = ids[k];
        assert(ids@.take(k + 1) == t.push(id));
        assert(ids@.take(k + 1).drop_last() == t);
        let ghost titles = group_titles(t, p);
        let d = describe(id);
        if d.page == p {
            let row = desc_to_row(&d, cfg);
            let j = find_group(&groups, d.group);
            proof {
                lemma_titles_distinct(t, p);
            }
            if j < groups.len() {
                proof {
                    assert(groups_view(groups@).len() == groups@.len());
                    assert(spec_groups(*cfg, t, p).len() == titles.len());
                    assert(groups_view(groups@)[j as int] == groups@[j as int]@);
                    assert(spec_groups(*cfg, t, p)[j as int].title == titles[j as int]);
                    assert(groups_view(groups@)[j as int].title == titles[j as int]);
                    assert(titles[j as int] == spec_row_group(id));
                    assert(titles.contains(spec_row_group(id)));
                }
                let ghost old_g = groups@;
                let mut g = groups.remove(j);
                let ghost old_rows = g.rows@;
                g.rows.push(row);
                groups.insert(j, g);
                proof {
                    let g_id = spec_row_group(id);
                    assert(groups@ =~= old_g.update(j as int, g));
                    assert(group_titles(t.push(id), p) == titles);
                    lemma_filter_push(t, id, group_pred(p, g_id));
                    assert(old_rows.map_values(|r: SettingsRow| r@) == t.filter(group_pred(p, g_id)).map_values(
                        |x: RowId| spec_row_of(*cfg, x),
                    ));
                    assert(g.rows@.map_values(|r: SettingsRow| r@) =~= old_rows.map_values(|r: SettingsRow| r@).push(
                        row@,
                    ));
                    assert(t.filter(group_pred(p, g_id)).push(id).map_values(|x: RowId| spec_row_of(*cfg, x))
                        =~= t.filter(group_pred(p, g_id)).map_values(|x: RowId| spec_row_of(*cfg, x)).push(
                        spec_row_of(*cfg, id),
                    ));
                    assert forall|i: int| 0 <= i < titles.len() implies #[trigger] groups_view(groups@)[i]
                        == spec_groups(*cfg, t.push(id), p)[i] by {
                        lemma_filter_push(t, id, group_pred(p, titles[i]));
                        assert(groups_view(groups@)[i] == groups@[i]@);
                        assert(spec_groups(*cfg, t.push(id), p)[i] == (SettingsGroupView {
                            title: titles[i],
                            rows: t.push(id).filter(group_pred(p, titles[i])).map_values(|x: RowId| spec_row_of(*cfg, x)),
                        }));
                        assert(spec_groups(*cfg, t, p)[i] == (SettingsGroupView {
                            title: titles[i],
                            rows: t.filter(group_pred(p, titles[i])).map_values(|x: RowId| spec_row_of(*cfg, x)),
                        }));
                        assert(old_g[i]@ == spec_groups(*cfg, t, p)[i]);
                        if i != j {
                            assert(titles[i] != spec_row_group(id));
                            assert(groups@[i] == old_g[i]);
                        } else {
                            assert(groups@[i] == g);
                            assert(old_g[i]@ == spec_groups(*cfg, t, p)[i]);
                            assert(g@.title == titles[i]);
                            assert(titles[i] == g_id);
                            assert(g@.rows == t.push(id).filter(group_pred(p, g_id)).map_values(
                                |x: RowId| spec_row_of(*cfg, x),
                            ));
                        }
                    }
                    assert(groups_view(groups@) =~= spec_groups(*cfg, t.push(id), p));
                }
            } else {
                proof {
                    assert forall|i: int| 0 <= i < titles.len() implies titles[i] != spec_row_group(id) by {
                        assert(groups_view(groups@).len() == groups@.len());
                        assert(groups_view(groups@)[i] == groups@[i]@);
                        assert(spec_groups(*cfg, t, p)[i].title == titles[i]);
                    }
                    assert(!titles.contains(spec_row_group(id)));
                    lemma_untitled_group_empty(t, p, spec_row_group(id));
                    lemma_filter_push(t, id, group_pred(p, spec_row_group(id)));
                }
                let ghost old_g = groups@;
                let mut rows: Vec<SettingsRow> = Vec::new();
                rows.push(row);
                let title = d.group.to_string();
                groups.push(SettingsGroup { title, rows });
                proof {
                    let g_id = spec_row_group(id);
                    assert(groups_view(old_g).len() == old_g.len());
                    assert(spec_groups(*cfg, t, p).len() == titles.len());
                    assert(groups@.len() == titles.len() + 1);
                    assert(group_titles(t.push(id), p) == titles.push(g_id));
                    assert(t.filter(group_pred(p, g_id)).push(id) =~= seq![id]);
                    assert(seq![id].map_values(|x: RowId| spec_row_of(*cfg, x)) =~= seq![spec_row_of(*cfg, id)]);
                    assert(rows@.map_values(|r: SettingsRow| r@) =~= seq![row@]);
                    assert forall|i: int| 0 <= i < titles.len() + 1 implies #[trigger] groups_view(groups@)[i]
                        == spec_groups(*cfg, t.push(id), p)[i] by {
                        assert(groups_view(groups@)[i] == groups@[i]@);
                        assert(spec_groups(*cfg, t.push(id), p)[i] == (SettingsGroupView {
                            title: titles.push(spec_row_group(id))[i],
                            rows: t.push(id).filter(group_pred(p, titles.push(spec_row_group(id))[i])).map_values(
                                |x: RowId| spec_row_of(*cfg, x),
                            ),
                        }));
                        if i < titles.len() {
                            assert(spec_groups(*cfg, t, p)[i] == (SettingsGroupView {
                                title: titles[i],
                                rows: t.filter(group_pred(p, titles[i])).map_values(|x: RowId| spec_row_of(*cfg, x)),
                            }));
                            assert(old_g[i]@ == spec_groups(*cfg, t, p)[i]);
                            lemma_filter_push(t, id, group_pred(p, titles[i]));
                            assert(titles[i] != spec_row_group(id));
                            assert(groups@[i] == old_g[i]);
                        }
                    }
                    assert(groups_view(groups@) =~= spec_groups(*cfg, t.push(id), p));
                }
            }
        } else {
            proof {
                assert(group_titles(t.push(id), p) == titles);
                assert forall|i: int| 0 <= i < titles.len() implies #[trigger] groups_view(groups@)[i]
                    == spec_groups(*cfg, t.push(id), p)[i] by {
                    lemma_filter_push(t, id, group_pred(p, titles[i]));
                }
                assert(groups_view(groups@) == spec_groups(*cfg, t.push(id), p));
            }
        }
    }
    assert(ids@.take(ids.len() as int) == ids@);
    groups
}

/// Text of the hotkey-recording button.
pub open spec fn spec_hotkey_label(m: SettingsModel, capture: bool) -> Seq<char> {
    if capture {
        "按下新组合键··· (Esc 取消)"@
    } else if m.hotkey_modifiers@.len() == 0 {
        "重新录制热键 · "@ + m.hotkey_key@
    } else {
        "重新录制热键 · "@ + m.hotkey_modifiers@ + "+"@ + m.hotkey_key@
    }
}

/// The custom-browser text field.
pub open spec fn spec_browser_row(m: SettingsModel) -> SettingsRowView {
    SettingsRowView::Input {
        id: RowId::WebBrowser,
        label: "自定义浏览器"@,
        value: m.web_browser@,
        placeholder: "留空用系统默认;可含 %1 占位喵"@,
    }
}

/// A data group of the general page with its hand-made rows: the hotkey
/// group ends with the recording button, the web-search group starts with
/// the browser field.
pub open spec fn spec_general_group(g: SettingsGroupView, m: SettingsModel, capture: bool) -> SettingsGroupView {
    if g.title == "热键"@ {
        SettingsGroupView {
            title: g.title,
            rows: g.rows.push(SettingsRowView::Button { id: RowId::HotkeyRecord, label: spec_hotkey_label(m, capture) }),
        }
    } else if g.title == "Web 搜索"@ {
        SettingsGroupView { title: g.title, rows: seq![spec_browser_row(m)] + g.rows }
    } else {
        g
    }
}

/// `parts` joined with ", ".
pub open spec fn join_comma(parts: Seq<Seq<char>>) -> Seq<char>
    decreases parts.len(),
{
    if parts.len() == 0 {
        seq![]
    } else if parts.len() == 1 {
        parts[0]
    } else {
        join_comma(parts.drop_last()) + ", "@ + parts.last()
    }
}

/// One row per system command, then the button that adds one.
pub open spec fn spec_command_rows(cmds: Seq<CommandEntry>) -> Seq<SettingsRowView> {
    spec_command_items(cmds).push(SettingsRowView::Button { id: RowId::CommandAdd, label: "添加指令"@ })
}

/// The row of each system command.
pub open spec fn spec_command_items(cmds: Seq<CommandEntry>) -> Seq<SettingsRowView> {
    Seq::new(
        cmds.len(),
        |i: int|
            SettingsRowView::Command {
                index: i as usize,
                kind: cmds[i].kind,
                aliases: join_comma(cmds[i].aliases@.map_values(|a: String| a@)),
            },
    )
}

/// One row per filter keyword, then the button that adds one.
pub open spec fn spec_filter_rows(fs: Seq<FilterRule>) -> Seq<SettingsRowView> {
    spec_filter_items(fs).push(SettingsRowView::Button { id: RowId::FilterAdd, label: "添加过滤关键词"@ })
}

/// The row of each filter keyword.
pub open spec fn spec_filter_items(fs: Seq<FilterRule>) -> Seq<SettingsRowView> {
    Seq::new(
        fs.len(),
        |i: int|
            SettingsRowView::Filter { index: i as usize, keyword: fs[i].keyword@, case_sensitive: fs[i].case_sensitive },
    )
}

/// The groups of the general page.
pub open spec fn spec_general(m: SettingsModel, capture: bool) -> Seq<SettingsGroupView> {
    spec_groups(m, spec_data_ids(), 0).map_values(|g: SettingsGroupView| spec_general_group(g, m, capture))
        + seq![
        SettingsGroupView { title: "指令模块"@, rows: spec_command_rows(m.commands@) },
        SettingsGroupView {
            title: "维护"@,
            rows: seq![SettingsRowView::Button { id: RowId::Reset, label: "恢复默认设置"@ }],
        },
    ]
}

/// The settings pages for model `m`, while a hotkey is being recorded or
/// not, for program version `version`.
pub open spec fn spec_pages(m: SettingsModel, capture: bool, version: Seq<char>) -> Seq<SettingsPageView> {
    seq![
        SettingsPageView { title: "常规"@, subtitle: "主题 · 热键 · 列表显示喵"@, groups: spec_general(m, capture) },
        SettingsPageView {
            title: "灵动岛"@,
            subtitle: "胶囊几何 · 锚点 · 动效策略喵"@,
            groups: spec_groups(m, spec_data_ids(), 1),
        },
        SettingsPageView {
            title: "弹簧"@,
            subtitle: "六段过渡的时长与弹性手感喵"@,
            groups: spec_groups(m, spec_data_ids(), 2),
        },
        SettingsPageView {
            title: "应用"@,
            subtitle: "管理中心 · 关键词过滤喵"@,
            groups: seq![
                SettingsGroupView {
                    title: "管理"@,
                    rows: seq![SettingsRowView::Button { id: RowId::OpenAppManager, label: "打开应用管理中心"@ }],
                },
                SettingsGroupView { title: "关键词过滤"@, rows: spec_filter_rows(m.filters@) },
            ],
        },
        SettingsPageView {
            title: "关于"@,
            subtitle: "版本与内核信息喵"@,
            groups: seq![
                SettingsGroupView {
                    title: "关于"@,
                    rows: seq![
                        SettingsRowView::Label { label: "版本"@, value: version },
                        SettingsRowView::Label { label: "全称"@, value: "meow app launcher"@ },
                        SettingsRowView::Label { label: "指令"@, value: "meowal"@ },
                        SettingsRowView::Label { label: "岛内核"@, value: "spring + FSM + 边界回弹"@ },
                    ],
                },
            ],
        },
    ]
}

fn button(id: RowId, label: &str) -> (r: SettingsRow)
    ensures
        r@ == (SettingsRowView::Button { id, label: label@ }),
{
    SettingsRow::Button { id, label: label.to_string() }
}

fn hotkey_label(cfg: &SettingsModel, capture: bool) -> (r: String)
    ensures
        r@ == spec_hotkey_label(*cfg, capture),
{
    if capture {
        "按下新组合键··· (Esc 取消)".to_string()
    } else if cfg.hotkey_modifiers.as_str().is_empty() {
        let mut s = "重新录制热键 · ".to_string();
        s.append(cfg.hotkey_key.as_str());
        s
    } else {
        let mut s = "重新录制热键 · ".to_string();
        s.append(cfg.hotkey_modifiers.as_str());
        s.append("+");
        s.append(cfg.hotkey_key.as_str());
        s
    }
}

fn general_group(g: SettingsGroup, cfg: &SettingsModel, capture: bool) -> (r: SettingsGroup)
    ensures
        r@ == spec_general_group(g@, *cfg, capture),
{
    let mut g = g;
    if str_eq(g.title.as_str(), "热键") {
        let b = button(RowId::HotkeyRecord, hotkey_label(cfg, capture).as_str());
        let ghost old_rows = g.rows@;
        g.rows.push(b);
        assert(g.rows@.map_values(|r: SettingsRow| r@) =~= old_rows.map_values(|r: SettingsRow| r@).push(b@));
        g
    } else if str_eq(g.title.as_str(), "Web 搜索") {
        let input = SettingsRow::Input {
            id: RowId::WebBrowser,
            label: "自定义浏览器".to_string(),
            value: cfg.web_browser.as_str().to_string(),
            placeholder: "留空用系统默认;可含 %1 占位喵".to_string(),
        };
        let ghost old_rows = g.rows@;
        g.rows.insert(0, input);
        assert(g.rows@.map_values(|r: SettingsRow| r@) =~= seq![input@] + old_rows.map_values(|r: SettingsRow| r@));
        g
    } else {
        g
    }
}

fn join_aliases(parts: &Vec<String>) -> (r: String)
    ensures
        r@ == join_comma(parts@.map_values(|a: String| a@)),
{
    let ghost v = parts@.map_values(|a: String| a@);
    let mut s = String::new();
    for i in 0..parts.len()
        invariant
            v == parts@.map_values(|a: String| a@),
            s@ == join_comma(v.take(i as int)),
    {
        assert(v.take(i + 1).drop_last() == v.take(i as int));
        if i > 0 {
            s.append(", ");
        }
        s.append(parts[i].as_str());
        assert(v.take(i + 1).last() == parts@[i as int]@);
        if i == 0 {
            assert(v.take(1)[0] == parts@[0]@);
            assert(join_comma(v.take(0)) =~= Seq::<char>::empty());
        }
    }
    assert(v.take(parts.len() as int) == v);
    s
}

fn command_rows(cmds: &Vec<CommandEntry>) -> (r: Vec<SettingsRow>)
    ensures
        r@.map_values(|x: SettingsRow| x@) == spec_command_rows(cmds@),
{
    let mut rows: Vec<SettingsRow> = Vec::new();
    for i in 0..cmds.len()
        invariant
            rows@.map_values(|x: SettingsRow| x@) == spec_command_items(cmds@).take(i as int),
            i <= cmds.len(),
    {
        let row = SettingsRow::Command { index: i, kind: cmds[i].kind, aliases: join_aliases(&cmds[i].aliases) };
        let ghost before = rows@.map_values(|x: SettingsRow| x@);
        rows.push(row);
        assert(row@ == spec_command_items(cmds@)[i as int]);
        assert(rows@.map_values(|x: SettingsRow| x@) =~= before.push(row@));
        assert(spec_command_items(cmds@).take(i + 1) =~= spec_command_items(cmds@).take(i as int).push(row@));
    }
    assert(spec_command_items(cmds@).take(cmds.len() as int) == spec_command_items(cmds@));
    let ghost items = rows@.map_values(|x: SettingsRow| x@);
    rows.push(button(RowId::CommandAdd, "添加指令"));
    assert(rows@.map_values(|x: SettingsRow| x@) =~= items.push(rows@.last()@));
    rows
}

fn filter_rows(fs: &Vec<FilterRule>) -> (r: Vec<SettingsRow>)
    ensures
        r@.map_values(|x: SettingsRow| x@) == spec_filter_rows(fs@),
{
    let mut rows: Vec<SettingsRow> = Vec::new();
    for i in 0..fs.len()
        invariant
            rows@.map_values(|x: SettingsRow| x@) == spec_filter_items(fs@).take(i as int),
            i <= fs.len(),
    {
        let row = SettingsRow::Filter {
            index: i,
            keyword: fs[i].keyword.as_str().to_string(),
            case_sensitive: fs[i].case_sensitive,
        };
        let ghost before = rows@.map_values(|x: SettingsRow| x@);
        rows.push(row);
        assert(row@ == spec_filter_items(fs@)[i as int]);
        assert(rows@.map_values(|x: SettingsRow| x@) =~= before.push(row@));
        assert(spec_filter_items(fs@).take(i + 1) =~= spec_filter_items(fs@).take(i as int).push(row@));
    }
    assert(spec_filter_items(fs@).take(fs.len() as int) == spec_filter_items(fs@));
    let ghost items = rows@.map_values(|x: SettingsRow| x@);
    rows.push(button(RowId::FilterAdd, "添加过滤关键词"));
    assert(rows@.map_values(|x: SettingsRow| x@) =~= items.push(rows@.last()@));
    rows
}

fn group(title: &str, rows: Vec<SettingsRow>) -> (r: SettingsGroup)
    ensures
        r@ == (SettingsGroupView { title: title@, rows: rows@.map_values(|x: SettingsRow| x@) }),
{
    SettingsGroup { title: title.to_string(), rows }
}

fn page(title: &str, subtitle: &str, groups: Vec<SettingsGroup>) -> (r: SettingsPage)
    ensures
        r@ == (SettingsPageView { title: title@, subtitle: subtitle@, groups: groups_view(groups@) }),
{
    SettingsPage { title: title.to_string(), subtitle: subtitle.to_string(), groups }
}

fn label_row(label: &str, value: &str) -> (r: SettingsRow)
    ensures
        r@ == (SettingsRowView::Label { label: label@, value: value@ }),
{
    SettingsRow::Label { label: label.to_string(), value: value.to_string() }
}

/// Builds the settings pages from the model: general (data groups, the
/// hotkey-recording button, the browser field, the system commands and the
/// reset button), island, springs, applications (manager entry and filter
/// keywords) and about (`version` and the program's names).
pub fn build_pages(config: &SettingsModel, hotkey_capture: bool, version: &str) -> (r: Vec<SettingsPage>)
    ensures
        pages_view(r@) == spec_pages(*config, hotkey_capture, version@),
{
    let data0 = collect_groups(config, 0);
    let mut general: Vec<SettingsGroup> = Vec::new();
    let ghost d0 = groups_view(data0@);
    let n0 = data0.len();
    for g in it: data0
        invariant
            d0 == groups_view(it.seq()),
            n0 == d0.len(),
            groups_view(general@) == d0.take(it.index() as int).map_values(
                |g: SettingsGroupView| spec_general_group(g, *config, hotkey_capture),
            ),
    {
        let ghost idx = it.index();
        assert(g@ == d0[idx as int]);
        let adjusted = general_group(g, config, hotkey_capture);
        let ghost before = groups_view(general@);
        general.push(adjusted);
        assert(groups_view(general@) =~= before.push(adjusted@));
        assert(d0.take(idx + 1) =~= d0.take(idx as int).push(d0[idx as int]));
        assert(groups_view(general@) =~= d0.take(idx + 1).map_values(
            |g: SettingsGroupView| spec_general_group(g, *config, hotkey_capture),
        ));
    }
    assert(d0.take(n0 as int) == d0);
    let ghost adjusted_view = groups_view(general@);
    let commands = group("指令模块", command_rows(&config.commands));
    general.push(commands);
    let mut maint: Vec<SettingsRow> = Vec::new();
    maint.push(button(RowId::Reset, "恢复默认设置"));
    assert(maint@.map_values(|x: SettingsRow| x@) =~= seq![
        SettingsRowView::Button { id: RowId::Reset, label: "恢复默认设置"@ },
    ]);
    let maintenance = group("维护", maint);
    general.push(maintenance);
    assert(groups_view(general@) =~= adjusted_view.push(commands@).push(maintenance@));
    assert(groups_view(general@) =~= spec_general(*config, hotkey_capture));

    let mut manage: Vec<SettingsRow> = Vec::new();
    manage.push(button(RowId::OpenAppManager, "打开应用管理中心"));
    assert(manage@.map_values(|x: SettingsRow| x@) =~= seq![
        SettingsRowView::Button { id: RowId::OpenAppManager, label: "打开应用管理中心"@ },
    ]);
    let manage_group = group("管理", manage);
    let filter_group = group("关键词过滤", filter_rows(&config.filters));
    let mut apps: Vec<SettingsGroup> = Vec::new();
    apps.push(manage_group);
    apps.push(filter_group);
    assert(groups_view(apps@) =~= seq![manage_group@, filter_group@]);

    let r0 = label_row("版本", version);
    let r1 = label_row("全称", "meow app launcher");
    let r2 = label_row("指令", "meowal");
    let r3 = label_row("岛内核", "spring + FSM + 边界回弹");
    let mut about_rows: Vec<SettingsRow> = Vec::new();
    about_rows.push(r0);
    about_rows.push(r1);
    about_rows.push(r2);
    about_rows.push(r3);
    assert(about_rows@.map_values(|x: SettingsRow| x@) =~= seq![r0@, r1@, r2@, r3@]);
    let about_group = group("关于", about_rows);
    let mut about: Vec<SettingsGroup> = Vec::new();
    about.push(about_group);
    assert(groups_view(about@) =~= seq![about_group@]);

    let p0 = page("常规", "主题 · 热键 · 列表显示喵", general);
    let p1 = page("灵动岛", "胶囊几何 · 锚点 · 动效策略喵", collect_groups(config, 1));
    let p2 = page("弹簧", "六段过渡的时长与弹性手感喵", collect_groups(config, 2));
    let p3 = page("应用", "管理中心 · 关键词过滤喵", apps);
    let p4 = page("关于", "版本与内核信息喵", about);
    let mut pages: Vec<SettingsPage> = Vec::new();
    pages.push(p0);
    pages.push(p1);
    pages.push(p2);
    pages.push(p3);
    pages.push(p4);
    let ghost expected = spec_pages(*config, hotkey_capture, version@);
    assert(p0@ == expected[0]);
    assert(p1@ == expected[1]);
    assert(p2@ == expected[2]);
    assert(p3@ == expected[3]);
    assert(p4@ == expected[4]);
    assert(pages_view(pages@) =~= seq![p0@, p1@, p2@, p3@, p4@]);
    assert(pages_view(pages@) =~= spec_pages(*config, hotkey_capture, version@));
    pages
}

} // verus!
