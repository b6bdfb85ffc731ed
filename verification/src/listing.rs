//! The result list: the browse view shown for an empty query (recent,
//! favourite and frequent applications, then all of them grouped by initial),
//! the ranked list for a query, and moving the selection across it.

use vstd::prelude::*;
use crate::apps::{AppInfo, AppRegistry, AppView, apps_view};
use crate::config::{SearchConfig, spec_filtered};
use crate::fuzzy::Score;
use crate::item::{Action, EntryView, ItemView, ListItem, Scored, SearchItem, app_item, entries_view};
use crate::provider::scored_views;
use crate::search::{
    MAX_RESULTS, ParsedQuery, SearchEngine, SearchMode, app_scores, is_ranking, spec_mode,
};
use crate::provider::{extra_results, spec_calc_item, spec_cmd_query, spec_web_query};
use crate::text::{string_of, trim, trim_chars};
use crate::rank::{rank_order, ranks_before};
use crate::search::{spec_pinyin_initials, to_pinyin_initials};
use crate::text::{
    chars_of, contains, is_ascii_alnum, seq_contains, seq_lt, spec_to_lowercase, spec_to_uppercase, to_lowercase,
    to_uppercase, upper_char,
};

verus! {

/// Toggle the launcher window.
#[derive(Clone, Copy, Debug, PartialEq, Eq, Hash, Structural)]
pub struct ToggleLauncher;

/// Open the settings window.
#[derive(Clone, Copy, Debug, PartialEq, Eq, Hash, Structural)]
pub struct OpenSettings;

/// Quit the application.
#[derive(Clone, Copy, Debug, PartialEq, Eq, Hash, Structural)]
pub struct QuitApp;

/// Application-level commands (from the tray or the settings window, run by
/// the main window's loop).
#[derive(Debug, Clone, Copy, PartialEq, Eq, Structural)]
pub enum Command {
    ToggleLauncher,
    OpenSettings,
    OpenAppManager,
    Rescan,
    Restart,
    ReapplyHotkey,
    RecreateRenderer,
    Quit,
}

/// Which groups the browse view shows.
#[derive(Debug, Clone, Copy, PartialEq, Eq, Structural)]
pub struct BrowseSettings {
    pub show_recent: bool,
    pub show_favorites: bool,
    pub show_frequent: bool,
    pub show_all: bool,
}

/// Largest number of applications in the recent and frequent groups.
pub const QUICK_LIMIT: usize = 8;

/// Heading of the recently opened group.
pub const RECENT_TITLE: &'static str = "最近打开";

/// Heading of the favourites group.
pub const FAVORITES_TITLE: &'static str = "收藏";

/// Heading of the most used group.
pub const FREQUENT_TITLE: &'static str = "最常用";

/// Heading of the system-command group of a result list.
pub const COMMANDS_TITLE: &'static str = "指令";

/// The groups of the browse view.
#[derive(Debug, Clone, Copy, PartialEq, Eq, Structural)]
pub enum Group {
    /// Launched at some time, latest first.
    Recent,
    /// Marked as favourite, in registry order.
    Favorites,
    /// Launched at least once, most launches first.
    Frequent,
    /// Every application, by pinyin initials.
    All,
}

/// The applications that no filter hides, in registry order.
pub open spec fn visible(filters: Seq<crate::config::FilterRule>, apps: Seq<AppView>) -> Seq<AppView> {
    apps.filter(|a: AppView| !spec_filtered(filters, a.name))
}

/// Sort key of the all-applications group.
pub open spec fn initials_key(name: Seq<char>) -> Seq<char> {
    spec_to_uppercase(spec_pinyin_initials(name))
}

/// Application `j` of `v` belongs to group `g`.
pub open spec fn in_group(v: Seq<AppView>, g: Group, j: int) -> bool {
    &&& 0 <= j < v.len()
    &&& match g {
        Group::Recent => v[j].last_used > 0,
        Group::Favorites => v[j].favorite,
        Group::Frequent => v[j].launch_count > 0,
        Group::All => true,
    }
}

/// Within group `g`, application `i` is shown before application `j`.
pub open spec fn shown_before(v: Seq<AppView>, g: Group, i: int, j: int) -> bool {
    match g {
        Group::Recent => v[i].last_used > v[j].last_used || (v[i].last_used == v[j].last_used && i < j),
        Group::Favorites => i < j,
        Group::Frequent => v[i].launch_count > v[j].launch_count || (v[i].launch_count
            == v[j].launch_count && i < j),
        Group::All => seq_lt(initials_key(v[i].name), initials_key(v[j].name)) || (initials_key(
            v[i].name,
        ) == initials_key(v[j].name) && i < j),
    }
}

/// `order` lists the members of group `g` of `v`, each once, in display order.
pub open spec fn is_group_order(v: Seq<AppView>, g: Group, order: Seq<usize>) -> bool {
    &&& forall|k: int| 0 <= k < order.len() ==> #[trigger] in_group(v, g, order[k] as int)
    &&& forall|j: int| #[trigger] in_group(v, g, j) ==> order.contains(j as usize)
    &&& forall|k: int, l: int|
        0 <= k < l < order.len() ==> shown_before(v, g, order[k] as int, order[l] as int)
}

pub open spec fn refs_view(v: Seq<&AppInfo>) -> Seq<AppView> {
    v.map_values(|a: &AppInfo| a@)
}

pub open spec fn pick(v: Seq<AppView>, order: Seq<usize>) -> Seq<AppView> {
    order.map_values(|j: usize| v[j as int])
}

/// The first `QUICK_LIMIT` of `order`.
pub open spec fn cap(order: Seq<usize>) -> Seq<usize> {
    if order.len() > QUICK_LIMIT {
        order.take(QUICK_LIMIT as int)
    } else {
        order
    }
}

/// A group: its heading and its applications, or nothing when it is empty.
pub open spec fn section(title: Seq<char>, apps: Seq<AppView>) -> Seq<EntryView> {
    if apps.len() == 0 {
        Seq::empty()
    } else {
        seq![EntryView::Section(title)] + apps.map_values(|a: AppView| EntryView::Item(app_item(a)))
    }
}

/// The heading letter of an application: the first pinyin initial in ASCII
/// upper case, or `#` when that is not an ASCII letter or digit.
pub open spec fn letter_of(name: Seq<char>) -> char {
    let ini = spec_pinyin_initials(name);
    let c = if ini.len() == 0 {
        '#'
    } else {
        upper_char(ini[0])
    };
    if is_ascii_alnum(c) {
        c
    } else {
        '#'
    }
}

/// Applications under a heading for each new letter.
pub open spec fn letter_groups(apps: Seq<AppView>) -> Seq<EntryView>
    decreases apps.len(),
{
    if apps.len() == 0 {
        Seq::empty()
    } else {
        let l = letter_of(apps.last().name);
        let head = if apps.len() == 1 || letter_of(apps[apps.len() - 2].name) != l {
            seq![EntryView::Section(seq![l])]
        } else {
            Seq::empty()
        };
        letter_groups(apps.drop_last()) + head + seq![EntryView::Item(app_item(apps.last()))]
    }
}

/// Positions of the members of group `g` among `v`, in display order.
fn group_order(v: &Vec<&AppInfo>, g: Group) -> (r: Vec<usize>)
    ensures
        is_group_order(refs_view(v@), g, r@),
{
    let ghost vv = refs_view(v@);
    let mut cand: Vec<usize> = Vec::new();
    let mut scores: Vec<Score> = Vec::new();
    let mut keys: Vec<Vec<char>> = Vec::new();
    for j in 0..v.len()
        invariant
            vv == refs_view(v@),
            cand@.len() == scores@.len(),
            cand@.len() == keys@.len(),
            forall|k: int| 0 <= k < cand@.len() ==> (#[trigger] cand@[k]) < j,
            forall|k: int, l: int| 0 <= k < l < cand@.len() ==> cand@[k] < cand@[l],
            forall|k: int| 0 <= k < cand@.len() ==> in_group(vv, g, #[trigger] cand@[k] as int),
            forall|k: int|
                0 <= k < cand@.len() ==> #[trigger] scores@[k] == (match g {
                    Group::Recent => Score { whole: vv[cand@[k] as int].last_used as u128, span: None },
                    Group::Frequent => Score {
                        whole: vv[cand@[k] as int].launch_count as u128,
                        span: None,
                    },
                    _ => Score { whole: 0, span: None },
                }),
            forall|k: int|
                0 <= k < cand@.len() ==> (#[trigger] keys@[k])@ == (match g {
                    Group::All => initials_key(vv[cand@[k] as int].name),
                    _ => Seq::<char>::empty(),
                }),
            forall|x: int| 0 <= x < j && #[trigger] in_group(vv, g, x) ==> cand@.contains(x as usize),
    {
        let a = v[j];
        assert(vv[j as int] == a@);
        let member = match g {
            Group::Recent => a.last_used > 0,
            Group::Favorites => a.favorite,
            Group::Frequent => a.launch_count > 0,
            Group::All => true,
        };
        let ghost old_cand = cand@;
        if member {
            cand.push(j);
            let s = match g {
                Group::Recent => Score { whole: a.last_used as u128, span: None },
                Group::Frequent => Score { whole: a.launch_count as u128, span: None },
                _ => Score { whole: 0, span: None },
            };
            scores.push(s);
            let key = match g {
                Group::All => {
                    let ini = to_pinyin_initials(a.name.as_str());
                    let up = to_uppercase(ini.as_str());
                    chars_of(up.as_str())
                },
                _ => Vec::new(),
            };
            keys.push(key);
            assert(in_group(vv, g, cand@[cand@.len() - 1] as int));
        }
        proof {
            assert forall|x: int| 0 <= x < j + 1 && #[trigger] in_group(vv, g, x) implies cand@.contains(
                x as usize,
            ) by {
                if x == j {
                    assert(cand@[cand@.len() - 1] == j);
                } else {
                    assert(old_cand.contains(x as usize));
                    let w = choose|w: int| 0 <= w < old_cand.len() && old_cand[w] == x as usize;
                    assert(cand@[w] == old_cand[w]);
                }
            }
        }
    }
    let order = rank_order(&scores, &keys);
    let ghost nm = keys@.map_values(|k: Vec<char>| k@);
    let mut r: Vec<usize> = Vec::new();
    for p in 0..order.len()
        invariant
            order@.len() == cand@.len(),
            forall|k: int| 0 <= k < order@.len() ==> (#[trigger] order@[k]) < cand@.len(),
            r@.len() == p,
            forall|k: int| 0 <= k < p ==> #[trigger] r@[k] == cand@[order@[k] as int],
    {
        r.push(cand[order[p]]);
    }
    proof {
        let n = cand@.len();
        assert forall|k: int| 0 <= k < r@.len() implies #[trigger] in_group(vv, g, r@[k] as int) by {
            assert(r@[k] == cand@[order@[k] as int]);
        }
        assert forall|j: int| #[trigger] in_group(vv, g, j) implies r@.contains(j as usize) by {
            assert(cand@.contains(j as usize));
            let w = choose|w: int| 0 <= w < n && cand@[w] == j as usize;
            assert(order@.contains(w as usize));
            let u = choose|u: int| 0 <= u < n && order@[u] == w as usize;
            assert(r@[u] == j as usize);
        }
        assert forall|k: int, l: int| 0 <= k < l < r@.len() implies shown_before(
            vv,
            g,
            r@[k] as int,
            r@[l] as int,
        ) by {
            let a = order@[k] as int;
            let b = order@[l] as int;
            assert(ranks_before(scores@, nm, a, b));
            assert(nm[a] == keys@[a]@ && nm[b] == keys@[b]@);
            assert(r@[k] == cand@[a] && r@[l] == cand@[b]);
            if a < b {
                assert(cand@[a] < cand@[b]);
            } else if b < a {
                assert(cand@[b] < cand@[a]);
            }
            assert(in_group(vv, g, cand@[a] as int) && in_group(vv, g, cand@[b] as int));
            if g != Group::All {
                crate::text::lemma_lt_irreflexive(Seq::<char>::empty());
            }
        }
    }
    r
}

/// Appends a group: its heading and an item for each application, or
/// nothing when there are no applications.
pub fn push_section(items: &mut Vec<ListItem>, title: &str, apps: &Vec<&AppInfo>)
    ensures
        entries_view(final(items)@) == entries_view(old(items)@) + section(title@, refs_view(apps@)),
{
    if apps.len() == 0 {
        assert(entries_view(items@) + section(title@, refs_view(apps@)) =~= entries_view(items@));
        return;
    }
    let ghost start = entries_view(items@);
    items.push(ListItem::Section(title.to_string()));
    for k in 0..apps.len()
        invariant
            entries_view(items@) == start + seq![EntryView::Section(title@)] + refs_view(apps@).take(
                k as int,
            ).map_values(|a: AppView| EntryView::Item(app_item(a))),
    {
        let ghost before = entries_view(items@);
        items.push(ListItem::Item(SearchItem::from_app(apps[k])));
        assert(refs_view(apps@).take(k + 1) == refs_view(apps@).take(k as int).push(apps@[k as int]@));
        assert(entries_view(items@) =~= before.push(EntryView::Item(app_item(apps@[k as int]@))));
        assert(refs_view(apps@).take(k + 1).map_values(|a: AppView| EntryView::Item(app_item(a)))
            =~= refs_view(apps@).take(k as int).map_values(|a: AppView| EntryView::Item(app_item(a))).push(
            EntryView::Item(app_item(apps@[k as int]@)),
        ));
    }
    assert(refs_view(apps@).take(apps@.len() as int) == refs_view(apps@));
}

/// The heading letter of an application.
pub fn group_letter(name: &str) -> (r: char)
    ensures
        r == letter_of(name@),
{
    let ini = to_pinyin_initials(name);
    let v = chars_of(ini.as_str());
    let c = if v.len() == 0 {
        '#'
    } else {
        crate::text::char_upper(v[0])
    };
    if ('0' <= c && c <= '9') || ('A' <= c && c <= 'Z') || ('a' <= c && c <= 'z') {
        c
    } else {
        '#'
    }
}

/// Appends every application sorted by pinyin initials (stable), with a
/// heading before each new initial letter.
pub fn push_initial_groups(items: &mut Vec<ListItem>, apps: &Vec<&AppInfo>)
    ensures
        exists|order: Seq<usize>|
            #![trigger is_group_order(refs_view(apps@), Group::All, order)]
            is_group_order(refs_view(apps@), Group::All, order) && entries_view(final(items)@)
                == entries_view(old(items)@) + letter_groups(pick(refs_view(apps@), order)),
{
    let ghost v = refs_view(apps@);
    let ghost start = entries_view(items@);
    let order = group_order(apps, Group::All);
    let mut current: char = '\0';
    for k in 0..order.len()
        invariant
            v == refs_view(apps@),
            is_group_order(v, Group::All, order@),
            entries_view(items@) == start + letter_groups(pick(v, order@.take(k as int))),
            k == 0 ==> current == '\0',
            k > 0 ==> current == letter_of(v[order@[k - 1] as int].name),
    {
        assert(in_group(v, Group::All, order@[k as int] as int));
        let app = apps[order[k]];
        assert(v[order@[k as int] as int] == app@);
        let ghost prefix = pick(v, order@.take(k as int));
        assert(pick(v, order@.take(k + 1)) =~= prefix.push(app@));
        assert(pick(v, order@.take(k + 1)).drop_last() =~= prefix);
        if k > 0 {
            assert(prefix[prefix.len() - 1] == v[order@[k - 1] as int]);
        }
        let letter = group_letter(app.name.as_str());
        let ghost before = entries_view(items@);
        if letter != current {
            current = letter;
            let mut t = String::new();
            crate::text::string_push(&mut t, letter);
            items.push(ListItem::Section(t));
        }
        items.push(ListItem::Item(SearchItem::from_app(app)));
        proof {
            let l = letter_of(app@.name);
            let head = if prefix.len() == 0 || letter_of(prefix[prefix.len() - 1].name) != l {
                seq![EntryView::Section(seq![l])]
            } else {
                Seq::<EntryView>::empty()
            };
            assert(letter_groups(prefix.push(app@)) == letter_groups(prefix) + head + seq![
                EntryView::Item(app_item(app@)),
            ]);
            assert(entries_view(items@) =~= before + head + seq![EntryView::Item(app_item(app@))]);
        }
    }
    assert(order@.take(order@.len() as int) == order@);
}

/// The browse view's applications: those no filter hides.
fn visible_apps<'a>(registry: &'a AppRegistry, config: &SearchConfig) -> (r: Vec<&'a AppInfo>)
    ensures
        refs_view(r@) == visible(config.filters@, apps_view(registry.apps@)),
{
    let ghost all = apps_view(registry.apps@);
    let mut out: Vec<&AppInfo> = Vec::new();
    for j in 0..registry.apps.len()
        invariant
            all == apps_view(registry.apps@),
            refs_view(out@) == visible(config.filters@, all.take(j as int)),
    {
        let a = &registry.apps[j];
        proof {
            reveal_with_fuel(Seq::<_>::filter, 1);
            assert(all.take(j + 1).drop_last() == all.take(j as int));
            assert(all.take(j + 1).last() == a@);
        }
        if !config.is_app_filtered(a.name.as_str()) {
            out.push(a);
            assert(refs_view(out@) =~= refs_view(out@.drop_last()).push(a@));
        }
    }
    assert(all.take(registry.apps@.len() as int) == all);
    out
}

fn picked<'a>(v: &Vec<&'a AppInfo>, order: &Vec<usize>, limit: usize) -> (r: Vec<&'a AppInfo>)
    requires
        forall|k: int| 0 <= k < order@.len() ==> (#[trigger] order@[k]) < v@.len(),
    ensures
        refs_view(r@) == pick(refs_view(v@), if order@.len() > limit {
            order@.take(limit as int)
        } else {
            order@
        }),
{
    let n = if order.len() > limit {
        limit
    } else {
        order.len()
    };
    let ghost o = if order@.len() > limit {
        order@.take(limit as int)
    } else {
        order@
    };
    let mut out: Vec<&'a AppInfo> = Vec::new();
    for k in 0..n
        invariant
            n <= order@.len(),
            o.len() == n,
            forall|i: int| 0 <= i < n ==> o[i] == order@[i],
            forall|i: int| 0 <= i < order@.len() ==> (#[trigger] order@[i]) < v@.len(),
            refs_view(out@) == pick(refs_view(v@), o.take(k as int)),
    {
        let ghost before = out@;
        let j = order[k];
        assert(j < v@.len());
        out.push(v[j]);
        assert(o.take(k + 1) == o.take(k as int).push(j));
        assert(refs_view(v@)[j as int] == v@[j as int]@);
        assert(refs_view(out@) =~= refs_view(before).push(v@[j as int]@));
        assert(pick(refs_view(v@), o.take(k + 1)) =~= pick(refs_view(v@), o.take(k as int)).push(
            refs_view(v@)[j as int],
        ));
    }
    assert(o.take(n as int) == o);
    out
}

/// The browse view for the given groups.
pub open spec fn spec_browse(
    v: Seq<AppView>,
    show: BrowseSettings,
    recent: Seq<usize>,
    favorites: Seq<usize>,
    frequent: Seq<usize>,
    all: Seq<usize>,
) -> Seq<EntryView> {
    (if show.show_recent {
        section(RECENT_TITLE@, pick(v, cap(recent)))
    } else {
        Seq::empty()
    }) + (if show.show_favorites {
        section(FAVORITES_TITLE@, pick(v, favorites))
    } else {
        Seq::empty()
    }) + (if show.show_frequent {
        section(FREQUENT_TITLE@, pick(v, cap(frequent)))
    } else {
        Seq::empty()
    }) + (if show.show_all {
        letter_groups(pick(v, all))
    } else {
        Seq::empty()
    })
}

/// The list shown for an empty query: among the applications no filter
/// hides, the latest opened (at most eight), the favourites, the most
/// launched (at most eight) and then all of them under initial letters,
/// each group only when switched on and not empty.
pub fn browse_list(registry: &AppRegistry, config: &SearchConfig, show: BrowseSettings) -> (r: Vec<
    ListItem,
>)
    ensures
        exists|ro: Seq<usize>, fo: Seq<usize>, qo: Seq<usize>, ao: Seq<usize>|
            #![trigger spec_browse(visible(config.filters@, apps_view(registry.apps@)), show, ro, fo, qo, ao)]
            {
                let v = visible(config.filters@, apps_view(registry.apps@));
                &&& show.show_recent ==> is_group_order(v, Group::Recent, ro)
                &&& show.show_favorites ==> is_group_order(v, Group::Favorites, fo)
                &&& show.show_frequent ==> is_group_order(v, Group::Frequent, qo)
                &&& show.show_all ==> is_group_order(v, Group::All, ao)
                &&& entries_view(r@) == spec_browse(v, show, ro, fo, qo, ao)
            },
{
    let vis = visible_apps(registry, config);
    let ghost v = refs_view(vis@);
    let mut items: Vec<ListItem> = Vec::new();
    let ghost mut ro: Seq<usize> = Seq::empty();
    let ghost mut fo: Seq<usize> = Seq::empty();
    let ghost mut qo: Seq<usize> = Seq::empty();
    let ghost mut ao: Seq<usize> = Seq::empty();
    proof {
        reveal_strlit("最近打开");
        reveal_strlit("收藏");
        reveal_strlit("最常用");
    }
    if show.show_recent {
        let order = group_order(&vis, Group::Recent);
        assert forall|k: int| 0 <= k < order@.len() implies (#[trigger] order@[k]) < vis@.len() by {
            assert(in_group(v, Group::Recent, order@[k] as int));
        }
        let apps = picked(&vis, &order, QUICK_LIMIT);
        push_section(&mut items, RECENT_TITLE, &apps);
        proof {
            ro = order@;
        }
    }
    let ghost e1 = entries_view(items@);
    if show.show_favorites {
        let order = group_order(&vis, Group::Favorites);
        assert forall|k: int| 0 <= k < order@.len() implies (#[trigger] order@[k]) < vis@.len() by {
            assert(in_group(v, Group::Favorites, order@[k] as int));
        }
        let apps = picked(&vis, &order, order.len());
        push_section(&mut items, FAVORITES_TITLE, &apps);
        proof {
            fo = order@;
        }
    }
    let ghost e2 = entries_view(items@);
    if show.show_frequent {
        let order = group_order(&vis, Group::Frequent);
        assert forall|k: int| 0 <= k < order@.len() implies (#[trigger] order@[k]) < vis@.len() by {
            assert(in_group(v, Group::Frequent, order@[k] as int));
        }
        let apps = picked(&vis, &order, QUICK_LIMIT);
        push_section(&mut items, FREQUENT_TITLE, &apps);
        proof {
            qo = order@;
        }
    }
    let ghost e3 = entries_view(items@);
    if show.show_all {
        push_initial_groups(&mut items, &vis);
        proof {
            ao = choose|order: Seq<usize>|
                is_group_order(v, Group::All, order) && entries_view(items@) == e3 + letter_groups(
                    pick(v, order),
                );
        }
    }
    proof {
        assert(entries_view(items@) =~= spec_browse(v, show, ro, fo, qo, ao));
    }
    items
}

/// Result `j` runs a system command.
pub open spec fn is_command(v: Seq<(Score, ItemView)>, j: int) -> bool {
    v[j].1.action is SystemCommand
}

/// Result `j` belongs to the command part (`commands`) or to the rest.
pub open spec fn in_part(v: Seq<(Score, ItemView)>, commands: bool, j: int) -> bool {
    0 <= j < v.len() && is_command(v, j) == commands
}

pub open spec fn score_seq(v: Seq<(Score, ItemView)>) -> Seq<Score> {
    v.map_values(|s: (Score, ItemView)| s.0)
}

pub open spec fn title_seq(v: Seq<(Score, ItemView)>) -> Seq<Seq<char>> {
    v.map_values(|s: (Score, ItemView)| s.1.title)
}

/// `order` lists the members of one part, each once, best first (by score,
/// then title, then position).
pub open spec fn is_part_order(v: Seq<(Score, ItemView)>, commands: bool, order: Seq<usize>) -> bool {
    &&& forall|k: int| 0 <= k < order.len() ==> #[trigger] in_part(v, commands, order[k] as int)
    &&& forall|j: int| #[trigger] in_part(v, commands, j) ==> order.contains(j as usize)
    &&& forall|k: int, l: int|
        0 <= k < l < order.len() ==> ranks_before(score_seq(v), title_seq(v), order[k] as int, order[l] as int)
}

pub open spec fn items_of(v: Seq<(Score, ItemView)>, order: Seq<usize>) -> Seq<EntryView> {
    order.map_values(|j: usize| EntryView::Item(v[j as int].1))
}

/// The final list: the best `MAX_RESULTS` ordinary results, then the system
/// commands under their own heading.
pub open spec fn spec_aggregate(v: Seq<(Score, ItemView)>, rest: Seq<usize>, commands: Seq<usize>) -> Seq<EntryView> {
    items_of(
        v,
        if rest.len() > MAX_RESULTS {
            rest.take(MAX_RESULTS as int)
        } else {
            rest
        },
    ) + (if commands.len() > 0 {
        seq![EntryView::Section(COMMANDS_TITLE@)] + items_of(v, commands)
    } else {
        Seq::empty()
    })
}

fn part_order(v: &Vec<Scored>, commands: bool) -> (r: Vec<usize>)
    ensures
        is_part_order(scored_views(v@), commands, r@),
{
    let ghost w = scored_views(v@);
    let mut cand: Vec<usize> = Vec::new();
    let mut scores: Vec<Score> = Vec::new();
    let mut keys: Vec<Vec<char>> = Vec::new();
    for j in 0..v.len()
        invariant
            cand@.len() == scores@.len(),
            cand@.len() == keys@.len(),
            w == scored_views(v@),
            forall|k: int| 0 <= k < cand@.len() ==> (#[trigger] cand@[k]) < j,
            forall|k: int, l: int| 0 <= k < l < cand@.len() ==> cand@[k] < cand@[l],
            forall|k: int| 0 <= k < cand@.len() ==> in_part(w, commands, #[trigger] cand@[k] as int),
            forall|k: int| 0 <= k < cand@.len() ==> #[trigger] scores@[k] == v@[cand@[k] as int].score,
            forall|k: int| 0 <= k < cand@.len() ==> (#[trigger] keys@[k])@ == v@[cand@[k] as int].item.title@,
            forall|x: int| 0 <= x < j && #[trigger] in_part(w, commands, x) ==> cand@.contains(x as usize),
    {
        assert(w[j as int] == (v@[j as int].score, v@[j as int].item@));
        let is_cmd = match &v[j].item.action {
            Action::SystemCommand(_) => true,
            _ => false,
        };
        let ghost old_cand = cand@;
        if is_cmd == commands {
            cand.push(j);
            scores.push(v[j].score);
            keys.push(chars_of(v[j].item.title.as_str()));
            assert(in_part(w, commands, cand@[cand@.len() - 1] as int));
        }
        proof {
            assert forall|x: int| 0 <= x < j + 1 && #[trigger] in_part(w, commands, x) implies cand@.contains(
                x as usize,
            ) by {
                if x == j {
                    assert(cand@[cand@.len() - 1] == j);
                } else {
                    assert(old_cand.contains(x as usize));
                    let w = choose|w: int| 0 <= w < old_cand.len() && old_cand[w] == x as usize;
                    assert(cand@[w] == old_cand[w]);
                }
            }
        }
    }
    let order = rank_order(&scores, &keys);
    let ghost nm = keys@.map_values(|k: Vec<char>| k@);
    let mut r: Vec<usize> = Vec::new();
    for p in 0..order.len()
        invariant
            order@.len() == cand@.len(),
            forall|k: int| 0 <= k < order@.len() ==> (#[trigger] order@[k]) < cand@.len(),
            r@.len() == p,
            forall|k: int| 0 <= k < p ==> #[trigger] r@[k] == cand@[order@[k] as int],
    {
        r.push(cand[order[p]]);
    }
    proof {
        let n = cand@.len();
        assert forall|k: int| 0 <= k < r@.len() implies #[trigger] in_part(w, commands, r@[k] as int) by {
            assert(r@[k] == cand@[order@[k] as int]);
        }
        assert forall|j: int| #[trigger] in_part(w, commands, j) implies r@.contains(j as usize) by {
            assert(cand@.contains(j as usize));
            let w = choose|w: int| 0 <= w < n && cand@[w] == j as usize;
            assert(order@.contains(w as usize));
            let u = choose|u: int| 0 <= u < n && order@[u] == w as usize;
            assert(r@[u] == j as usize);
        }
        assert forall|k: int, l: int| 0 <= k < l < r@.len() implies ranks_before(
            score_seq(w),
            title_seq(w),
            r@[k] as int,
            r@[l] as int,
        ) by {
            let a = order@[k] as int;
            let b = order@[l] as int;
            assert(ranks_before(scores@, nm, a, b));
            assert(nm[a] == keys@[a]@ && nm[b] == keys@[b]@);
            assert(r@[k] == cand@[a] && r@[l] == cand@[b]);
            assert(in_part(w, commands, cand@[a] as int) && in_part(w, commands, cand@[b] as int));
            assert(score_seq(w)[cand@[a] as int] == scores@[a]);
            assert(score_seq(w)[cand@[b] as int] == scores@[b]);
            assert(title_seq(w)[cand@[a] as int] == nm[a]);
            assert(title_seq(w)[cand@[b] as int] == nm[b]);
            if a < b {
                assert(cand@[a] < cand@[b]);
            } else if b < a {
                assert(cand@[b] < cand@[a]);
            }
        }
    }
    r
}

fn push_items(items: &mut Vec<ListItem>, v: &Vec<Scored>, order: &Vec<usize>, limit: usize)
    requires
        forall|k: int| 0 <= k < order@.len() ==> (#[trigger] order@[k]) < v@.len(),
    ensures
        entries_view(final(items)@) == entries_view(old(items)@) + items_of(
            scored_views(v@),
            if order@.len() > limit {
                order@.take(limit as int)
            } else {
                order@
            },
        ),
{
    let n = if order.len() > limit {
        limit
    } else {
        order.len()
    };
    let ghost o = if order@.len() > limit {
        order@.take(limit as int)
    } else {
        order@
    };
    let ghost start = entries_view(items@);
    for k in 0..n
        invariant
            n <= order@.len(),
            o.len() == n,
            forall|i: int| 0 <= i < n ==> o[i] == order@[i],
            forall|i: int| 0 <= i < order@.len() ==> (#[trigger] order@[i]) < v@.len(),
            entries_view(items@) == start + items_of(scored_views(v@), o.take(k as int)),
    {
        let j = order[k];
        let ghost before = entries_view(items@);
        items.push(ListItem::Item(v[j].item.duplicate()));
        assert(o.take(k + 1) == o.take(k as int).push(j));
        assert(scored_views(v@)[j as int].1 == v@[j as int].item@);
        assert(items_of(scored_views(v@), o.take(k + 1)) =~= items_of(scored_views(v@), o.take(k as int)).push(
            EntryView::Item(v@[j as int].item@),
        ));
        assert(entries_view(items@) =~= before.push(EntryView::Item(v@[j as int].item@)));
    }
    assert(o.take(n as int) == o);
}

/// Orders the results of every source into the final list: ordinary results
/// by score (best first, then by title, stable) cut to `MAX_RESULTS`, then
/// the system commands, ordered the same way, under their own heading at
/// the bottom so that they are never hit by accident.
pub fn aggregate_items(scored: Vec<Scored>) -> (r: Vec<ListItem>)
    ensures
        exists|ro: Seq<usize>, co: Seq<usize>|
            #![trigger spec_aggregate(scored_views(scored@), ro, co)]
            is_part_order(scored_views(scored@), false, ro) && is_part_order(scored_views(scored@), true, co) && entries_view(r@)
                == spec_aggregate(scored_views(scored@), ro, co),
{
    let ro = part_order(&scored, false);
    let co = part_order(&scored, true);
    assert forall|k: int| 0 <= k < ro@.len() implies (#[trigger] ro@[k]) < scored@.len() by {
        assert(in_part(scored_views(scored@), false, ro@[k] as int));
    }
    assert forall|k: int| 0 <= k < co@.len() implies (#[trigger] co@[k]) < scored@.len() by {
        assert(in_part(scored_views(scored@), true, co@[k] as int));
    }
    let mut items: Vec<ListItem> = Vec::new();
    push_items(&mut items, &scored, &ro, MAX_RESULTS);
    let ghost e1 = entries_view(items@);
    if co.len() > 0 {
        proof {
            reveal_strlit("指令");
        }
        items.push(ListItem::Section(COMMANDS_TITLE.to_string()));
        push_items(&mut items, &scored, &co, co.len());
    }
    assert(entries_view(items@) =~= spec_aggregate(scored_views(scored@), ro@, co@));
    items
}

/// Position of the first item that can be activated (headings are skipped).
pub fn first_selectable_index(items: &Vec<ListItem>) -> (r: Option<usize>)
    ensures
        match r {
            Some(i) => i < items@.len() && items@[i as int] is Item && forall|k: int|
                0 <= k < i ==> #[trigger] items@[k] is Section,
            None => forall|k: int| 0 <= k < items@.len() ==> #[trigger] items@[k] is Section,
        },
{
    for i in 0..items.len()
        invariant
            forall|k: int| 0 <= k < i ==> #[trigger] items@[k] is Section,
    {
        match &items[i] {
            ListItem::Item(_) => {
                return Some(i);
            },
            ListItem::Section(_) => {},
        }
    }
    None
}

/// Stepping `left` times by `delta` (wrapping around) from `idx`: the first
/// position reached that holds an item.
pub open spec fn scan_from(v: Seq<ListItem>, idx: int, delta: int, left: nat) -> Option<int>
    decreases left,
{
    if left == 0 || v.len() == 0 {
        None
    } else {
        let next = (idx + delta) % (v.len() as int);
        if v[next] is Item {
            Some(next)
        } else {
            scan_from(v, next, delta, (left - 1) as nat)
        }
    }
}

/// Where the selection lands after moving by `delta` from `selected`: the
/// first item reached stepping by `delta` around the list, at most one full
/// turn; the selection stays put when there is none.
pub open spec fn spec_move(v: Seq<ListItem>, selected: int, delta: int) -> int {
    match scan_from(v, selected, delta, v.len()) {
        Some(i) => i,
        None => selected,
    }
}

proof fn lemma_neg_mod(x: int, n: int)
    requires
        x > 0,
        n > 0,
    ensures
        x % n == 0 ==> (-x) % n == 0,
        x % n != 0 ==> (-x) % n == n - x % n,
{
    let r = x % n;
    vstd::arithmetic::div_mod::lemma_sub_mod_noop(0, x, n);
    assert(0int % n == 0);
    assert((0 - r) % n == (0 - x) % n);
    if r == 0 {
        assert(0int % n == 0);
    } else {
        vstd::arithmetic::div_mod::lemma_mod_multiples_vanish(1, -r, n);
        assert(n * 1 + -r == n - r);
        vstd::arithmetic::div_mod::lemma_small_mod((n - r) as nat, n as nat);
    }
}

/// Moves the selection by `delta` steps, skipping headings and wrapping
/// around; an empty list keeps the selection.
pub fn move_selection(items: &Vec<ListItem>, selected: usize, delta: isize) -> (r: usize)
    requires
        selected <= isize::MAX,
    ensures
        r == spec_move(items@, selected as int, delta as int),
{
    let n = items.len();
    if n == 0 {
        return selected;
    }
    let ghost ni = n as int;
    let d: usize = if delta >= 0 {
        (delta as usize) % n
    } else {
        let a = ((-(delta as i128)) as u128 % (n as u128)) as usize;
        proof {
            lemma_neg_mod(-(delta as int), ni);
        }
        if a == 0 {
            0
        } else {
            n - a
        }
    };
    assert(d as int == (delta as int) % ni);
    let mut idx: usize = selected % n;
    let ghost mut cur: int = selected as int;
    let mut left: usize = n;
    while left > 0
        invariant
            n == items@.len(),
            ni == n as int,
            n > 0,
            d as int == (delta as int) % ni,
            idx < n,
            cur % ni == idx as int,
            left <= n,
            scan_from(items@, selected as int, delta as int, n as nat) == scan_from(
                items@,
                cur,
                delta as int,
                left as nat,
            ),
        decreases left,
    {
        proof {
            vstd::arithmetic::div_mod::lemma_add_mod_noop(cur, delta as int, ni);
        }
        let next = ((idx as u128 + d as u128) % (n as u128)) as usize;
        assert(next as int == (cur + delta as int) % ni);
        match &items[next] {
            ListItem::Item(_) => {
                return next;
            },
            ListItem::Section(_) => {},
        }
        proof {
            cur = (cur + delta as int) % ni;
            vstd::arithmetic::div_mod::lemma_small_mod(cur as nat, ni as nat);
        }
        idx = next;
        left = left - 1;
    }
    selected
}

/// The built-in results for a name query.
pub open spec fn extras_view(q: Seq<char>, calc: Option<Seq<char>>, cfg: SearchConfig) -> Seq<(Score, ItemView)> {
    (match calc {
        Some(res) => seq![spec_calc_item(q, res)],
        None => Seq::empty(),
    }) + spec_cmd_query(q, cfg.commands@) + spec_web_query(q, cfg.web_engine)
}

/// Everything a non-empty query collects before ranking: the built-in
/// results (name queries only), then the matching applications `js` with
/// their scores.
pub open spec fn collected(
    idx: Set<Seq<char>>,
    cfg: SearchConfig,
    apps: Seq<AppView>,
    q: Seq<char>,
    calc: Option<Seq<char>>,
    js: Seq<int>,
) -> Seq<(Score, ItemView)> {
    (if spec_mode(q) == SearchMode::Name {
        extras_view(q, calc, cfg)
    } else {
        Seq::empty()
    }) + js.map_values(|j: int| (app_scores(idx, apps, q)[j], app_item(apps[j])))
}

pub open spec fn opt_view(o: Option<&str>) -> Option<Seq<char>> {
    match o {
        Some(s) => Some(s@),
        None => None,
    }
}

/// The list for the query text: the browse view when the trimmed query is
/// empty; otherwise every result ranked, the built-in ones (calculator answer
/// `calc_result` when the caller found one, system commands, web search)
/// joining only for name queries.
pub fn list_results(
    engine: &SearchEngine,
    registry: &AppRegistry,
    config: &SearchConfig,
    show: BrowseSettings,
    query: &str,
    calc_result: Option<&str>,
) -> (r: Vec<ListItem>)
    ensures
        trim(query@).len() == 0 ==> exists|ro: Seq<usize>, fo: Seq<usize>, qo: Seq<usize>, ao: Seq<usize>|
            #![trigger spec_browse(visible(config.filters@, apps_view(registry.apps@)), show, ro, fo, qo, ao)]
            {
                let v = visible(config.filters@, apps_view(registry.apps@));
                &&& show.show_recent ==> is_group_order(v, Group::Recent, ro)
                &&& show.show_favorites ==> is_group_order(v, Group::Favorites, fo)
                &&& show.show_frequent ==> is_group_order(v, Group::Frequent, qo)
                &&& show.show_all ==> is_group_order(v, Group::All, ao)
                &&& entries_view(r@) == spec_browse(v, show, ro, fo, qo, ao)
            },
        trim(query@).len() > 0 ==> exists|js: Seq<int>, ro: Seq<usize>, co: Seq<usize>|
            #![trigger is_ranking(engine.pinyin@, config.filters@, apps_view(registry.apps@), trim(query@), js), spec_aggregate(collected(engine.pinyin@, *config, apps_view(registry.apps@), trim(query@), opt_view(calc_result), js), ro, co)]
            {
                let w = collected(
                    engine.pinyin@,
                    *config,
                    apps_view(registry.apps@),
                    trim(query@),
                    opt_view(calc_result),
                    js,
                );
                &&& is_ranking(engine.pinyin@, config.filters@, apps_view(registry.apps@), trim(query@), js)
                &&& is_part_order(w, false, ro)
                &&& is_part_order(w, true, co)
                &&& entries_view(r@) == spec_aggregate(w, ro, co)
            },
{
    let qv = chars_of(query);
    let qt = trim_chars(&qv);
    if qt.len() == 0 {
        return browse_list(registry, config, show);
    }
    let q = string_of(&qt);
    let mut scored: Vec<Scored> = if ParsedQuery::parse(q.as_str()).mode == SearchMode::Name {
        extra_results(q.as_str(), calc_result, config)
    } else {
        Vec::new()
    };
    let ghost first = scored_views(scored@);
    let hits = engine.search_scored(registry, config, q.as_str());
    let ghost idx = engine.pinyin@;
    let ghost apps = apps_view(registry.apps@);
    let ghost js = choose|js: Seq<int>|
        is_ranking(idx, config.filters@, apps, q@, js) && hits@.len() == js.len() && forall|k: int|
            0 <= k < js.len() ==> (#[trigger] hits@[k]).0 == registry.apps@[js[k]] && hits@[k].1
                == app_scores(idx, apps, q@)[js[k]];
    let ghost tail = js.map_values(|j: int| (app_scores(idx, apps, q@)[j], app_item(apps[j])));
    for k in 0..hits.len()
        invariant
            hits@.len() == js.len(),
            forall|i: int|
                0 <= i < js.len() ==> (#[trigger] hits@[i]).0 == registry.apps@[js[i]] && hits@[i].1
                    == app_scores(idx, apps, q@)[js[i]],
            forall|i: int| 0 <= i < js.len() ==> 0 <= #[trigger] js[i] < registry.apps@.len(),
            apps == apps_view(registry.apps@),
            tail == js.map_values(|j: int| (app_scores(idx, apps, q@)[j], app_item(apps[j]))),
            scored_views(scored@) == first + tail.take(k as int),
    {
        let (app, s) = hits[k];
        let ghost before = scored_views(scored@);
        scored.push(Scored::new(s, SearchItem::from_app(app)));
        proof {
            assert(apps[js[k as int]] == app@);
            assert(tail.take(k + 1) == tail.take(k as int).push(tail[k as int]));
            assert(scored_views(scored@) =~= before.push(tail[k as int]));
        }
    }
    proof {
        assert(tail.take(js.len() as int) == tail);
        assert(scored_views(scored@) == collected(idx, *config, apps, trim(query@), opt_view(calc_result), js));
    }
    aggregate_items(scored)
}

proof fn lemma_scan_lands(v: Seq<ListItem>, idx: int, delta: int, left: nat)
    ensures
        scan_from(v, idx, delta, left) matches Some(i) ==> 0 <= i < v.len() && v[i] is Item,
    decreases left,
{
    if left > 0 && v.len() > 0 {
        let next = (idx + delta) % (v.len() as int);
        lemma_scan_lands(v, next, delta, (left - 1) as nat);
    }
}

/// Moving the selection lands on an item, or leaves the selection where it
/// was.
pub proof fn lemma_move_lands_on_item(v: Seq<ListItem>, selected: int, delta: int)
    ensures
        spec_move(v, selected, delta) == selected || (0 <= spec_move(v, selected, delta) < v.len()
            && v[spec_move(v, selected, delta)] is Item),
{
    lemma_scan_lands(v, selected, delta, v.len());
}

/// The item under the selection, if the selection is on an item.
pub fn selected_item(items: &Vec<ListItem>, selected: usize) -> (r: Option<&SearchItem>)
    ensures
        match r {
            Some(it) => selected < items@.len() && items@[selected as int]@ == EntryView::Item(it@),
            None => selected >= items@.len() || items@[selected as int] is Section,
        },
{
    if selected >= items.len() {
        return None;
    }
    match &items[selected] {
        ListItem::Item(it) => Some(it),
        ListItem::Section(_) => None,
    }
}

/// The browse view draws only on registered applications that no filter
/// rule hides (search results exclude them through `is_hit`).
pub proof fn lemma_browse_hides_filtered(filters: Seq<crate::config::FilterRule>, apps: Seq<AppView>)
    ensures
        forall|i: int|
            0 <= i < visible(filters, apps).len() ==> !spec_filtered(filters, #[trigger] visible(filters, apps)[i].name)
                && apps.contains(visible(filters, apps)[i]),
{
    let p = |a: AppView| !spec_filtered(filters, a.name);
    let v = apps.filter(p);
    assert forall|i: int| 0 <= i < v.len() implies !spec_filtered(filters, #[trigger] v[i].name) && apps.contains(v[i]) by {
        apps.filter_lemma(p);
        assert(p(v[i]));
        assert(v.contains(v[i]));
        apps.lemma_filter_contains_rev(p, v[i]);
    }
}

/// An application is listed in the manager for the lower-cased keyword
/// `kw`: every application when it is empty, otherwise one whose lower-cased
/// name or some lower-cased tag holds it.
pub open spec fn manager_match(a: AppView, kw: Seq<char>) -> bool {
    kw.len() == 0 || seq_contains(spec_to_lowercase(a.name), kw) || exists|t: int|
        0 <= t < a.tags.len() && seq_contains(spec_to_lowercase(#[trigger] a.tags[t]), kw)
}

/// The applications the manager lists for the filter text `keyword`.
pub open spec fn manager_list(apps: Seq<AppView>, keyword: Seq<char>) -> Seq<AppView> {
    apps.filter(|a: AppView| manager_match(a, spec_to_lowercase(trim(keyword))))
}

fn lower_chars_of(s: &str) -> (r: Vec<char>)
    ensures
        r@ == spec_to_lowercase(s@),
{
    let l = to_lowercase(s);
    chars_of(l.as_str())
}

fn manager_matches(a: &AppInfo, kw: &Vec<char>) -> (r: bool)
    ensures
        r == manager_match(a@, kw@),
{
    if kw.len() == 0 {
        return true;
    }
    let name = lower_chars_of(a.name.as_str());
    if contains(&name, kw) {
        return true;
    }
    let ghost tags = a@.tags;
    for t in 0..a.tags.len()
        invariant
            tags == a@.tags,
            tags.len() == a.tags@.len(),
            kw@.len() > 0,
            !seq_contains(spec_to_lowercase(a@.name), kw@),
            forall|u: int| 0 <= u < t ==> !seq_contains(spec_to_lowercase(#[trigger] tags[u]), kw@),
    {
        assert(tags[t as int] == a.tags@[t as int]@);
        let tag = lower_chars_of(a.tags[t].as_str());
        if contains(&tag, kw) {
            return true;
        }
    }
    false
}

/// The application manager's list for the filter text `keyword` (trimmed,
/// compared in lower case): the matching applications ordered by the
/// upper-cased pinyin initials of their names, in registry order among
/// equals.
pub fn filtered_apps(registry: &AppRegistry, keyword: &str) -> (r: Vec<AppInfo>)
    ensures
        exists|order: Seq<usize>|
            #![trigger pick(manager_list(apps_view(registry.apps@), keyword@), order)]
            is_group_order(manager_list(apps_view(registry.apps@), keyword@), Group::All, order) && apps_view(r@)
                == pick(manager_list(apps_view(registry.apps@), keyword@), order),
{
    let kt = trim_chars(&chars_of(keyword));
    let kw = lower_chars_of(string_of(&kt).as_str());
    let ghost all = apps_view(registry.apps@);
    let ghost p = |a: AppView| manager_match(a, spec_to_lowercase(trim(keyword@)));
    let mut hits: Vec<&AppInfo> = Vec::new();
    for j in 0..registry.apps.len()
        invariant
            all == apps_view(registry.apps@),
            kw@ == spec_to_lowercase(trim(keyword@)),
            p == (|a: AppView| manager_match(a, spec_to_lowercase(trim(keyword@)))),
            refs_view(hits@) == all.take(j as int).filter(p),
    {
        let a = &registry.apps[j];
        proof {
            reveal_with_fuel(Seq::<_>::filter, 1);
            assert(all.take(j + 1).drop_last() == all.take(j as int));
            assert(all.take(j + 1).last() == a@);
        }
        if manager_matches(a, &kw) {
            hits.push(a);
            assert(refs_view(hits@) =~= refs_view(hits@.drop_last()).push(a@));
        }
    }
    assert(all.take(registry.apps@.len() as int) == all);
    let ghost m = refs_view(hits@);
    assert(m == manager_list(all, keyword@));
    let order = group_order(&hits, Group::All);
    assert forall|k: int| 0 <= k < order@.len() implies (#[trigger] order@[k]) < hits@.len() by {
        assert(in_group(m, Group::All, order@[k] as int));
    }
    let chosen = picked(&hits, &order, order.len());
    let mut out: Vec<AppInfo> = Vec::new();
    for k in 0..chosen.len()
        invariant
            apps_view(out@) == refs_view(chosen@).take(k as int),
    {
        out.push(chosen[k].duplicate());
        assert(refs_view(chosen@).take(k + 1) == refs_view(chosen@).take(k as int).push(chosen@[k as int]@));
        assert(apps_view(out@) =~= apps_view(out@.drop_last()).push(out@.last()@));
    }
    assert(refs_view(chosen@).take(chosen@.len() as int) == refs_view(chosen@));
    out
}

/// Labels of the tray menu, in order; the first entry toggles the launcher
/// and reads `隐藏` while it is visible, `显示` otherwise.
pub open spec fn spec_tray_labels(launcher_visible: bool) -> Seq<Seq<char>> {
    seq![
        if launcher_visible {
            "隐藏"@
        } else {
            "显示"@
        },
        "扫描应用"@,
        "设置"@,
        "应用管理"@,
        "重启"@,
        "退出"@,
    ]
}

/// The tray menu for the launcher's visibility: six enabled entries.
pub fn tray_menu(launcher_visible: bool) -> (r: Vec<crate::platform::TrayMenuItem>)
    ensures
        r@.len() == 6,
        forall|i: int|
            0 <= i < 6 ==> (#[trigger] r@[i]).label@ == spec_tray_labels(launcher_visible)[i] && r@[i].enabled,
{
    let first = if launcher_visible {
        "隐藏"
    } else {
        "显示"
    };
    let labels = [first, "扫描应用", "设置", "应用管理", "重启", "退出"];
    let mut r: Vec<crate::platform::TrayMenuItem> = Vec::new();
    for i in 0..6
        invariant
            labels@.len() == 6,
            labels@ == seq![first, "扫描应用", "设置", "应用管理", "重启", "退出"],
            r@.len() == i,
            forall|k: int|
                0 <= k < i ==> (#[trigger] r@[k]).label@ == labels@[k]@ && r@[k].enabled,
    {
        r.push(crate::platform::TrayMenuItem { label: labels[i].to_string(), enabled: true });
    }
    r
}

/// The command a tray event asks for: a click toggles the launcher; the
/// menu entries, in order, toggle the launcher, rescan, open the settings,
/// open the application manager, restart and quit.
pub open spec fn spec_tray_command(event: crate::platform::TrayEvent) -> Option<Command> {
    match event {
        crate::platform::TrayEvent::LeftClick => Some(Command::ToggleLauncher),
        crate::platform::TrayEvent::Menu(i) => if i == 0 {
            Some(Command::ToggleLauncher)
        } else if i == 1 {
            Some(Command::Rescan)
        } else if i == 2 {
            Some(Command::OpenSettings)
        } else if i == 3 {
            Some(Command::OpenAppManager)
        } else if i == 4 {
            Some(Command::Restart)
        } else if i == 5 {
            Some(Command::Quit)
        } else {
            None
        },
    }
}

/// The command for a tray event.
pub fn tray_command(event: crate::platform::TrayEvent) -> (r: Option<Command>)
    ensures
        r == spec_tray_command(event),
{
    match event {
        crate::platform::TrayEvent::LeftClick => Some(Command::ToggleLauncher),
        crate::platform::TrayEvent::Menu(i) => match i {
            0 => Some(Command::ToggleLauncher),
            1 => Some(Command::Rescan),
            2 => Some(Command::OpenSettings),
            3 => Some(Command::OpenAppManager),
            4 => Some(Command::Restart),
            5 => Some(Command::Quit),
            _ => None,
        },
    }
}

/// What a navigation key does in the launcher.
#[derive(Debug, Clone, Copy, PartialEq, Eq, Structural)]
pub enum KeyAction {
    /// Run the selected item.
    RunSelected,
    /// Fold the expanded island back to the search box.
    Collapse,
    /// Hide the launcher.
    Hide,
    /// Delete before the caret (or the selection).
    DeleteBack,
    /// Delete after the caret (or the selection).
    DeleteForward,
    /// Move the selection by rows (`-1` up, `1` down).
    MoveRows(i8),
    /// Move the selection by columns (grid layout only).
    MoveColumns(i8),
    /// Nothing.
    Ignore,
}

pub open spec fn spec_key_action(key: crate::platform::Key, island: crate::island::IslandState, grid: bool) -> KeyAction {
    match key {
        crate::platform::Key::Enter => KeyAction::RunSelected,
        crate::platform::Key::Escape => if island == crate::island::IslandState::Expanded {
            KeyAction::Collapse
        } else {
            KeyAction::Hide
        },
        crate::platform::Key::Backspace => KeyAction::DeleteBack,
        crate::platform::Key::Delete => KeyAction::DeleteForward,
        crate::platform::Key::Up => KeyAction::MoveRows(-1i8),
        crate::platform::Key::Down => KeyAction::MoveRows(1i8),
        crate::platform::Key::Left => if grid {
            KeyAction::MoveColumns(-1i8)
        } else {
            KeyAction::Ignore
        },
        crate::platform::Key::Right => if grid {
            KeyAction::MoveColumns(1i8)
        } else {
            KeyAction::Ignore
        },
        _ => KeyAction::Ignore,
    }
}

/// The launcher's answer to a navigation key: Enter runs the selection,
/// Escape folds an expanded island or else hides, Backspace and Delete
/// edit the query, Up and Down move by rows, Left and Right move by columns
/// in the grid layout; other keys do nothing.
pub fn key_action(key: crate::platform::Key, island: crate::island::IslandState, grid: bool) -> (r: KeyAction)
    ensures
        r == spec_key_action(key, island, grid),
{
    match key {
        crate::platform::Key::Enter => KeyAction::RunSelected,
        crate::platform::Key::Escape => match island {
            crate::island::IslandState::Expanded => KeyAction::Collapse,
            _ => KeyAction::Hide,
        },
        crate::platform::Key::Backspace => KeyAction::DeleteBack,
        crate::platform::Key::Delete => KeyAction::DeleteForward,
        crate::platform::Key::Up => KeyAction::MoveRows(-1),
        crate::platform::Key::Down => KeyAction::MoveRows(1),
        crate::platform::Key::Left => if grid {
            KeyAction::MoveColumns(-1)
        } else {
            KeyAction::Ignore
        },
        crate::platform::Key::Right => if grid {
            KeyAction::MoveColumns(1)
        } else {
            KeyAction::Ignore
        },
        _ => KeyAction::Ignore,
    }
}

} // verus!
