//! Search results of every source (applications, calculator, web search,
//! system commands) as one item type, with what activating the item does
//! kept apart from how it is shown.

use vstd::prelude::*;
use crate::apps::{AppInfo, AppView, opt_str_view};
use crate::fuzzy::Score;
use crate::platform::SystemCommandKind;
use crate::text::{chars_of, extend_chars, string_of};

verus! {

/// What activating an item (Enter or click) does.
#[derive(Debug, Clone, PartialEq)]
pub enum Action {
    /// Launch a path (executable, shortcut, anything the shell opens).
    Launch(String),
    /// Open a link in the browser.
    OpenUrl(String),
    /// Copy text to the clipboard.
    CopyText(String),
    /// Run one of the built-in system commands.
    SystemCommand(SystemCommandKind),
}

pub enum ActionView {
    Launch(Seq<char>),
    OpenUrl(Seq<char>),
    CopyText(Seq<char>),
    SystemCommand(SystemCommandKind),
}

impl View for Action {
    type V = ActionView;

    open spec fn view(&self) -> ActionView {
        match self {
            Action::Launch(s) => ActionView::Launch(s@),
            Action::OpenUrl(s) => ActionView::OpenUrl(s@),
            Action::CopyText(s) => ActionView::CopyText(s@),
            Action::SystemCommand(k) => ActionView::SystemCommand(*k),
        }
    }
}

/// Built-in line icons.
#[derive(Debug, Clone, Copy, PartialEq, Eq, Structural)]
pub enum BuiltinIcon {
    Calculator,
    Web,
    Power,
}

impl BuiltinIcon {
    pub open spec fn spec_svg_name(self) -> Seq<char> {
        match self {
            Self::Calculator => "calculator"@,
            Self::Web => "web"@,
            Self::Power => "power"@,
        }
    }

    /// Name of the embedded SVG icon.
    pub fn svg_name(self) -> (r: &'static str)
        ensures
            r@ == self.spec_svg_name(),
    {
        match self {
            Self::Calculator => "calculator",
            Self::Web => "web",
            Self::Power => "power",
        }
    }
}

/// Icon of an item.
#[derive(Debug, Clone)]
pub enum ItemIcon {
    /// An application: its cached icon, or a letter icon as fallback.
    App(AppInfo),
    /// A built-in SVG icon.
    Builtin(BuiltinIcon),
}

pub enum IconView {
    App(AppView),
    Builtin(BuiltinIcon),
}

impl View for ItemIcon {
    type V = IconView;

    open spec fn view(&self) -> IconView {
        match self {
            ItemIcon::App(a) => IconView::App(a@),
            ItemIcon::Builtin(b) => IconView::Builtin(*b),
        }
    }
}

/// One search result.
#[derive(Debug, Clone)]
pub struct SearchItem {
    /// First line.
    pub title: String,
    /// Second line (not shown in grid layout).
    pub subtitle: Option<String>,
    pub icon: ItemIcon,
    /// What activating the item does.
    pub action: Action,
}

pub struct ItemView {
    pub title: Seq<char>,
    pub subtitle: Option<Seq<char>>,
    pub icon: IconView,
    pub action: ActionView,
}

impl View for SearchItem {
    type V = ItemView;

    open spec fn view(&self) -> ItemView {
        ItemView {
            title: self.title@,
            subtitle: opt_str_view(self.subtitle),
            icon: self.icon@,
            action: self.action@,
        }
    }
}

/// A result with its score, before ranking.
#[derive(Debug, Clone)]
pub struct Scored {
    pub score: Score,
    pub item: SearchItem,
}

impl Scored {
    pub fn new(score: Score, item: SearchItem) -> (r: Scored)
        ensures
            r.score == score,
            r.item@ == item@,
    {
        Scored { score, item }
    }
}

/// A line of the result list: a group heading (never activated) or an item.
#[derive(Debug, Clone)]
pub enum ListItem {
    Section(String),
    Item(SearchItem),
}

pub enum EntryView {
    Section(Seq<char>),
    Item(ItemView),
}

impl View for ListItem {
    type V = EntryView;

    open spec fn view(&self) -> EntryView {
        match self {
            ListItem::Section(s) => EntryView::Section(s@),
            ListItem::Item(i) => EntryView::Item(i@),
        }
    }
}

pub open spec fn entries_view(v: Seq<ListItem>) -> Seq<EntryView> {
    v.map_values(|e: ListItem| e@)
}

/// `parts` joined with `sep` between neighbours (std `join`).
pub open spec fn join(parts: Seq<Seq<char>>, sep: Seq<char>) -> Seq<char>
    decreases parts.len(),
{
    if parts.len() == 0 {
        Seq::empty()
    } else if parts.len() == 1 {
        parts[0]
    } else {
        join(parts.drop_last(), sep) + sep + parts.last()
    }
}

/// Separator between tags in a subtitle.
pub const TAG_SEPARATOR: &'static str = " / ";

/// Separator between the tags and the path in a subtitle.
pub const PATH_SEPARATOR: &'static str = "  ·  ";

/// Subtitle of an application item: its path, after its tags when it has any.
pub open spec fn app_subtitle(app: AppView) -> Seq<char> {
    if app.tags.len() == 0 {
        app.path
    } else {
        join(app.tags, TAG_SEPARATOR@) + PATH_SEPARATOR@ + app.path
    }
}

/// The item shown for an application.
pub open spec fn app_item(app: AppView) -> ItemView {
    ItemView {
        title: app.name,
        subtitle: Some(app_subtitle(app)),
        icon: IconView::App(app),
        action: ActionView::Launch(app.path),
    }
}

fn join_strings(parts: &Vec<String>, sep: &str) -> (r: Vec<char>)
    ensures
        r@ == join(parts@.map_values(|s: String| s@), sep@),
{
    let ghost pv = parts@.map_values(|s: String| s@);
    let sv = chars_of(sep);
    let mut out: Vec<char> = Vec::new();
    for i in 0..parts.len()
        invariant
            pv == parts@.map_values(|s: String| s@),
            sv@ == sep@,
            out@ == join(pv.take(i as int), sep@),
    {
        assert(pv.take(i + 1).drop_last() == pv.take(i as int));
        assert(pv.take(i + 1).last() == parts@[i as int]@);
        if i > 0 {
            extend_chars(&mut out, &sv);
        } else {
            assert(pv.take(1)[0] == parts@[0]@);
        }
        let pc = chars_of(parts[i].as_str());
        extend_chars(&mut out, &pc);
    }
    assert(pv.take(parts@.len() as int) == pv);
    out
}

impl SearchItem {
    /// The item for an application: titled by its name, with its tags and
    /// path underneath, launching its path.
    pub fn from_app(app: &AppInfo) -> (r: SearchItem)
        ensures
            r@ == app_item(app@),
    {
        let subtitle = if app.tags.len() == 0 {
            app.path.clone()
        } else {
            proof {
                reveal_strlit(" / ");
                reveal_strlit("  ·  ");
            }
            let mut v = join_strings(&app.tags, TAG_SEPARATOR);
            let ps = chars_of(PATH_SEPARATOR);
            extend_chars(&mut v, &ps);
            let pv = chars_of(app.path.as_str());
            extend_chars(&mut v, &pv);
            string_of(&v)
        };
        SearchItem {
            title: app.name.clone(),
            subtitle: Some(subtitle),
            icon: ItemIcon::App(app.duplicate()),
            action: Action::Launch(app.path.clone()),
        }
    }

    /// Short text for the letter icon: the first two characters of the
    /// title, or `?` for an empty title.
    pub fn fallback_label(&self) -> (r: String)
        ensures
            r@ == (if self.title@.len() == 0 {
                "?"@
            } else if self.title@.len() == 1 {
                self.title@
            } else {
                self.title@.take(2)
            }),
    {
        let t = chars_of(self.title.as_str());
        if t.len() == 0 {
            proof {
                reveal_strlit("?");
            }
            return "?".to_string();
        }
        let n: usize = if t.len() > 1 {
            2
        } else {
            1
        };
        let v = crate::text::slice_chars(&t, 0, n);
        assert(t.len() == 1 ==> t@.subrange(0, n as int) =~= t@);
        string_of(&v)
    }

    /// A copy of the item.
    pub fn duplicate(&self) -> (r: SearchItem)
        ensures
            r@ == self@,
    {
        let subtitle = match &self.subtitle {
            Some(s) => Some(s.clone()),
            None => None,
        };
        let icon = match &self.icon {
            ItemIcon::App(a) => ItemIcon::App(a.duplicate()),
            ItemIcon::Builtin(b) => ItemIcon::Builtin(*b),
        };
        let action = match &self.action {
            Action::Launch(s) => Action::Launch(s.clone()),
            Action::OpenUrl(s) => Action::OpenUrl(s.clone()),
            Action::CopyText(s) => Action::CopyText(s.clone()),
            Action::SystemCommand(k) => Action::SystemCommand(*k),
        };
        SearchItem { title: self.title.clone(), subtitle, icon, action }
    }
}

/// The outside work that activating an item asks for.
#[derive(Debug, Clone, PartialEq)]
pub enum ItemEffect {
    /// Launch a path.
    Launch(String),
    /// Open a link in `browser` (empty: the system's default browser).
    OpenUrl { url: String, browser: String },
    /// Put text on the clipboard.
    Copy(String),
    /// Run a system command.
    System(SystemCommandKind),
}

pub enum EffectView {
    Launch(Seq<char>),
    OpenUrl { url: Seq<char>, browser: Seq<char> },
    Copy(Seq<char>),
    System(SystemCommandKind),
}

impl View for ItemEffect {
    type V = EffectView;

    open spec fn view(&self) -> EffectView {
        match self {
            ItemEffect::Launch(p) => EffectView::Launch(p@),
            ItemEffect::OpenUrl { url, browser } => EffectView::OpenUrl { url: url@, browser: browser@ },
            ItemEffect::Copy(t) => EffectView::Copy(t@),
            ItemEffect::System(k) => EffectView::System(*k),
        }
    }
}

pub open spec fn spec_item_effect(action: ActionView, web_browser: Seq<char>) -> EffectView {
    match action {
        ActionView::Launch(p) => EffectView::Launch(p),
        ActionView::OpenUrl(u) => EffectView::OpenUrl { url: u, browser: web_browser },
        ActionView::CopyText(t) => EffectView::Copy(t),
        ActionView::SystemCommand(k) => EffectView::System(k),
    }
}

/// What activating `item` asks of the system; links open in the configured
/// browser `web_browser`.
pub fn item_effect(item: &SearchItem, web_browser: &str) -> (r: ItemEffect)
    ensures
        r@ == spec_item_effect(item.action@, web_browser@),
{
    match &item.action {
        Action::Launch(p) => ItemEffect::Launch(p.clone()),
        Action::OpenUrl(u) => ItemEffect::OpenUrl { url: u.clone(), browser: web_browser.to_string() },
        Action::CopyText(t) => ItemEffect::Copy(t.clone()),
        Action::SystemCommand(k) => ItemEffect::System(*k),
    }
}

/// Report prefix after copying text.
pub const COPIED_PREFIX: &'static str = "已复制 ";

/// What running an item reports once its effect was carried out: nothing
/// when it failed; after copying, `已复制 ` and the text; otherwise the
/// item's title.
pub open spec fn spec_run_report(item: ItemView, succeeded: bool) -> Option<Seq<char>> {
    if !succeeded {
        None
    } else {
        match item.action {
            ActionView::CopyText(t) => Some(COPIED_PREFIX@ + t),
            _ => Some(item.title),
        }
    }
}

/// The application whose launch is counted: the item's application, when
/// the item launched successfully.
pub open spec fn spec_run_record(item: ItemView, succeeded: bool) -> Option<Seq<char>> {
    if succeeded && item.action is Launch {
        match item.icon {
            IconView::App(a) => Some(a.name),
            IconView::Builtin(_) => None,
        }
    } else {
        None
    }
}

/// The result of running an item.
#[derive(Debug, Clone)]
pub struct RunOutcome {
    /// Text shown to the user; `None` when the effect failed.
    pub report: Option<String>,
    /// Name of the application whose launch is to be recorded.
    pub record: Option<String>,
}

/// What running `item` amounts to once its effect (see [`item_effect`])
/// succeeded or failed.
pub fn run_outcome(item: &SearchItem, succeeded: bool) -> (r: RunOutcome)
    ensures
        opt_str_view(r.report) == spec_run_report(item@, succeeded),
        opt_str_view(r.record) == spec_run_record(item@, succeeded),
{
    if !succeeded {
        return RunOutcome { report: None, record: None };
    }
    match &item.action {
        Action::Launch(_) => {
            let record = match &item.icon {
                ItemIcon::App(a) => Some(a.name.clone()),
                ItemIcon::Builtin(_) => None,
            };
            RunOutcome { report: Some(item.title.clone()), record }
        },
        Action::CopyText(t) => {
            let mut out = chars_of(COPIED_PREFIX);
            let tv = chars_of(t.as_str());
            extend_chars(&mut out, &tv);
            RunOutcome { report: Some(string_of(&out)), record: None }
        },
        _ => RunOutcome { report: Some(item.title.clone()), record: None },
    }
}

} // verus!
