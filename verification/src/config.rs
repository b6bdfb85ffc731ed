//! Configuration model: appearance and behaviour options, keyword filters,
//! web search engines and the system-command alias table.
//!
//! The persisted `config.json` is read and written outside the library.

use vstd::prelude::*;
use crate::platform::{Modifier, SystemCommandKind};
use crate::text::{
    chars_of, contains, extend_chars, seq_contains, spec_to_lowercase, string_of, to_lowercase,
};
use crate::util::{percent_encode_component, spec_percent_encode};

verus! {

/// Data directory name: configuration, registry and icon snapshots live here.
pub const DATA_DIR_NAME: &'static str = ".datas";

/// Configuration file name (inside the data directory).
pub const CONFIG_FILE_NAME: &'static str = "config.json";

/// Application registry file name (inside the data directory).
pub const APPS_FILE_NAME: &'static str = "apps.json";

/// Theme preset: material and colours in one, three light and one dark.
#[derive(Debug, Clone, Copy, PartialEq, Eq, Structural)]
pub enum ThemePreset {
    /// Frosted glass: translucent white, dark text (the default).
    FrostedGlass,
    /// Mica: opaque desktop tint, dark text.
    Mica,
    /// Opaque: solid warm paper, stronger outlines.
    Opaque,
    /// Dark glass, light text.
    Dark,
}

impl ThemePreset {
    /// The option that follows this one in the settings window.
    pub open spec fn spec_cycle(self) -> ThemePreset {
        match self {
            Self::FrostedGlass => Self::Mica,
            Self::Mica => Self::Opaque,
            Self::Opaque => Self::Dark,
            Self::Dark => Self::FrostedGlass,
        }
    }

    pub open spec fn spec_index(self) -> int {
        match self {
            Self::FrostedGlass => 0,
            Self::Mica => 1,
            Self::Opaque => 2,
            Self::Dark => 3,
        }
    }

    pub open spec fn spec_label(self) -> Seq<char> {
        match self {
            Self::FrostedGlass => "毛玻璃"@,
            Self::Mica => "云母"@,
            Self::Opaque => "不透明"@,
            Self::Dark => "深色"@,
        }
    }

    /// The default preset.
    pub fn default_preset() -> (r: ThemePreset)
        ensures
            r == ThemePreset::FrostedGlass,
    {
        ThemePreset::FrostedGlass
    }

    /// Name shown in the settings window.
    pub fn label(self) -> (r: &'static str)
        ensures
            r@ == self.spec_label(),
    {
        match self {
            Self::FrostedGlass => "毛玻璃",
            Self::Mica => "云母",
            Self::Opaque => "不透明",
            Self::Dark => "深色",
        }
    }

    /// The next preset, wrapping around.
    pub fn cycle(self) -> (r: ThemePreset)
        ensures
            r == self.spec_cycle(),
            r.spec_index() == (self.spec_index() + 1) % 4,
    {
        match self {
            Self::FrostedGlass => Self::Mica,
            Self::Mica => Self::Opaque,
            Self::Opaque => Self::Dark,
            Self::Dark => Self::FrostedGlass,
        }
    }
}

/// How results are laid out.
#[derive(Debug, Clone, Copy, PartialEq, Eq, Structural)]
pub enum AppLayout {
    /// Grid of icons.
    Grid,
    /// Rows (the default).
    Row,
}

impl AppLayout {
    /// The option that follows this one in the settings window.
    pub open spec fn spec_cycle(self) -> AppLayout {
        match self {
            Self::Grid => Self::Row,
            Self::Row => Self::Grid,
        }
    }

    pub open spec fn spec_index(self) -> int {
        match self {
            Self::Grid => 0,
            Self::Row => 1,
        }
    }

    pub open spec fn spec_label(self) -> Seq<char> {
        match self {
            Self::Grid => "网格"@,
            Self::Row => "列表"@,
        }
    }

    /// Name shown in the settings window.
    pub fn label(self) -> (r: &'static str)
        ensures
            r@ == self.spec_label(),
    {
        match self {
            Self::Grid => "网格",
            Self::Row => "列表",
        }
    }

    /// The other layout.
    pub fn cycle(self) -> (r: AppLayout)
        ensures
            r == self.spec_cycle(),
            r.spec_index() == (self.spec_index() + 1) % 2,
    {
        match self {
            Self::Grid => Self::Row,
            Self::Row => Self::Grid,
        }
    }
}

/// Default search mode offered when the launcher opens.
#[derive(Debug, Clone, Copy, PartialEq, Eq, Structural)]
pub enum SearchMode {
    /// By name (the default).
    Name,
    /// By tag (`t:` prefix).
    Tag,
    /// By initials (`i:` prefix).
    Initial,
}

impl SearchMode {
    pub open spec fn spec_label(self) -> Seq<char> {
        match self {
            Self::Name => "名称"@,
            Self::Tag => "标签 t:"@,
            Self::Initial => "首字母 i:"@,
        }
    }

    /// Name shown in the settings window.
    pub fn label(self) -> (r: &'static str)
        ensures
            r@ == self.spec_label(),
    {
        match self {
            Self::Name => "名称",
            Self::Tag => "标签 t:",
            Self::Initial => "首字母 i:",
        }
    }
}

pub open spec fn spec_default_prefix(mode: SearchMode) -> Seq<char> {
    match mode {
        SearchMode::Tag => "t: "@,
        SearchMode::Initial => "i: "@,
        SearchMode::Name => ""@,
    }
}

/// The text the search box starts with for the configured default mode:
/// `t: ` for tags, `i: ` for initials, nothing for names.
pub fn default_prefix(mode: SearchMode) -> (r: &'static str)
    ensures
        r@ == spec_default_prefix(mode),
{
    match mode {
        SearchMode::Tag => "t: ",
        SearchMode::Initial => "i: ",
        SearchMode::Name => "",
    }
}

/// Rendering back end (GPU falls back to CPU when it cannot start).
#[derive(Debug, Clone, Copy, PartialEq, Eq, Structural)]
pub enum RenderBackend {
    /// CPU raster (the default).
    Cpu,
    /// GPU.
    Gpu,
}

impl RenderBackend {
    /// The option that follows this one in the settings window.
    pub open spec fn spec_cycle(self) -> RenderBackend {
        match self {
            Self::Cpu => Self::Gpu,
            Self::Gpu => Self::Cpu,
        }
    }

    pub open spec fn spec_index(self) -> int {
        match self {
            Self::Cpu => 0,
            Self::Gpu => 1,
        }
    }

    /// Name shown in the settings window.
    pub fn label(self) -> (r: &'static str)
        ensures
            r@ == (match self {
                Self::Cpu => "CPU"@,
                Self::Gpu => "GPU"@,
            }),
    {
        match self {
            Self::Cpu => "CPU",
            Self::Gpu => "GPU",
        }
    }

    /// The other back end.
    pub fn cycle(self) -> (r: RenderBackend)
        ensures
            r == self.spec_cycle(),
            r.spec_index() == (self.spec_index() + 1) % 2,
    {
        match self {
            Self::Cpu => Self::Gpu,
            Self::Gpu => Self::Cpu,
        }
    }
}

/// The modifier held while confirming a launch to run it elevated.
#[derive(Debug, Clone, Copy, PartialEq, Eq, Structural)]
pub enum ElevateModifier {
    /// Elevated launch switched off.
    Disabled,
    /// Shift (the default).
    Shift,
    Ctrl,
    Alt,
    Win,
}

impl ElevateModifier {
    /// The option that follows this one in the settings window.
    pub open spec fn spec_cycle(self) -> ElevateModifier {
        match self {
            Self::Disabled => Self::Shift,
            Self::Shift => Self::Ctrl,
            Self::Ctrl => Self::Alt,
            Self::Alt => Self::Win,
            Self::Win => Self::Disabled,
        }
    }

    pub open spec fn spec_index(self) -> int {
        match self {
            Self::Disabled => 0,
            Self::Shift => 1,
            Self::Ctrl => 2,
            Self::Alt => 3,
            Self::Win => 4,
        }
    }

    /// Name shown in the settings window.
    pub fn label(self) -> (r: &'static str)
        ensures
            r@ == (match self {
                Self::Disabled => "关闭"@,
                Self::Shift => "Shift"@,
                Self::Ctrl => "Ctrl"@,
                Self::Alt => "Alt"@,
                Self::Win => "Win"@,
            }),
    {
        match self {
            Self::Disabled => "关闭",
            Self::Shift => "Shift",
            Self::Ctrl => "Ctrl",
            Self::Alt => "Alt",
            Self::Win => "Win",
        }
    }

    /// The next option in `Disabled, Shift, Ctrl, Alt, Win` order, wrapping.
    pub fn cycle(self) -> (r: ElevateModifier)
        ensures
            r == self.spec_cycle(),
            r.spec_index() == (self.spec_index() + 1) % 5,
    {
        match self {
            Self::Disabled => Self::Shift,
            Self::Shift => Self::Ctrl,
            Self::Ctrl => Self::Alt,
            Self::Alt => Self::Win,
            Self::Win => Self::Disabled,
        }
    }

    /// The platform modifier key (`None` when switched off).
    pub fn modifier(self) -> (r: Option<Modifier>)
        ensures
            r == (match self {
                Self::Disabled => None,
                Self::Shift => Some(Modifier::Shift),
                Self::Ctrl => Some(Modifier::Ctrl),
                Self::Alt => Some(Modifier::Alt),
                Self::Win => Some(Modifier::Win),
            }),
    {
        match self {
            Self::Disabled => None,
            Self::Shift => Some(Modifier::Shift),
            Self::Ctrl => Some(Modifier::Ctrl),
            Self::Alt => Some(Modifier::Alt),
            Self::Win => Some(Modifier::Win),
        }
    }
}

/// Global hotkey.
#[derive(Debug, Clone)]
pub struct HotkeyConfig {
    /// Hotkey switched on.
    pub enabled: bool,
    /// Modifiers: "ctrl" / "alt" / "shift" / "win", combined with "+".
    pub modifiers: String,
    /// Key: "space", "f", "`" and the like.
    pub key: String,
}

impl HotkeyConfig {
    /// The default hotkey: Ctrl+Alt+Space, switched on.
    pub fn default_hotkey() -> (r: HotkeyConfig)
        ensures
            r.enabled,
            r.modifiers@ == "ctrl+alt"@,
            r.key@ == "space"@,
    {
        HotkeyConfig { enabled: true, modifiers: "ctrl+alt".to_string(), key: "space".to_string() }
    }
}

/// Theme settings.
#[derive(Debug, Clone, Copy, PartialEq, Eq, Structural)]
pub struct ThemeConfig {
    pub preset: ThemePreset,
}

/// A keyword that hides matching launch entries.
#[derive(Debug, Clone, Default)]
pub struct FilterRule {
    /// The keyword.
    pub keyword: String,
    /// Match case-sensitively.
    pub case_sensitive: bool,
}

/// Whether a rule hides an application called `name`.
pub open spec fn spec_rule_matches(keyword: Seq<char>, case_sensitive: bool, name: Seq<char>) -> bool {
    if keyword.len() == 0 {
        false
    } else if case_sensitive {
        seq_contains(name, keyword)
    } else {
        seq_contains(spec_to_lowercase(name), spec_to_lowercase(keyword))
    }
}

impl FilterRule {
    /// Does the rule hit the application name? An empty keyword never does.
    pub fn matches(&self, name: &str) -> (r: bool)
        ensures
            r == spec_rule_matches(self.keyword@, self.case_sensitive, name@),
    {
        if self.keyword.as_str().is_empty() {
            return false;
        }
        if self.case_sensitive {
            let n = chars_of(name);
            let k = chars_of(self.keyword.as_str());
            contains(&n, &k)
        } else {
            let nl = to_lowercase(name);
            let kl = to_lowercase(self.keyword.as_str());
            let n = chars_of(nl.as_str());
            let k = chars_of(kl.as_str());
            contains(&n, &k)
        }
    }
}

/// Web search engine (opens the default browser).
#[derive(Debug, Clone, Copy, PartialEq, Eq, Structural)]
pub enum WebEngine {
    /// Baidu (the default).
    Baidu,
    Bing,
    Sogou,
    Google,
    Duckduckgo,
}

impl WebEngine {
    pub open spec fn spec_label(self) -> Seq<char> {
        match self {
            Self::Baidu => "百度"@,
            Self::Bing => "必应"@,
            Self::Sogou => "搜狗"@,
            Self::Google => "谷歌"@,
            Self::Duckduckgo => "DuckDuckGo"@,
        }
    }

    /// The search link for a query text.
    pub open spec fn spec_search_url(self, query: Seq<char>) -> Seq<char> {
        self.spec_url_prefix() + spec_percent_encode(vstd::utf8::encode_utf8(query))
    }

    pub open spec fn spec_url_prefix(self) -> Seq<char> {
        match self {
            Self::Baidu => "https://www.baidu.com/s?wd="@,
            Self::Bing => "https://www.bing.com/search?q="@,
            Self::Sogou => "https://www.sogou.com/web?query="@,
            Self::Google => "https://www.google.com/search?q="@,
            Self::Duckduckgo => "https://duckduckgo.com/?q="@,
        }
    }

    /// Name shown in the settings window and in the web result.
    pub fn label(self) -> (r: &'static str)
        ensures
            r@ == self.spec_label(),
    {
        match self {
            Self::Baidu => "百度",
            Self::Bing => "必应",
            Self::Sogou => "搜狗",
            Self::Google => "谷歌",
            Self::Duckduckgo => "DuckDuckGo",
        }
    }

    fn url_prefix(self) -> (r: &'static str)
        ensures
            r@ == self.spec_url_prefix(),
    {
        match self {
            Self::Baidu => "https://www.baidu.com/s?wd=",
            Self::Bing => "https://www.bing.com/search?q=",
            Self::Sogou => "https://www.sogou.com/web?query=",
            Self::Google => "https://www.google.com/search?q=",
            Self::Duckduckgo => "https://duckduckgo.com/?q=",
        }
    }

    /// The search link for `query` (percent-encoded).
    pub fn search_url(self, query: &str) -> (r: String)
        ensures
            r@ == self.spec_search_url(query@),
    {
        let q = percent_encode_component(query);
        let mut v = chars_of(self.url_prefix());
        let qv = chars_of(q.as_str());
        extend_chars(&mut v, &qv);
        string_of(&v)
    }
}

/// A system command and the aliases that bring it up.
#[derive(Debug, Clone)]
pub struct CommandEntry {
    /// Aliases (any one of them matching shows the command).
    pub aliases: Vec<String>,
    /// The command.
    pub kind: SystemCommandKind,
}

fn strings_of(items: &[&str]) -> (r: Vec<String>)
    ensures
        r@.len() == items@.len(),
        forall|i: int| 0 <= i < items@.len() ==> #[trigger] r@[i]@ == items@[i]@,
{
    let mut r: Vec<String> = Vec::new();
    for i in 0..items.len()
        invariant
            r@.len() == i,
            forall|j: int| 0 <= j < i ==> #[trigger] r@[j]@ == items@[j]@,
    {
        r.push(items[i].to_string());
    }
    r
}

/// `r` is the default command table: lock, sleep, shut down and restart,
/// each with Chinese and English aliases.
pub open spec fn is_default_commands(r: Seq<CommandEntry>) -> bool {
    &&& r.len() == 4
    &&& r[0].kind == SystemCommandKind::Lock && r[0].aliases@.len() == 2 && r[0].aliases@[0]@ == "锁屏"@
        && r[0].aliases@[1]@ == "lock"@
    &&& r[1].kind == SystemCommandKind::Sleep && r[1].aliases@.len() == 2 && r[1].aliases@[0]@ == "睡眠"@
        && r[1].aliases@[1]@ == "sleep"@
    &&& r[2].kind == SystemCommandKind::Shutdown && r[2].aliases@.len() == 2 && r[2].aliases@[0]@ == "关机"@
        && r[2].aliases@[1]@ == "shutdown"@
    &&& r[3].kind == SystemCommandKind::Restart && r[3].aliases@.len() == 3 && r[3].aliases@[0]@ == "重启"@
        && r[3].aliases@[1]@ == "restart"@ && r[3].aliases@[2]@ == "reboot"@
}

/// The default command table (Chinese and English aliases).
pub fn default_commands() -> (r: Vec<CommandEntry>)
    ensures
        is_default_commands(r@),
{
    let mut r: Vec<CommandEntry> = Vec::new();
    r.push(CommandEntry { aliases: strings_of(&["锁屏", "lock"]), kind: SystemCommandKind::Lock });
    r.push(CommandEntry { aliases: strings_of(&["睡眠", "sleep"]), kind: SystemCommandKind::Sleep });
    r.push(
        CommandEntry { aliases: strings_of(&["关机", "shutdown"]), kind: SystemCommandKind::Shutdown },
    );
    r.push(
        CommandEntry {
            aliases: strings_of(&["重启", "restart", "reboot"]),
            kind: SystemCommandKind::Restart,
        },
    );
    r
}

/// `r` is the default filter list: `卸载` and `uninstall`, any case.
pub open spec fn is_default_filters(r: Seq<FilterRule>) -> bool {
    &&& r.len() == 2
    &&& r[0].keyword@ == "卸载"@ && !r[0].case_sensitive
    &&& r[1].keyword@ == "uninstall"@ && !r[1].case_sensitive
}

/// The default filters: hide uninstallers ("卸载" / "uninstall").
pub fn default_filters() -> (r: Vec<FilterRule>)
    ensures
        is_default_filters(r@),
{
    let mut r: Vec<FilterRule> = Vec::new();
    r.push(FilterRule { keyword: "卸载".to_string(), case_sensitive: false });
    r.push(FilterRule { keyword: "uninstall".to_string(), case_sensitive: false });
    r
}

/// Default for flags that older configuration files lack: on.
pub fn default_true() -> (r: bool)
    ensures
        r,
{
    true
}

/// Search settings.
#[derive(Debug, Clone)]
pub struct SearchConfig {
    /// Default mode.
    pub default_mode: SearchMode,
    /// Keyword filters (applied to scanning, browsing and searching).
    pub filters: Vec<FilterRule>,
    /// Web search engine.
    pub web_engine: WebEngine,
    /// Browser for web search (empty = system default; may hold `%1`).
    pub web_browser: String,
    /// System-command alias table.
    pub commands: Vec<CommandEntry>,
}

/// Whether any rule hides the application `name`.
pub open spec fn spec_filtered(filters: Seq<FilterRule>, name: Seq<char>) -> bool {
    exists|i: int|
        0 <= i < filters.len() && spec_rule_matches(
            #[trigger] filters[i].keyword@,
            filters[i].case_sensitive,
            name,
        )
}

impl SearchConfig {
    /// The default search settings.
    pub fn default_search() -> (r: SearchConfig)
        ensures
            r.default_mode == SearchMode::Name,
            r.web_engine == WebEngine::Baidu,
            r.web_browser@.len() == 0,
            is_default_filters(r.filters@),
            is_default_commands(r.commands@),
    {
        SearchConfig {
            default_mode: SearchMode::Name,
            filters: default_filters(),
            web_engine: WebEngine::Baidu,
            web_browser: String::new(),
            commands: default_commands(),
        }
    }

    /// Is the application hidden by a keyword filter? (Any rule hitting the
    /// name hides it.)
    pub fn is_app_filtered(&self, name: &str) -> (r: bool)
        ensures
            r == spec_filtered(self.filters@, name@),
    {
        for i in 0..self.filters.len()
            invariant
                forall|j: int| 0 <= j < i ==> !spec_rule_matches(#[trigger] self.filters@[j].keyword@, self.filters@[j].case_sensitive, name@),
        {
            if self.filters[i].matches(name) {
                return true;
            }
        }
        false
    }
}

/// Cycling the theme preset four times comes back to where it started.
pub proof fn lemma_theme_cycle_period(t: ThemePreset)
    ensures
        t.spec_cycle().spec_cycle().spec_cycle().spec_cycle() == t,
{
}

/// Cycling the layout twice comes back to where it started.
pub proof fn lemma_layout_cycle_period(l: AppLayout)
    ensures
        l.spec_cycle().spec_cycle() == l,
{
}

/// Cycling the back end twice comes back to where it started.
pub proof fn lemma_backend_cycle_period(b: RenderBackend)
    ensures
        b.spec_cycle().spec_cycle() == b,
{
}

/// Cycling the elevation modifier five times comes back to where it started.
pub proof fn lemma_elevate_cycle_period(m: ElevateModifier)
    ensures
        m.spec_cycle().spec_cycle().spec_cycle().spec_cycle().spec_cycle() == m,
{
}

} // verus!
