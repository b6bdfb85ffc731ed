//! Built-in result sources for name queries: the calculator (its answer
//! computed by the caller), system commands found through their aliases, and
//! a web search for the query.

use vstd::prelude::*;
use crate::config::{CommandEntry, SearchConfig, WebEngine};
use crate::fuzzy::{Score, fuzzy_score, plus, spec_fuzzy};
use crate::item::{
    Action, ActionView, BuiltinIcon, IconView, ItemIcon, ItemView, Scored, SearchItem,
};
use crate::platform::SystemCommandKind;
use crate::search::{keep_better};
use crate::text::{
    chars_of, extend_chars, spec_to_lowercase, string_of, to_lowercase, trim, trim_chars,
};

verus! {

/// Score of the calculator's answer.
pub const CALC_SCORE: u128 = 3;

/// Bonus added to a command's alias match.
pub const COMMAND_BONUS: u128 = 2;

/// Subtitle of a system-command item.
pub const COMMAND_HINT: &'static str = "系统命令,按 Enter 执行喵";

/// Largest number of characters of a script kept in its short title.
pub const SCRIPT_TITLE_CHARS: usize = 16;

pub open spec fn scored_view(s: Scored) -> (Score, ItemView) {
    (s.score, s.item@)
}

pub open spec fn scored_views(v: Seq<Scored>) -> Seq<(Score, ItemView)> {
    v.map_values(|s: Scored| scored_view(s))
}

/// The item of the calculator's answer `result` to `query`.
pub open spec fn spec_calc_item(query: Seq<char>, result: Seq<char>) -> (Score, ItemView) {
    (
        Score { whole: CALC_SCORE, span: None },
        ItemView {
            title: result,
            subtitle: Some(query + " = "@ + result),
            icon: IconView::Builtin(BuiltinIcon::Calculator),
            action: ActionView::CopyText(result),
        },
    )
}

/// The item for the calculator's answer: titled by the answer, copying it
/// when activated, with the calculator's fixed score.
pub fn calc_item(query: &str, result: &str) -> (r: Scored)
    ensures
        scored_view(r) == spec_calc_item(query@, result@),
{
    proof {
        reveal_strlit(" = ");
    }
    let mut v = chars_of(query);
    let eq = chars_of(" = ");
    extend_chars(&mut v, &eq);
    let rv = chars_of(result);
    extend_chars(&mut v, &rv);
    Scored::new(
        Score { whole: CALC_SCORE, span: None },
        SearchItem {
            title: result.to_string(),
            subtitle: Some(string_of(&v)),
            icon: ItemIcon::Builtin(BuiltinIcon::Calculator),
            action: Action::CopyText(result.to_string()),
        },
    )
}

/// The match of one alias: trimmed and lower-cased, skipped when empty.
pub open spec fn alias_match(q: Seq<char>, alias: Seq<char>) -> Option<Score> {
    let a = spec_to_lowercase(trim(alias));
    if a.len() == 0 {
        None
    } else {
        spec_fuzzy(q, a)
    }
}

/// The best match of `q` among `aliases`.
pub open spec fn best_alias(q: Seq<char>, aliases: Seq<Seq<char>>) -> Option<Score>
    decreases aliases.len(),
{
    if aliases.len() == 0 {
        None
    } else {
        keep_better(best_alias(q, aliases.drop_last()), alias_match(q, aliases.last()))
    }
}

pub open spec fn alias_views(e: CommandEntry) -> Seq<Seq<char>> {
    e.aliases@.map_values(|s: String| s@)
}

/// The item of system command `kind`, scored `score` plus the command bonus.
pub open spec fn spec_command_item(kind: SystemCommandKind, score: Score) -> (Score, ItemView) {
    (
        Score { whole: (score.whole + COMMAND_BONUS) as u128, span: score.span },
        ItemView {
            title: kind.spec_title(),
            subtitle: Some(COMMAND_HINT@),
            icon: IconView::Builtin(BuiltinIcon::Power),
            action: ActionView::SystemCommand(kind),
        },
    )
}

/// The command items for the lower-cased, trimmed query `q`: one for each
/// entry with a matching alias, in table order, scored by its best alias.
pub open spec fn command_results(q: Seq<char>, cmds: Seq<CommandEntry>) -> Seq<(Score, ItemView)>
    decreases cmds.len(),
{
    if cmds.len() == 0 {
        Seq::empty()
    } else {
        let rest = command_results(q, cmds.drop_last());
        match best_alias(q, alias_views(cmds.last())) {
            Some(s) => rest.push(spec_command_item(cmds.last().kind, s)),
            None => rest,
        }
    }
}

/// What `cmd_query` answers for the query text `query`.
pub open spec fn spec_cmd_query(query: Seq<char>, cmds: Seq<CommandEntry>) -> Seq<(Score, ItemView)> {
    let q = spec_to_lowercase(trim(query));
    if q.len() == 0 {
        Seq::empty()
    } else {
        command_results(q, cmds)
    }
}

/// The item for a system command matched with `score`.
pub fn command_item(entry: &CommandEntry, score: Score) -> (r: Scored)
    requires
        score.whole + COMMAND_BONUS <= u128::MAX,
    ensures
        scored_view(r) == spec_command_item(entry.kind, score),
{
    Scored::new(
        plus(score, COMMAND_BONUS),
        SearchItem {
            title: entry.kind.title().to_string(),
            subtitle: Some(COMMAND_HINT.to_string()),
            icon: ItemIcon::Builtin(BuiltinIcon::Power),
            action: Action::SystemCommand(entry.kind),
        },
    )
}

fn entry_best(q: &str, entry: &CommandEntry) -> (r: Option<Score>)
    ensures
        r == best_alias(q@, alias_views(*entry)),
        r matches Some(s) ==> s.whole < 0x1_0000_0000_0000_0000_0000,
{
    let ghost av = alias_views(*entry);
    let mut best: Option<Score> = None;
    for k in 0..entry.aliases.len()
        invariant
            av == alias_views(*entry),
            best == best_alias(q@, av.take(k as int)),
            best matches Some(s) ==> s.whole < 0x1_0000_0000_0000_0000_0000,
    {
        assert(av.take(k + 1).drop_last() == av.take(k as int));
        assert(av.take(k + 1).last() == entry.aliases@[k as int]@);
        let av_k = chars_of(entry.aliases[k].as_str());
        let at = trim_chars(&av_k);
        let a = to_lowercase(string_of(&at).as_str());
        let m = if a.as_str().is_empty() {
            None
        } else {
            fuzzy_score(q, a.as_str())
        };
        best = match (best, m) {
            (Some(x), Some(y)) => Some(crate::fuzzy::better(x, y)),
            (None, _) => m,
            (_, None) => best,
        };
    }
    assert(av.take(entry.aliases@.len() as int) == av);
    best
}

/// System commands whose aliases match the query: each entry at most once,
/// in table order, scored by its best-matching alias plus the command bonus.
/// An empty query finds nothing.
pub fn cmd_query(query: &str, commands: &Vec<CommandEntry>) -> (r: Vec<Scored>)
    ensures
        scored_views(r@) == spec_cmd_query(query@, commands@),
{
    let qv = chars_of(query);
    let qt = trim_chars(&qv);
    let q = to_lowercase(string_of(&qt).as_str());
    let mut out: Vec<Scored> = Vec::new();
    if q.as_str().is_empty() {
        assert(scored_views(out@) =~= Seq::<(Score, ItemView)>::empty());
        return out;
    }
    for i in 0..commands.len()
        invariant
            q@ == spec_to_lowercase(trim(query@)),
            q@.len() > 0,
            scored_views(out@) == command_results(q@, commands@.take(i as int)),
    {
        assert(commands@.take(i + 1).drop_last() == commands@.take(i as int));
        assert(commands@.take(i + 1).last() == commands@[i as int]);
        match entry_best(q.as_str(), &commands[i]) {
            Some(s) => {
                let item = command_item(&commands[i], s);
                out.push(item);
                assert(scored_views(out@) =~= command_results(q@, commands@.take(i as int)).push(
                    spec_command_item(commands@[i as int].kind, s),
                ));
            },
            None => {},
        }
    }
    assert(commands@.take(commands@.len() as int) == commands@);
    out
}

/// The short title of a script: trimmed, cut to its first 16 characters,
/// with an ellipsis when it was longer.
pub open spec fn spec_summarize(script: Seq<char>) -> Seq<char> {
    let t = trim(script);
    if t.len() > SCRIPT_TITLE_CHARS {
        t.take(SCRIPT_TITLE_CHARS as int).push('…')
    } else {
        t
    }
}

/// A short title for a script without aliases.
pub fn summarize_script(script: &str) -> (r: String)
    ensures
        r@ == spec_summarize(script@),
{
    let v = chars_of(script);
    let t = trim_chars(&v);
    if t.len() > SCRIPT_TITLE_CHARS {
        let mut head = crate::text::slice_chars(&t, 0, SCRIPT_TITLE_CHARS);
        head.push('…');
        assert(t@.subrange(0, SCRIPT_TITLE_CHARS as int) == t@.take(SCRIPT_TITLE_CHARS as int));
        string_of(&head)
    } else {
        string_of(&t)
    }
}

/// The web-search item for the query text: titled after the engine and the
/// trimmed query, opening the engine's search link; nothing for an empty
/// query.
pub open spec fn spec_web_query(query: Seq<char>, engine: WebEngine) -> Seq<(Score, ItemView)> {
    let q = trim(query);
    if q.len() == 0 {
        Seq::empty()
    } else {
        seq![
            (
                Score { whole: 0, span: None },
                ItemView {
                    title: "用"@ + engine.spec_label() + "搜索「"@ + q + "」"@,
                    subtitle: Some(engine.spec_search_url(q)),
                    icon: IconView::Builtin(BuiltinIcon::Web),
                    action: ActionView::OpenUrl(engine.spec_search_url(q)),
                },
            ),
        ]
    }
}

/// A web search for the query, ranked below everything else.
pub fn web_query(query: &str, engine: WebEngine) -> (r: Vec<Scored>)
    ensures
        scored_views(r@) == spec_web_query(query@, engine),
{
    let qv = chars_of(query);
    let qt = trim_chars(&qv);
    let mut out: Vec<Scored> = Vec::new();
    if qt.len() == 0 {
        assert(scored_views(out@) =~= Seq::<(Score, ItemView)>::empty());
        return out;
    }
    let q = string_of(&qt);
    let url = engine.search_url(q.as_str());
    proof {
        reveal_strlit("用");
        reveal_strlit("搜索「");
        reveal_strlit("」");
    }
    let mut t = chars_of("用");
    let lv = chars_of(engine.label());
    extend_chars(&mut t, &lv);
    let s1 = chars_of("搜索「");
    extend_chars(&mut t, &s1);
    extend_chars(&mut t, &qt);
    let s2 = chars_of("」");
    extend_chars(&mut t, &s2);
    let item = SearchItem {
        title: string_of(&t),
        subtitle: Some(url.clone()),
        icon: ItemIcon::Builtin(BuiltinIcon::Web),
        action: Action::OpenUrl(url),
    };
    out.push(Scored::new(Score { whole: 0, span: None }, item));
    assert(scored_views(out@) =~= spec_web_query(query@, engine));
    out
}

/// The built-in results for a name query: the calculator's answer first (when
/// the caller found one), then matching system commands, then the web search.
pub fn extra_results(query: &str, calc_result: Option<&str>, config: &SearchConfig) -> (r: Vec<Scored>)
    ensures
        scored_views(r@) == (match calc_result {
            Some(res) => seq![spec_calc_item(query@, res@)],
            None => Seq::empty(),
        }) + spec_cmd_query(query@, config.commands@) + spec_web_query(query@, config.web_engine),
{
    let mut out: Vec<Scored> = Vec::new();
    match calc_result {
        Some(res) => {
            out.push(calc_item(query, res));
        },
        None => {},
    }
    let ghost first = scored_views(out@);
    let mut cmds = cmd_query(query, &config.commands);
    let ghost cv = scored_views(cmds@);
    out.append(&mut cmds);
    let mut web = web_query(query, config.web_engine);
    let ghost wv = scored_views(web@);
    let ghost mid = out@;
    out.append(&mut web);
    proof {
        assert(scored_views(mid) =~= first + cv);
        assert(scored_views(out@) =~= first + cv + wv);
    }
    out
}

} // verus!
