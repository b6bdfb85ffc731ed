//! Committing what was typed or clicked in the settings and application
//! manager windows: filter rules and block words, command aliases and kinds,
//! the custom browser, and an application's name, path and icon.

use vstd::prelude::*;
use crate::apps::{AppRegistry, apps_view, first_named, str_eq};
use crate::config::{CommandEntry, FilterRule, HotkeyConfig};
use crate::platform::SystemCommandKind;
use crate::text::{
    chars_eq, chars_of, is_whitespace, lower_chars, lower_seq, spec_is_whitespace, string_of, trim, trim_chars,
};

verus! {

/// The filter rules as (keyword, case-sensitive) pairs.
pub open spec fn rules_view(v: Seq<FilterRule>) -> Seq<(Seq<char>, bool)> {
    v.map_values(|r: FilterRule| (r.keyword@, r.case_sensitive))
}

/// The command table as (aliases, command) pairs.
pub open spec fn commands_view(v: Seq<CommandEntry>) -> Seq<(Seq<Seq<char>>, SystemCommandKind)> {
    v.map_values(|c: CommandEntry| (crate::apps::strings_view(c.aliases@), c.kind))
}

/// Two texts match ignoring ASCII case (std `eq_ignore_ascii_case`).
pub open spec fn eq_ascii_ci(a: Seq<char>, b: Seq<char>) -> bool {
    lower_seq(a) == lower_seq(b)
}

fn eq_ci(a: &[char], b: &[char]) -> (r: bool)
    ensures
        r == eq_ascii_ci(a@, b@),
{
    let la = lower_chars(a);
    let lb = lower_chars(b);
    chars_eq(&la, &lb)
}

/// Sets the keyword of rule `index` to the trimmed `text`; returns whether
/// it changed (never for an index past the end).
pub fn set_filter_keyword(filters: &mut Vec<FilterRule>, index: usize, text: &str) -> (changed: bool)
    ensures
        changed == (index < old(filters)@.len() && rules_view(old(filters)@)[index as int].0 != trim(text@)),
        changed ==> rules_view(final(filters)@) == rules_view(old(filters)@).update(
            index as int,
            (trim(text@), rules_view(old(filters)@)[index as int].1),
        ),
        !changed ==> rules_view(final(filters)@) == rules_view(old(filters)@),
{
    if index >= filters.len() {
        return false;
    }
    let kw = trim_chars(&chars_of(text));
    let cur = chars_of(filters[index].keyword.as_str());
    if chars_eq(&cur, &kw) {
        return false;
    }
    let ghost before = rules_view(filters@);
    let cs = filters[index].case_sensitive;
    filters.set(index, FilterRule { keyword: string_of(&kw), case_sensitive: cs });
    assert(rules_view(filters@) =~= before.update(index as int, (kw@, cs)));
    true
}

/// Flips the case sensitivity of rule `index`; returns whether there is
/// such a rule.
pub fn toggle_filter_case(filters: &mut Vec<FilterRule>, index: usize) -> (done: bool)
    ensures
        done == (index < old(filters)@.len()),
        done ==> rules_view(final(filters)@) == rules_view(old(filters)@).update(
            index as int,
            (rules_view(old(filters)@)[index as int].0, !rules_view(old(filters)@)[index as int].1),
        ),
        !done ==> rules_view(final(filters)@) == rules_view(old(filters)@),
{
    if index >= filters.len() {
        return false;
    }
    let ghost before = rules_view(filters@);
    let kw = filters[index].keyword.clone();
    let cs = !filters[index].case_sensitive;
    filters.set(index, FilterRule { keyword: kw, case_sensitive: cs });
    assert(rules_view(filters@) =~= before.update(index as int, (before[index as int].0, cs)));
    true
}

/// Removes rule `index`; returns whether there was one.
pub fn delete_filter(filters: &mut Vec<FilterRule>, index: usize) -> (done: bool)
    ensures
        done == (index < old(filters)@.len()),
        done ==> rules_view(final(filters)@) == rules_view(old(filters)@).remove(index as int),
        !done ==> rules_view(final(filters)@) == rules_view(old(filters)@),
{
    if index >= filters.len() {
        return false;
    }
    let ghost before = filters@;
    filters.remove(index);
    assert(rules_view(filters@) =~= rules_view(before).remove(index as int));
    true
}

/// Some rule's keyword matches `kw` ignoring ASCII case.
pub open spec fn has_block_word(rules: Seq<(Seq<char>, bool)>, kw: Seq<char>) -> bool {
    exists|i: int| 0 <= i < rules.len() && eq_ascii_ci(#[trigger] rules[i].0, kw)
}

/// Adds the trimmed `text` as a case-insensitive rule, unless it is blank or
/// a rule with that keyword (in any ASCII case) exists; returns whether it
/// was added.
pub fn add_block_word(filters: &mut Vec<FilterRule>, text: &str) -> (added: bool)
    ensures
        added == (trim(text@).len() > 0 && !has_block_word(rules_view(old(filters)@), trim(text@))),
        added ==> rules_view(final(filters)@) == rules_view(old(filters)@).push((trim(text@), false)),
        !added ==> rules_view(final(filters)@) == rules_view(old(filters)@),
{
    let kw = trim_chars(&chars_of(text));
    if kw.len() == 0 {
        return false;
    }
    let ghost rv = rules_view(filters@);
    for i in 0..filters.len()
        invariant
            rv == rules_view(filters@),
            rv == rules_view(old(filters)@),
            kw@ == trim(text@),
            forall|j: int| 0 <= j < i ==> !eq_ascii_ci(#[trigger] rv[j].0, kw@),
    {
        let k = chars_of(filters[i].keyword.as_str());
        if eq_ci(&k, &kw) {
            assert(eq_ascii_ci(rv[i as int].0, kw@));
            return false;
        }
    }
    filters.push(FilterRule { keyword: string_of(&kw), case_sensitive: false });
    assert(rules_view(filters@) =~= rv.push((kw@, false)));
    true
}

/// Alias separators: ASCII and full-width commas, and whitespace.
pub open spec fn is_alias_sep(c: char) -> bool {
    c == ',' || c == '\u{ff0c}' || spec_is_whitespace(c)
}

/// The pieces of `s` between alias separators (`n + 1` pieces for `n`
/// separators).
pub open spec fn alias_pieces(s: Seq<char>) -> Seq<Seq<char>>
    decreases s.len(),
{
    if s.len() == 0 {
        seq![Seq::empty()]
    } else {
        let p = alias_pieces(s.drop_last());
        if is_alias_sep(s.last()) {
            p.push(Seq::empty())
        } else {
            p.update(p.len() - 1, p.last().push(s.last()))
        }
    }
}

proof fn lemma_alias_pieces_nonempty(s: Seq<char>)
    ensures
        alias_pieces(s).len() >= 1,
    decreases s.len(),
{
    if s.len() > 0 {
        lemma_alias_pieces_nonempty(s.drop_last());
    }
}

/// `acc` with piece `p` (trimmed) appended, unless it is blank or already
/// there in some ASCII case.
pub open spec fn add_alias(acc: Seq<Seq<char>>, p: Seq<char>) -> Seq<Seq<char>> {
    let t = trim(p);
    if t.len() > 0 && !(exists|i: int| 0 <= i < acc.len() && eq_ascii_ci(#[trigger] acc[i], t)) {
        acc.push(t)
    } else {
        acc
    }
}

pub open spec fn collect_aliases(parts: Seq<Seq<char>>) -> Seq<Seq<char>>
    decreases parts.len(),
{
    if parts.len() == 0 {
        seq![]
    } else {
        add_alias(collect_aliases(parts.drop_last()), parts.last())
    }
}

/// The aliases typed as `text`: split at commas (ASCII or full-width) and
/// whitespace, blanks dropped, the first of each ASCII-case-insensitive
/// duplicate kept, in order.
pub open spec fn spec_parse_aliases(text: Seq<char>) -> Seq<Seq<char>> {
    collect_aliases(alias_pieces(text))
}

fn add_alias_exec(acc: &mut Vec<String>, piece: &Vec<char>)
    ensures
        crate::apps::strings_view(final(acc)@) == add_alias(crate::apps::strings_view(old(acc)@), piece@),
{
    let t = trim_chars(piece);
    if t.len() == 0 {
        return;
    }
    let ghost av = crate::apps::strings_view(acc@);
    for i in 0..acc.len()
        invariant
            av == crate::apps::strings_view(acc@),
            t@ == trim(piece@),
            forall|j: int| 0 <= j < i ==> !eq_ascii_ci(#[trigger] av[j], t@),
    {
        let a = chars_of(acc[i].as_str());
        if eq_ci(&a, &t) {
            assert(eq_ascii_ci(av[i as int], t@));
            return;
        }
    }
    acc.push(string_of(&t));
    assert(crate::apps::strings_view(acc@) =~= av.push(t@));
}

/// Splits typed aliases: at commas (ASCII or full-width) and whitespace,
/// dropping blanks and later ASCII-case-insensitive repeats.
pub fn parse_aliases(text: &str) -> (r: Vec<String>)
    ensures
        crate::apps::strings_view(r@) == spec_parse_aliases(text@),
{
    let v = chars_of(text);
    let mut out: Vec<String> = Vec::new();
    let mut cur: Vec<char> = Vec::new();
    let mut i: usize = 0;
    assert(v@.take(0) =~= Seq::<char>::empty());
    assert(crate::apps::strings_view(out@) =~= Seq::<Seq<char>>::empty());
    while i < v.len()
        invariant
            i <= v@.len(),
            v@ == text@,
            alias_pieces(v@.take(i as int)).len() >= 1,
            cur@ == alias_pieces(v@.take(i as int)).last(),
            crate::apps::strings_view(out@) == collect_aliases(alias_pieces(v@.take(i as int)).drop_last()),
        decreases v@.len() - i,
    {
        let c = v[i];
        let ghost pre = v@.take(i as int);
        let ghost ps = alias_pieces(pre);
        assert(v@.take(i + 1).drop_last() == pre);
        assert(v@.take(i + 1).last() == c);
        proof {
            lemma_alias_pieces_nonempty(v@.take(i + 1));
        }
        if c == ',' || c == '\u{ff0c}' || is_whitespace(c) {
            add_alias_exec(&mut out, &cur);
            cur = Vec::new();
            assert(alias_pieces(v@.take(i + 1)) == ps.push(Seq::<char>::empty()));
            assert(ps.push(Seq::<char>::empty()).drop_last() == ps);
            assert(ps.drop_last().push(ps.last()) =~= ps);
            assert(collect_aliases(ps) == add_alias(collect_aliases(ps.drop_last()), ps.last()));
            assert(cur@ =~= Seq::<char>::empty());
        } else {
            cur.push(c);
            let ghost nps = ps.update(ps.len() - 1, ps.last().push(c));
            assert(alias_pieces(v@.take(i + 1)) == nps);
            assert(nps.drop_last() =~= ps.drop_last());
        }
        i += 1;
    }
    assert(v@.take(v@.len() as int) == v@);
    let ghost ps = alias_pieces(v@);
    add_alias_exec(&mut out, &cur);
    assert(ps.drop_last().push(ps.last()) =~= ps);
    out
}

/// The command after `k` when cycling a command entry's kind: lock, sleep,
/// shut down, restart, and around.
pub open spec fn spec_next_kind(k: SystemCommandKind) -> SystemCommandKind {
    match k {
        SystemCommandKind::Lock => SystemCommandKind::Sleep,
        SystemCommandKind::Sleep => SystemCommandKind::Shutdown,
        SystemCommandKind::Shutdown => SystemCommandKind::Restart,
        SystemCommandKind::Restart => SystemCommandKind::Lock,
    }
}

/// Replaces the aliases of command `index` with those typed as `text`;
/// returns whether they changed (never for an index past the end).
pub fn set_command_aliases(commands: &mut Vec<CommandEntry>, index: usize, text: &str) -> (changed: bool)
    ensures
        changed == (index < old(commands)@.len() && commands_view(old(commands)@)[index as int].0 != spec_parse_aliases(
            text@,
        )),
        changed ==> commands_view(final(commands)@) == commands_view(old(commands)@).update(
            index as int,
            (spec_parse_aliases(text@), commands_view(old(commands)@)[index as int].1),
        ),
        !changed ==> commands_view(final(commands)@) == commands_view(old(commands)@),
{
    if index >= commands.len() {
        return false;
    }
    let aliases = parse_aliases(text);
    let ghost before = commands_view(commands@);
    let ghost cur = before[index as int].0;
    let same = {
        let old_aliases = &commands[index].aliases;
        let mut eq = old_aliases.len() == aliases.len();
        assert(cur.len() == old_aliases@.len());
        if !eq {
            assert(cur.len() != crate::apps::strings_view(aliases@).len());
        }
        let mut k: usize = 0;
        while eq && k < aliases.len()
            invariant
                cur == crate::apps::strings_view(old_aliases@),
                eq ==> old_aliases@.len() == aliases@.len(),
                eq ==> forall|j: int| 0 <= j < k ==> old_aliases@[j]@ == aliases@[j]@,
                !eq ==> cur != crate::apps::strings_view(aliases@),
                k <= aliases@.len(),
            decreases aliases@.len() - k,
        {
            let a = chars_of(old_aliases[k].as_str());
            let b = chars_of(aliases[k].as_str());
            if !chars_eq(&a, &b) {
                eq = false;
                assert(cur[k as int] != crate::apps::strings_view(aliases@)[k as int]);
            }
            k += 1;
        }
        if eq {
            assert(cur =~= crate::apps::strings_view(aliases@));
        }
        eq
    };
    if same {
        return false;
    }
    let kind = commands[index].kind;
    commands.set(index, CommandEntry { aliases, kind });
    assert(commands_view(commands@) =~= before.update(index as int, (spec_parse_aliases(text@), kind)));
    true
}

/// Moves command `index` to the next kind; returns the new kind, or `None`
/// when there is no such command.
pub fn cycle_command_kind(commands: &mut Vec<CommandEntry>, index: usize) -> (r: Option<SystemCommandKind>)
    ensures
        index < old(commands)@.len() ==> r == Some(spec_next_kind(commands_view(old(commands)@)[index as int].1))
            && commands_view(final(commands)@) == commands_view(old(commands)@).update(
            index as int,
            (commands_view(old(commands)@)[index as int].0, spec_next_kind(commands_view(old(commands)@)[index as int].1)),
        ),
        index >= old(commands)@.len() ==> r is None && commands_view(final(commands)@) == commands_view(old(commands)@),
{
    if index >= commands.len() {
        return None;
    }
    let ghost before = commands_view(commands@);
    let next = match commands[index].kind {
        SystemCommandKind::Lock => SystemCommandKind::Sleep,
        SystemCommandKind::Sleep => SystemCommandKind::Shutdown,
        SystemCommandKind::Shutdown => SystemCommandKind::Restart,
        SystemCommandKind::Restart => SystemCommandKind::Lock,
    };
    let aliases = commands[index].aliases.clone();
    commands.set(index, CommandEntry { aliases, kind: next });
    assert(commands_view(commands@) =~= before.update(index as int, (before[index as int].0, next)));
    Some(next)
}

/// Removes command `index`; returns whether there was one.
pub fn delete_command(commands: &mut Vec<CommandEntry>, index: usize) -> (done: bool)
    ensures
        done == (index < old(commands)@.len()),
        done ==> commands_view(final(commands)@) == commands_view(old(commands)@).remove(index as int),
        !done ==> commands_view(final(commands)@) == commands_view(old(commands)@),
{
    if index >= commands.len() {
        return false;
    }
    let ghost before = commands@;
    commands.remove(index);
    assert(commands_view(commands@) =~= commands_view(before).remove(index as int));
    true
}

/// Sets the custom browser to the trimmed `text` (blank: the system's
/// default); returns whether it changed.
pub fn set_web_browser(browser: &mut String, text: &str) -> (changed: bool)
    ensures
        changed == (old(browser)@ != trim(text@)),
        final(browser)@ == trim(text@),
{
    let t = trim_chars(&chars_of(text));
    let cur = chars_of(browser.as_str());
    if chars_eq(&cur, &t) {
        return false;
    }
    *browser = string_of(&t);
    true
}

/// Cycling a command's kind four times comes back to where it started.
pub proof fn lemma_kind_cycle_period(k: SystemCommandKind)
    ensures
        spec_next_kind(spec_next_kind(spec_next_kind(spec_next_kind(k)))) == k,
{
}

/// Renames application `name` to the trimmed `text`; refused when that is
/// blank or the same name, when there is no such application, or when the
/// new name belongs to another one. Returns whether it was renamed.
pub fn rename_app(registry: &mut AppRegistry, name: &str, text: &str) -> (ok: bool)
    ensures
        ok == (trim(text@).len() > 0 && trim(text@) != name@ && first_named(apps_view(old(registry).apps@), name@) >= 0
            && first_named(apps_view(old(registry).apps@), trim(text@)) < 0),
        ok ==> apps_view(final(registry).apps@) == apps_view(old(registry).apps@).update(
            first_named(apps_view(old(registry).apps@), name@),
            crate::apps::AppView {
                name: trim(text@),
                ..apps_view(old(registry).apps@)[first_named(apps_view(old(registry).apps@), name@)]
            },
        ),
        !ok ==> apps_view(final(registry).apps@) == apps_view(old(registry).apps@),
{
    let t = trim_chars(&chars_of(text));
    let new_name = string_of(&t);
    if t.len() == 0 || str_eq(new_name.as_str(), name) {
        return false;
    }
    let mut draft = match registry.find(name) {
        Some(a) => a.duplicate(),
        None => {
            return false;
        },
    };
    draft.name = new_name;
    registry.mutate_app(name, draft)
}

/// Sets the path of application `name` to the trimmed `text`; refused when
/// that is blank or already its path, or when there is no such application.
/// Returns whether it changed.
pub fn set_app_path(registry: &mut AppRegistry, name: &str, text: &str) -> (ok: bool)
    ensures
        ok == (trim(text@).len() > 0 && first_named(apps_view(old(registry).apps@), name@) >= 0 && apps_view(
            old(registry).apps@,
        )[first_named(apps_view(old(registry).apps@), name@)].path != trim(text@)),
        ok ==> apps_view(final(registry).apps@) == apps_view(old(registry).apps@).update(
            first_named(apps_view(old(registry).apps@), name@),
            crate::apps::AppView {
                path: trim(text@),
                ..apps_view(old(registry).apps@)[first_named(apps_view(old(registry).apps@), name@)]
            },
        ),
        !ok ==> apps_view(final(registry).apps@) == apps_view(old(registry).apps@),
{
    proof {
        crate::apps::lemma_first_named(apps_view(registry.apps@), name@);
    }
    let t = trim_chars(&chars_of(text));
    if t.len() == 0 {
        return false;
    }
    let path = string_of(&t);
    let mut draft = match registry.find(name) {
        Some(a) => a.duplicate(),
        None => {
            return false;
        },
    };
    if str_eq(draft.path.as_str(), path.as_str()) {
        return false;
    }
    draft.path = path;
    registry.mutate_app(name, draft)
}

/// Sets the custom icon of application `name` to the trimmed `text` (blank
/// clears it); refused when nothing changes or there is no such
/// application. Returns whether it changed.
pub fn set_app_icon(registry: &mut AppRegistry, name: &str, text: &str) -> (ok: bool)
    ensures
        ok == (first_named(apps_view(old(registry).apps@), name@) >= 0 && apps_view(
            old(registry).apps@,
        )[first_named(apps_view(old(registry).apps@), name@)].icon_path != (if trim(text@).len() == 0 {
            None
        } else {
            Some(trim(text@))
        })),
        ok ==> apps_view(final(registry).apps@) == apps_view(old(registry).apps@).update(
            first_named(apps_view(old(registry).apps@), name@),
            crate::apps::AppView {
                icon_path: if trim(text@).len() == 0 {
                    None
                } else {
                    Some(trim(text@))
                },
                ..apps_view(old(registry).apps@)[first_named(apps_view(old(registry).apps@), name@)]
            },
        ),
        !ok ==> apps_view(final(registry).apps@) == apps_view(old(registry).apps@),
{
    proof {
        crate::apps::lemma_first_named(apps_view(registry.apps@), name@);
    }
    let t = trim_chars(&chars_of(text));
    let next: Option<String> = if t.len() == 0 {
        None
    } else {
        Some(string_of(&t))
    };
    let mut draft = match registry.find(name) {
        Some(a) => a.duplicate(),
        None => {
            return false;
        },
    };
    let same = match (&draft.icon_path, &next) {
        (None, None) => true,
        (Some(a), Some(b)) => str_eq(a.as_str(), b.as_str()),
        _ => false,
    };
    if same {
        return false;
    }
    draft.icon_path = next;
    registry.mutate_app(name, draft)
}

/// What a key chord pressed while recording the hotkey does.
#[derive(Debug, Clone)]
pub enum ChordOutcome {
    /// `esc`: recording is cancelled.
    Cancel,
    /// No modifier held: a single key is not taken as the hotkey.
    Ignore,
    /// The new hotkey, switched on.
    Save(HotkeyConfig),
}

/// The outcome of chord `modifiers` + `key` while recording: cancelled by
/// `esc`, ignored without a modifier, otherwise the hotkey to save.
pub fn record_chord(modifiers: &str, key: &str) -> (r: ChordOutcome)
    ensures
        key@ == "esc"@ ==> r is Cancel,
        key@ != "esc"@ && modifiers@.len() == 0 ==> r is Ignore,
        key@ != "esc"@ && modifiers@.len() > 0 ==> (r matches ChordOutcome::Save(h) && h.enabled && h.modifiers@
            == modifiers@ && h.key@ == key@),
{
    if str_eq(key, "esc") {
        return ChordOutcome::Cancel;
    }
    if modifiers.is_empty() {
        return ChordOutcome::Ignore;
    }
    ChordOutcome::Save(HotkeyConfig { enabled: true, modifiers: modifiers.to_string(), key: key.to_string() })
}

} // verus!
