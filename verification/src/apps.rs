//! The application registry: registering, updating, removing and looking up
//! launchable applications, and folding a fresh scan of the system into it.

use vstd::prelude::*;
use crate::text::{chars_eq, chars_of, string_of, string_push};
use crate::util::{decimal, spec_decimal};

verus! {

/// Where an application entry came from.
#[derive(Debug, Clone, Copy, PartialEq, Eq, Structural)]
pub enum AppSource {
    /// Found by a scan of the system's program folders.
    Scanned,
    /// Registered by hand.
    Manual,
}

/// A registered application.
#[derive(Debug, Clone)]
pub struct AppInfo {
    /// Display name (also the registry key).
    pub name: String,
    /// What is launched: executable, shortcut or link.
    pub path: String,
    /// Custom icon path; `None` resolves the icon from `path`.
    pub icon_path: Option<String>,
    /// Tags.
    pub tags: Vec<String>,
    /// Marked as a favourite.
    pub favorite: bool,
    /// Number of launches.
    pub launch_count: u32,
    /// Last launch, in Unix seconds (0 = never).
    pub last_used: u64,
    /// Where the entry came from.
    pub source: AppSource,
}

/// The mathematical content of an [`AppInfo`].
pub struct AppView {
    pub name: Seq<char>,
    pub path: Seq<char>,
    pub icon_path: Option<Seq<char>>,
    pub tags: Seq<Seq<char>>,
    pub favorite: bool,
    pub launch_count: u32,
    pub last_used: u64,
    pub source: AppSource,
}

pub open spec fn strings_view(v: Seq<String>) -> Seq<Seq<char>> {
    v.map_values(|s: String| s@)
}

pub open spec fn opt_str_view(o: Option<String>) -> Option<Seq<char>> {
    match o {
        Some(s) => Some(s@),
        None => None,
    }
}

impl View for AppInfo {
    type V = AppView;

    open spec fn view(&self) -> AppView {
        AppView {
            name: self.name@,
            path: self.path@,
            icon_path: opt_str_view(self.icon_path),
            tags: strings_view(self.tags@),
            favorite: self.favorite,
            launch_count: self.launch_count,
            last_used: self.last_used,
            source: self.source,
        }
    }
}

pub open spec fn apps_view(v: Seq<AppInfo>) -> Seq<AppView> {
    v.map_values(|a: AppInfo| a@)
}

/// The characters a file name may not contain.
pub open spec fn is_invalid_file_char(c: char) -> bool {
    c == '<' || c == '>' || c == ':' || c == '"' || c == '/' || c == '\\' || c == '|' || c == '?'
        || c == '*'
}

/// Longest file stem kept for an icon snapshot, in characters.
pub const MAX_STEM_CHARS: usize = 60;

/// A name made safe for a file name: forbidden characters become `_`, and the
/// result is cut to at most 60 characters.
pub open spec fn spec_sanitize(name: Seq<char>) -> Seq<char> {
    let mapped = name.map_values(|c: char| if is_invalid_file_char(c) { '_' } else { c });
    if mapped.len() > MAX_STEM_CHARS {
        mapped.take(MAX_STEM_CHARS as int)
    } else {
        mapped
    }
}

/// Makes a name safe for use as a file name (icon snapshots).
pub fn sanitize_file_name(name: &str) -> (r: String)
    ensures
        r@ == spec_sanitize(name@),
{
    let v = chars_of(name);
    let ghost mapped = v@.map_values(|c: char| if is_invalid_file_char(c) { '_' } else { c });
    let mut out: Vec<char> = Vec::new();
    let mut i: usize = 0;
    while i < v.len() && i < MAX_STEM_CHARS
        invariant
            i <= v@.len(),
            i <= MAX_STEM_CHARS,
            mapped == v@.map_values(|c: char| if is_invalid_file_char(c) { '_' } else { c }),
            out@ == mapped.take(i as int),
        decreases v@.len() - i,
    {
        let c = v[i];
        let bad = c == '<' || c == '>' || c == ':' || c == '"' || c == '/' || c == '\\' || c == '|'
            || c == '?' || c == '*';
        out.push(if bad { '_' } else { c });
        assert(mapped.take(i + 1) == mapped.take(i as int).push(mapped[i as int]));
        i += 1;
    }
    proof {
        if mapped.len() <= MAX_STEM_CHARS as nat {
            assert(mapped.take(mapped.len() as int) == mapped);
        }
    }
    string_of(&out)
}

/// Equality of two string slices, by content.
pub fn str_eq(a: &str, b: &str) -> (r: bool)
    ensures
        r == (a@ == b@),
{
    let x = chars_of(a);
    let y = chars_of(b);
    chars_eq(&x, &y)
}

fn copy_strings(v: &Vec<String>) -> (r: Vec<String>)
    ensures
        strings_view(r@) == strings_view(v@),
{
    let mut r: Vec<String> = Vec::new();
    for i in 0..v.len()
        invariant
            strings_view(r@) == strings_view(v@).take(i as int),
    {
        r.push(v[i].clone());
        assert(strings_view(v@).take(i + 1) == strings_view(v@).take(i as int).push(v@[i as int]@));
    }
    assert(strings_view(v@).take(v@.len() as int) == strings_view(v@));
    r
}

impl AppInfo {
    /// A hand-registered application: no tags, never launched.
    pub fn manual(name: &str, path: &str) -> (r: AppInfo)
        ensures
            r@ == (AppView {
                name: name@,
                path: path@,
                icon_path: None,
                tags: seq![],
                favorite: false,
                launch_count: 0,
                last_used: 0,
                source: AppSource::Manual,
            }),
    {
        let r = AppInfo {
            name: name.to_string(),
            path: path.to_string(),
            icon_path: None,
            tags: Vec::new(),
            favorite: false,
            launch_count: 0,
            last_used: 0,
            source: AppSource::Manual,
        };
        assert(strings_view(r.tags@) == Seq::<Seq<char>>::empty());
        r
    }

    /// A copy with the same content.
    pub fn duplicate(&self) -> (r: AppInfo)
        ensures
            r@ == self@,
    {
        let icon_path = match &self.icon_path {
            Some(p) => Some(p.clone()),
            None => None,
        };
        AppInfo {
            name: self.name.clone(),
            path: self.path.clone(),
            icon_path,
            tags: copy_strings(&self.tags),
            favorite: self.favorite,
            launch_count: self.launch_count,
            last_used: self.last_used,
            source: self.source,
        }
    }

    /// File name of the icon snapshot: the sanitised name plus `.png`.
    pub fn icon_snapshot_name(&self) -> (r: String)
        ensures
            r@ == spec_sanitize(self.name@) + seq!['.', 'p', 'n', 'g'],
    {
        let mut s = sanitize_file_name(self.name.as_str());
        string_push(&mut s, '.');
        string_push(&mut s, 'p');
        string_push(&mut s, 'n');
        string_push(&mut s, 'g');
        s
    }

    /// Records one launch at `now_secs`: the counter saturates at its maximum.
    pub fn bump_launch(&mut self, now_secs: u64)
        ensures
            final(self)@ == (AppView {
                launch_count: if old(self).launch_count == u32::MAX { u32::MAX } else { (old(self).launch_count + 1) as u32 },
                last_used: now_secs,
                ..old(self)@
            }),
    {
        self.launch_count = self.launch_count.saturating_add(1);
        self.last_used = now_secs;
    }
}

/// Counts of one scan merge.
#[derive(Debug, Clone, PartialEq, Eq, Default)]
pub struct ScanDelta {
    /// Newly registered applications.
    pub added: usize,
    /// Applications removed because they disappeared from the system.
    pub removed: usize,
    /// Names of the removed applications (for cleaning up icon snapshots).
    pub removed_names: Vec<String>,
}

impl ScanDelta {
    /// Did the merge change anything?
    pub fn any(&self) -> (r: bool)
        ensures
            r == (self.added > 0 || self.removed > 0),
    {
        self.added > 0 || self.removed > 0
    }

    /// One-line summary for a notification.
    pub fn summary(&self) -> (r: String)
        ensures
            r@ == seq!['新', '增', ' '] + spec_decimal(self.added as nat) + seq![' ', '个', ',', '移', '除', ' ']
                + spec_decimal(self.removed as nat) + seq![' ', '个', '应', '用', '喵'],
    {
        let mut v: Vec<char> = vec!['新', '增', ' '];
        let a = decimal(self.added as u64);
        crate::text::extend_chars(&mut v, &a);
        let mid = vec![' ', '个', ',', '移', '除', ' '];
        crate::text::extend_chars(&mut v, &mid);
        let b = decimal(self.removed as u64);
        crate::text::extend_chars(&mut v, &b);
        let tail = vec![' ', '个', '应', '用', '喵'];
        crate::text::extend_chars(&mut v, &tail);
        string_of(&v)
    }
}

/// The registry.
#[derive(Debug, Clone, Default)]
pub struct AppRegistry {
    /// All registered applications.
    pub apps: Vec<AppInfo>,
}

/// Index of the first application called `n`, or -1.
pub open spec fn first_named(apps: Seq<AppView>, n: Seq<char>) -> int
    decreases apps.len(),
{
    if apps.len() == 0 {
        -1
    } else if apps[0].name == n {
        0
    } else {
        let r = first_named(apps.drop_first(), n);
        if r < 0 {
            -1
        } else {
            r + 1
        }
    }
}

pub proof fn lemma_first_named(apps: Seq<AppView>, n: Seq<char>)
    ensures
        -1 <= first_named(apps, n) < apps.len(),
        first_named(apps, n) >= 0 ==> apps[first_named(apps, n)].name == n,
        forall|j: int|
            0 <= j < apps.len() && (first_named(apps, n) < 0 || j < first_named(apps, n)) ==> apps[j].name != n,
    decreases apps.len(),
{
    if apps.len() > 0 && apps[0].name != n {
        lemma_first_named(apps.drop_first(), n);
        assert forall|j: int|
            0 <= j < apps.len() && (first_named(apps, n) < 0 || j < first_named(apps, n)) implies apps[j].name != n by {
            if j > 0 {
                assert(apps[j] == apps.drop_first()[j - 1]);
            }
        }
    }
}

/// `first_named` is the first index whose name matches.
pub proof fn lemma_first_named_is(apps: Seq<AppView>, n: Seq<char>, i: int)
    requires
        -1 <= i < apps.len(),
        i >= 0 ==> apps[i].name == n,
        forall|j: int| 0 <= j < apps.len() && (i < 0 || j < i) ==> apps[j].name != n,
    ensures
        first_named(apps, n) == i,
{
    lemma_first_named(apps, n);
    let f = first_named(apps, n);
    if f >= 0 && (i < 0 || f < i) {
        assert(apps[f].name == n);
    }
    if i >= 0 && (f < 0 || i < f) {
        assert(apps[i].name == n);
    }
}

/// The registry after registering `a`: an application of the same name is
/// replaced, otherwise `a` is appended.
pub open spec fn spec_upsert(apps: Seq<AppView>, a: AppView) -> Seq<AppView> {
    let i = first_named(apps, a.name);
    if i >= 0 {
        apps.update(i, a)
    } else {
        apps.push(a)
    }
}

/// The registry without the applications called `n`.
pub open spec fn without_name(apps: Seq<AppView>, n: Seq<char>) -> Seq<AppView> {
    apps.filter(|a: AppView| a.name != n)
}

fn index_of_name(apps: &Vec<AppInfo>, name: &str) -> (r: Option<usize>)
    ensures
        match r {
            Some(i) => i < apps@.len() && first_named(apps_view(apps@), name@) == i,
            None => first_named(apps_view(apps@), name@) == -1,
        },
{
    let ghost av = apps_view(apps@);
    for i in 0..apps.len()
        invariant
            av == apps_view(apps@),
            forall|j: int| 0 <= j < i ==> av[j].name != name@,
    {
        if str_eq(apps[i].name.as_str(), name) {
            proof {
                lemma_first_named_is(av, name@, i as int);
            }
            return Some(i);
        }
    }
    proof {
        lemma_first_named_is(av, name@, -1);
    }
    None
}

impl AppRegistry {
    /// Registers `app`, replacing an application of the same name; returns
    /// whether it is new.
    pub fn upsert(&mut self, app: AppInfo) -> (added: bool)
        ensures
            apps_view(final(self).apps@) == spec_upsert(apps_view(old(self).apps@), app@),
            added == (first_named(apps_view(old(self).apps@), app@.name) < 0),
    {
        let ghost av = apps_view(self.apps@);
        let ghost a = app@;
        match index_of_name(&self.apps, app.name.as_str()) {
            Some(i) => {
                self.apps.set(i, app);
                assert(apps_view(self.apps@) == av.update(i as int, a));
                false
            },
            None => {
                self.apps.push(app);
                assert(apps_view(self.apps@) == av.push(a));
                true
            },
        }
    }

    /// Removes every application called `name`; returns whether any was.
    pub fn remove(&mut self, name: &str) -> (removed: bool)
        ensures
            apps_view(final(self).apps@) == without_name(apps_view(old(self).apps@), name@),
            removed == (first_named(apps_view(old(self).apps@), name@) >= 0),
    {
        let ghost av = apps_view(self.apps@);
        let mut old_apps: Vec<AppInfo> = Vec::new();
        std::mem::swap(&mut old_apps, &mut self.apps);
        let ghost pred = |a: AppView| a.name != name@;
        let mut kept: Vec<AppInfo> = Vec::new();
        let mut any = false;
        let n = old_apps.len();
        for a in it: old_apps
            invariant
                av == apps_view(it.seq()),
                n == av.len(),
                pred == (|a: AppView| a.name != name@),
                apps_view(kept@) == av.take(it.index() as int).filter(pred),
                any == exists|j: int| 0 <= j < it.index() && av[j].name == name@,
        {
            reveal_with_fuel(Seq::filter, 1);
            let ghost idx = it.index();
            assert(av.take(idx + 1).drop_last() == av.take(idx as int));
            assert(a@ == av[idx as int]);
            if str_eq(a.name.as_str(), name) {
                any = true;
            } else {
                kept.push(a);
                assert(apps_view(kept@) == av.take(idx as int).filter(pred).push(av[idx as int]));
            }
        }
        assert(av.take(n as int) == av);
        self.apps = kept;
        proof {
            lemma_first_named(av, name@);
            if any {
                let j = choose|j: int| 0 <= j < n && av[j].name == name@;
                assert(av[j].name == name@);
            }
        }
        any
    }

    /// The first application called `name`.
    pub fn find(&self, name: &str) -> (r: Option<&AppInfo>)
        ensures
            match r {
                Some(a) => first_named(apps_view(self.apps@), name@) >= 0 && a@ == apps_view(
                    self.apps@,
                )[first_named(apps_view(self.apps@), name@)],
                None => first_named(apps_view(self.apps@), name@) < 0,
            },
    {
        match index_of_name(&self.apps, name) {
            Some(i) => Some(&self.apps[i]),
            None => None,
        }
    }

    /// Folds a fresh scan into the registry, both ways.
    ///
    /// * Scanned applications whose name is not in the scan have disappeared
    ///   from the system (uninstalled, shortcut deleted): every application of
    ///   such a name is removed. The scan given here is the complete one:
    ///   entries a caller filtered out do not count as gone.
    /// * A scanned name that is new is registered.
    /// * A scanned name already registered by a scan follows a changed path
    ///   (tags, favourite and counters stay); one registered by hand is left
    ///   alone.
    ///
    /// Returns the counts; the caller cleans up icons of the removed names.
    pub fn merge_scanned(&mut self, scanned: Vec<AppInfo>) -> (delta: ScanDelta)
        ensures
            strings_view(delta.removed_names@) == gone_names(apps_view(old(self).apps@), apps_view(scanned@)),
            delta.removed == delta.removed_names@.len(),
            apps_view(final(self).apps@) == absorb_all(
                after_removal(apps_view(old(self).apps@), apps_view(scanned@)),
                apps_view(scanned@),
            ),
            delta.added == added_count(
                after_removal(apps_view(old(self).apps@), apps_view(scanned@)),
                apps_view(scanned@),
            ),
    {
        let ghost av = apps_view(self.apps@);
        let ghost sv = apps_view(scanned@);
        // ---- names that disappeared ----
        let ghost gp = |a: AppView| is_gone(a, sv);
        let mut gone: Vec<String> = Vec::new();
        for i in 0..self.apps.len()
            invariant
                av == apps_view(self.apps@),
                sv == apps_view(scanned@),
                gp == (|a: AppView| is_gone(a, sv)),
                strings_view(gone@) == av.take(i as int).filter(gp).map_values(|a: AppView| a.name),
        {
            reveal_with_fuel(Seq::filter, 1);
            assert(av.take(i + 1).drop_last() == av.take(i as int));
            let scanned_src = match self.apps[i].source {
                AppSource::Scanned => true,
                AppSource::Manual => false,
            };
            let alive = index_of_name(&scanned, self.apps[i].name.as_str()).is_some();
            proof {
                lemma_first_named(sv, av[i as int].name);
                if first_named(sv, av[i as int].name) >= 0 {
                    assert(names_of(sv)[first_named(sv, av[i as int].name)] == av[i as int].name);
                }
                if names_of(sv).contains(av[i as int].name) {
                    let j = choose|j: int| 0 <= j < names_of(sv).len() && names_of(sv)[j] == av[i as int].name;
                    assert(sv[j].name == av[i as int].name);
                }
            }
            if scanned_src && !alive {
                gone.push(self.apps[i].name.clone());
                assert(strings_view(gone@) == av.take(i as int).filter(gp).map_values(|a: AppView| a.name).push(av[i as int].name));
                assert(av.take(i as int).filter(gp).push(av[i as int]).map_values(|a: AppView| a.name) == av.take(i as int).filter(gp).map_values(|a: AppView| a.name).push(av[i as int].name));
            }
        }
        assert(av.take(av.len() as int) == av);
        let ghost gv = strings_view(gone@);
        // ---- drop every application of a gone name ----
        let mut old_apps: Vec<AppInfo> = Vec::new();
        std::mem::swap(&mut old_apps, &mut self.apps);
        let ghost kp = |a: AppView| !gv.contains(a.name);
        let mut kept: Vec<AppInfo> = Vec::new();
        for a in it: old_apps
            invariant
                av == apps_view(it.seq()),
                gv == strings_view(gone@),
                kp == (|a: AppView| !gv.contains(a.name)),
                apps_view(kept@) == av.take(it.index() as int).filter(kp),
        {
            reveal_with_fuel(Seq::filter, 1);
            let ghost idx = it.index();
            assert(av.take(idx + 1).drop_last() == av.take(idx as int));
            assert(a@ == av[idx as int]);
            let mut hit = false;
            for g in 0..gone.len()
                invariant
                    gv == strings_view(gone@),
                    hit == exists|j: int| 0 <= j < g && gv[j] == a@.name,
            {
                assert(gv[g as int] == gone@[g as int]@);
                if str_eq(gone[g].as_str(), a.name.as_str()) {
                    hit = true;
                }
                assert(hit == exists|j: int| 0 <= j < g + 1 && gv[j] == a@.name) by {
                    if !hit {
                        assert forall|j: int| 0 <= j < g + 1 implies gv[j] != a@.name by {
                            if j < g {
                            }
                        }
                    }
                }
            }
            proof {
                if gv.contains(a@.name) {
                    let j = choose|j: int| 0 <= j < gv.len() && gv[j] == a@.name;
                    assert(gv[j] == a@.name);
                }
            }
            if !hit {
                kept.push(a);
                assert(apps_view(kept@) == av.take(idx as int).filter(kp).push(av[idx as int]));
            }
        }
        assert(av.take(av.len() as int) == av);
        self.apps = kept;
        let ghost base = apps_view(self.apps@);
        assert(base == after_removal(av, sv));
        // ---- register the new names, follow changed paths ----
        let removed = gone.len();
        let mut added: usize = 0;
        let n = scanned.len();
        for app in it: scanned
            invariant
                sv == apps_view(it.seq()),
                n == sv.len(),
                base == after_removal(av, sv),
                apps_view(self.apps@) == absorb_all(base, sv.take(it.index() as int)),
                added == added_count(base, sv.take(it.index() as int)),
                added <= it.index(),
        {
            let ghost idx = it.index();
            let ghost cur = apps_view(self.apps@);
            assert(sv.take(idx + 1).drop_last() == sv.take(idx as int));
            assert(sv.take(idx + 1).last() == app@);
            assert(app@ == sv[idx as int]);
            match index_of_name(&self.apps, app.name.as_str()) {
                Some(i) => {
                    let manual = match self.apps[i].source {
                        AppSource::Manual => true,
                        AppSource::Scanned => false,
                    };
                    if !manual && !str_eq(self.apps[i].path.as_str(), app.path.as_str()) {
                        let mut u = self.apps[i].duplicate();
                        u.path = app.path;
                        self.apps.set(i, u);
                        assert(apps_view(self.apps@) == cur.update(i as int, AppView { path: sv[idx as int].path, ..cur[i as int] }));
                    }
                },
                None => {
                    self.apps.push(app);
                    assert(apps_view(self.apps@) == cur.push(sv[idx as int]));
                    added += 1;
                },
            }
        }
        assert(sv.take(n as int) == sv);
        ScanDelta { added, removed, removed_names: gone }
    }
}

impl AppRegistry {
    /// Puts `draft`, an edited copy of the first application called `name`,
    /// in its place. Refused, leaving the registry as it was, when there is
    /// no such application or when the edit renames it to a name another
    /// application holds. Returns whether the edit was applied.
    pub fn mutate_app(&mut self, name: &str, draft: AppInfo) -> (ok: bool)
        ensures
            ok == (first_named(apps_view(old(self).apps@), name@) >= 0 && (draft@.name == name@ || first_named(
                apps_view(old(self).apps@),
                draft@.name,
            ) < 0)),
            ok ==> apps_view(final(self).apps@) == apps_view(old(self).apps@).update(
                first_named(apps_view(old(self).apps@), name@),
                draft@,
            ),
            !ok ==> apps_view(final(self).apps@) == apps_view(old(self).apps@),
    {
        let ghost av = apps_view(self.apps@);
        let i = match index_of_name(&self.apps, name) {
            Some(i) => i,
            None => {
                return false;
            },
        };
        if !str_eq(draft.name.as_str(), name) {
            if index_of_name(&self.apps, draft.name.as_str()).is_some() {
                return false;
            }
        }
        let ghost d = draft@;
        self.apps.set(i, draft);
        assert(apps_view(self.apps@) == av.update(i as int, d));
        true
    }
}

pub open spec fn names_of(s: Seq<AppView>) -> Seq<Seq<char>> {
    s.map_values(|a: AppView| a.name)
}

/// A registered application has disappeared from the system: it came from a
/// scan and its name is not in the new one.
pub open spec fn is_gone(a: AppView, scanned: Seq<AppView>) -> bool {
    a.source == AppSource::Scanned && !names_of(scanned).contains(a.name)
}

/// The names of the applications that disappeared, in registry order.
pub open spec fn gone_names(apps: Seq<AppView>, scanned: Seq<AppView>) -> Seq<Seq<char>> {
    apps.filter(|a: AppView| is_gone(a, scanned)).map_values(|a: AppView| a.name)
}

/// The registry without every application whose name disappeared.
pub open spec fn after_removal(apps: Seq<AppView>, scanned: Seq<AppView>) -> Seq<AppView> {
    apps.filter(|a: AppView| !gone_names(apps, scanned).contains(a.name))
}

/// One scanned application folded in: a new name is appended; a name
/// registered by a scan follows a changed path; a hand-registered one is kept.
pub open spec fn absorb(apps: Seq<AppView>, s: AppView) -> Seq<AppView> {
    let i = first_named(apps, s.name);
    if i < 0 {
        apps.push(s)
    } else if apps[i].source == AppSource::Manual {
        apps
    } else if apps[i].path != s.path {
        apps.update(i, AppView { path: s.path, ..apps[i] })
    } else {
        apps
    }
}

pub open spec fn absorb_all(apps: Seq<AppView>, sc: Seq<AppView>) -> Seq<AppView>
    decreases sc.len(),
{
    if sc.len() == 0 {
        apps
    } else {
        absorb(absorb_all(apps, sc.drop_last()), sc.last())
    }
}

/// How many scanned applications were new when folded in.
pub open spec fn added_count(apps: Seq<AppView>, sc: Seq<AppView>) -> nat
    decreases sc.len(),
{
    if sc.len() == 0 {
        0
    } else {
        added_count(apps, sc.drop_last()) + if first_named(
            absorb_all(apps, sc.drop_last()),
            sc.last().name,
        ) < 0 {
            1nat
        } else {
            0nat
        }
    }
}

/// Tag lists compare in any ASCII case.
pub open spec fn has_tag_like(tags: Seq<Seq<char>>, t: Seq<char>) -> bool {
    exists|k: int| 0 <= k < tags.len() && crate::text::lower_seq(#[trigger] tags[k]) == crate::text::lower_seq(t)
}

/// The registry after changing the first application called `n` to `f` of
/// it; unchanged when there is none.
pub open spec fn at_name(apps: Seq<AppView>, n: Seq<char>, a: AppView) -> Seq<AppView> {
    let i = first_named(apps, n);
    if i >= 0 {
        apps.update(i, a)
    } else {
        apps
    }
}

impl AppRegistry {
    /// Flips the favourite mark of the first application called `name`.
    pub fn toggle_favorite(&mut self, name: &str)
        ensures
            ({
                let av = apps_view(old(self).apps@);
                let i = first_named(av, name@);
                apps_view(final(self).apps@) == if i >= 0 {
                    av.update(i, AppView { favorite: !av[i].favorite, ..av[i] })
                } else {
                    av
                }
            }),
    {
        let ghost av = apps_view(self.apps@);
        match index_of_name(&self.apps, name) {
            Some(i) => {
                let mut u = self.apps[i].duplicate();
                u.favorite = !u.favorite;
                self.apps.set(i, u);
                assert(apps_view(self.apps@) =~= av.update(i as int, AppView { favorite: !av[i as int].favorite, ..av[i as int] }));
            },
            None => {},
        }
    }

    /// Records a launch of the first application called `name` at `now_secs`.
    pub fn record_launch(&mut self, name: &str, now_secs: u64)
        ensures
            ({
                let av = apps_view(old(self).apps@);
                let i = first_named(av, name@);
                apps_view(final(self).apps@) == if i >= 0 {
                    av.update(
                        i,
                        AppView {
                            launch_count: if av[i].launch_count == u32::MAX {
                                u32::MAX
                            } else {
                                (av[i].launch_count + 1) as u32
                            },
                            last_used: now_secs,
                            ..av[i]
                        },
                    )
                } else {
                    av
                }
            }),
    {
        let ghost av = apps_view(self.apps@);
        match index_of_name(&self.apps, name) {
            Some(i) => {
                let mut u = self.apps[i].duplicate();
                u.bump_launch(now_secs);
                self.apps.set(i, u);
                assert(apps_view(self.apps@) =~= av.update(
                    i as int,
                    AppView {
                        launch_count: if av[i as int].launch_count == u32::MAX {
                            u32::MAX
                        } else {
                            (av[i as int].launch_count + 1) as u32
                        },
                        last_used: now_secs,
                        ..av[i as int]
                    },
                ));
            },
            None => {},
        }
    }

    /// Adds the trimmed `tag` to the first application called `name`, unless
    /// it is blank or the application has it already (in any ASCII case).
    pub fn add_tag(&mut self, name: &str, tag: &str)
        ensures
            ({
                let av = apps_view(old(self).apps@);
                let i = first_named(av, name@);
                let t = crate::text::trim(tag@);
                apps_view(final(self).apps@) == if i >= 0 && t.len() > 0 && !has_tag_like(av[i].tags, t) {
                    av.update(i, AppView { tags: av[i].tags.push(t), ..av[i] })
                } else {
                    av
                }
            }),
    {
        let ghost av = apps_view(self.apps@);
        let tv = chars_of(tag);
        let t = crate::text::trim_chars(&tv);
        if t.len() == 0 {
            return;
        }
        let tl = crate::text::lower_chars(&t);
        match index_of_name(&self.apps, name) {
            Some(i) => {
                let ghost tags = av[i as int].tags;
                let n = self.apps[i].tags.len();
                for k in 0..n
                    invariant
                        n == self.apps@[i as int].tags@.len(),
                        i < self.apps@.len(),
                        av == apps_view(self.apps@),
                        tags == av[i as int].tags,
                        first_named(av, name@) == i,
                        t@ == crate::text::trim(tag@),
                        tl@ == crate::text::lower_seq(t@),
                        forall|j: int| 0 <= j < k ==> crate::text::lower_seq(#[trigger] tags[j]) != crate::text::lower_seq(t@),
                {
                    let kv = chars_of(self.apps[i].tags[k].as_str());
                    let kl = crate::text::lower_chars(&kv);
                    assert(tags[k as int] == self.apps@[i as int].tags@[k as int]@);
                    if chars_eq(&kl, &tl) {
                        assert(has_tag_like(tags, t@));
                        return;
                    }
                }
                let mut u = self.apps[i].duplicate();
                u.tags.push(string_of(&t));
                assert(strings_view(u.tags@) =~= tags.push(t@));
                self.apps.set(i, u);
                assert(apps_view(self.apps@) =~= av.update(i as int, AppView { tags: tags.push(t@), ..av[i as int] }));
            },
            None => {},
        }
    }

    /// Removes tag `tag` (exact text) from the first application called
    /// `name`.
    pub fn remove_tag(&mut self, name: &str, tag: &str)
        ensures
            ({
                let av = apps_view(old(self).apps@);
                let i = first_named(av, name@);
                apps_view(final(self).apps@) == if i >= 0 {
                    av.update(i, AppView { tags: av[i].tags.filter(|x: Seq<char>| x != tag@), ..av[i] })
                } else {
                    av
                }
            }),
    {
        let ghost av = apps_view(self.apps@);
        match index_of_name(&self.apps, name) {
            Some(i) => {
                let ghost tags = av[i as int].tags;
                let ghost pred = |x: Seq<char>| x != tag@;
                let mut kept: Vec<String> = Vec::new();
                let n = self.apps[i].tags.len();
                for k in 0..n
                    invariant
                        n == self.apps@[i as int].tags@.len(),
                        i < self.apps@.len(),
                        av == apps_view(self.apps@),
                        tags == av[i as int].tags,
                        pred == (|x: Seq<char>| x != tag@),
                        strings_view(kept@) == tags.take(k as int).filter(pred),
                {
                    reveal_with_fuel(Seq::filter, 1);
                    assert(tags.take(k + 1).drop_last() == tags.take(k as int));
                    assert(tags[k as int] == self.apps@[i as int].tags@[k as int]@);
                    if !str_eq(self.apps[i].tags[k].as_str(), tag) {
                        kept.push(self.apps[i].tags[k].clone());
                        assert(strings_view(kept@) =~= tags.take(k as int).filter(pred).push(tags[k as int]));
                    }
                }
                assert(tags.take(n as int) == tags);
                let mut u = self.apps[i].duplicate();
                u.tags = kept;
                self.apps.set(i, u);
                assert(apps_view(self.apps@) =~= av.update(i as int, AppView { tags: tags.filter(pred), ..av[i as int] }));
            },
            None => {},
        }
    }
}


/// An application called `n` is registered.
pub open spec fn has_app_named(apps: Seq<AppView>, n: Seq<char>) -> bool {
    exists|i: int| 0 <= i < apps.len() && #[trigger] apps[i].name == n
}

proof fn lemma_named_iff(apps: Seq<AppView>, n: Seq<char>)
    ensures
        first_named(apps, n) >= 0 <==> has_app_named(apps, n),
{
    lemma_first_named(apps, n);
    let f = first_named(apps, n);
    if f >= 0 {
        assert(apps[f].name == n);
    }
    if has_app_named(apps, n) {
        let i = choose|i: int| 0 <= i < apps.len() && #[trigger] apps[i].name == n;
        assert(apps[i].name == n);
    }
}

/// Folding in one scanned application loses no name and registers its own.
proof fn lemma_absorb_names(apps: Seq<AppView>, s: AppView)
    ensures
        forall|n: Seq<char>| has_app_named(apps, n) ==> #[trigger] has_app_named(absorb(apps, s), n),
        has_app_named(absorb(apps, s), s.name),
{
    lemma_first_named(apps, s.name);
    let f = first_named(apps, s.name);
    let r = absorb(apps, s);
    assert forall|n: Seq<char>| has_app_named(apps, n) implies #[trigger] has_app_named(r, n) by {
        let i = choose|i: int| 0 <= i < apps.len() && #[trigger] apps[i].name == n;
        assert(r[i].name == n);
    }
    if f < 0 {
        assert(r[apps.len() as int].name == s.name);
    } else {
        assert(r[f].name == s.name);
    }
}

proof fn lemma_absorb_all_names(apps: Seq<AppView>, sc: Seq<AppView>)
    ensures
        forall|n: Seq<char>| has_app_named(apps, n) ==> #[trigger] has_app_named(absorb_all(apps, sc), n),
        forall|k: int| 0 <= k < sc.len() ==> has_app_named(absorb_all(apps, sc), #[trigger] sc[k].name),
    decreases sc.len(),
{
    if sc.len() > 0 {
        let pre = sc.drop_last();
        lemma_absorb_all_names(apps, pre);
        lemma_absorb_names(absorb_all(apps, pre), sc.last());
        assert forall|k: int| 0 <= k < sc.len() implies has_app_named(absorb_all(apps, sc), #[trigger] sc[k].name) by {
            if k < sc.len() - 1 {
                assert(sc[k] == pre[k]);
            }
        }
    }
}

/// After a merge every scanned name is registered.
pub proof fn lemma_merge_registers_scan(apps: Seq<AppView>, scanned: Seq<AppView>)
    ensures
        forall|k: int|
            0 <= k < scanned.len() ==> has_app_named(
                absorb_all(after_removal(apps, scanned), scanned),
                #[trigger] scanned[k].name,
            ),
{
    lemma_absorb_all_names(after_removal(apps, scanned), scanned);
}

/// Every application is either registered by hand or named in the scan.
pub open spec fn settled(apps: Seq<AppView>, scanned: Seq<AppView>) -> bool {
    forall|i: int|
        0 <= i < apps.len() ==> #[trigger] apps[i].source == AppSource::Manual || names_of(scanned).contains(
            apps[i].name,
        )
}

proof fn lemma_after_removal_settled(apps: Seq<AppView>, scanned: Seq<AppView>)
    ensures
        settled(after_removal(apps, scanned), scanned),
{
    let gp = |a: AppView| is_gone(a, scanned);
    let gone = apps.filter(gp);
    let kp = |a: AppView| !gone_names(apps, scanned).contains(a.name);
    let kept = apps.filter(kp);
    kept.filter_lemma(kp);
    assert forall|i: int| 0 <= i < kept.len() implies #[trigger] kept[i].source == AppSource::Manual
        || names_of(scanned).contains(kept[i].name) by {
        let x = kept[i];
        assert(kp(x));
        if x.source != AppSource::Manual && !names_of(scanned).contains(x.name) {
            assert(kept.contains(x));
            apps.lemma_filter_contains_rev(kp, x);
            let j = choose|j: int| 0 <= j < apps.len() && apps[j] == x;
            assert(gp(apps[j]));
            apps.lemma_filter_contains(gp, j);
            let g = choose|g: int| 0 <= g < gone.len() && gone[g] == x;
            assert(gone_names(apps, scanned)[g] == x.name);
            assert(gone_names(apps, scanned).contains(x.name));
        }
    }
}

proof fn lemma_absorb_all_settled(apps: Seq<AppView>, sc: Seq<AppView>, scanned: Seq<AppView>)
    requires
        settled(apps, scanned),
        forall|k: int| 0 <= k < sc.len() ==> names_of(scanned).contains(#[trigger] sc[k].name),
    ensures
        settled(absorb_all(apps, sc), scanned),
    decreases sc.len(),
{
    if sc.len() > 0 {
        let pre = sc.drop_last();
        assert forall|k: int| 0 <= k < pre.len() implies names_of(scanned).contains(#[trigger] pre[k].name) by {
            assert(pre[k] == sc[k]);
        }
        lemma_absorb_all_settled(apps, pre, scanned);
        let b = absorb_all(apps, pre);
        let s = sc.last();
        assert(names_of(scanned).contains(sc[sc.len() - 1].name));
        lemma_first_named(b, s.name);
        let r = absorb(b, s);
        assert forall|i: int| 0 <= i < r.len() implies #[trigger] r[i].source == AppSource::Manual
            || names_of(scanned).contains(r[i].name) by {
            if i < b.len() {
                assert(b[i].source == AppSource::Manual || names_of(scanned).contains(b[i].name));
            }
        }
    }
}

proof fn lemma_added_none(apps: Seq<AppView>, sc: Seq<AppView>)
    requires
        forall|k: int| 0 <= k < sc.len() ==> has_app_named(apps, #[trigger] sc[k].name),
    ensures
        added_count(apps, sc) == 0,
    decreases sc.len(),
{
    if sc.len() > 0 {
        let pre = sc.drop_last();
        assert forall|k: int| 0 <= k < pre.len() implies has_app_named(apps, #[trigger] pre[k].name) by {
            assert(pre[k] == sc[k]);
        }
        lemma_added_none(apps, pre);
        lemma_absorb_all_names(apps, pre);
        assert(has_app_named(apps, sc[sc.len() - 1].name));
        lemma_named_iff(absorb_all(apps, pre), sc.last().name);
    }
}

/// Merging the same scan a second time removes nothing and adds nothing.
pub proof fn lemma_merge_twice(apps: Seq<AppView>, scanned: Seq<AppView>)
    ensures
        ({
            let once = absorb_all(after_removal(apps, scanned), scanned);
            &&& gone_names(once, scanned).len() == 0
            &&& added_count(after_removal(once, scanned), scanned) == 0
        }),
{
    let base = after_removal(apps, scanned);
    let once = absorb_all(base, scanned);
    lemma_after_removal_settled(apps, scanned);
    assert forall|k: int| 0 <= k < scanned.len() implies names_of(scanned).contains(#[trigger] scanned[k].name) by {
        assert(names_of(scanned)[k] == scanned[k].name);
    }
    lemma_absorb_all_settled(base, scanned, scanned);
    lemma_absorb_all_names(base, scanned);
    let gp = |a: AppView| is_gone(a, scanned);
    let gone = once.filter(gp);
    gone.filter_lemma(gp);
    once.filter_lemma(gp);
    if gone.len() > 0 {
        let x = gone[0];
        assert(gp(x));
        assert(gone.contains(x));
        once.lemma_filter_contains_rev(gp, x);
        let j = choose|j: int| 0 <= j < once.len() && once[j] == x;
        assert(once[j].source == AppSource::Manual || names_of(scanned).contains(once[j].name));
    }
    assert(gone_names(once, scanned).len() == 0);
    let kp = |a: AppView| !gone_names(once, scanned).contains(a.name);
    let again = after_removal(once, scanned);
    assert forall|k: int| 0 <= k < scanned.len() implies has_app_named(again, #[trigger] scanned[k].name) by {
        assert(has_app_named(once, scanned[k].name));
        let i = choose|i: int| 0 <= i < once.len() && #[trigger] once[i].name == scanned[k].name;
        assert(kp(once[i]));
        once.lemma_filter_contains(kp, i);
        let t = choose|t: int| 0 <= t < again.len() && again[t] == once[i];
        assert(again[t].name == scanned[k].name);
    }
    lemma_added_none(again, scanned);
}

proof fn lemma_named_in_names(apps: Seq<AppView>, n: Seq<char>)
    ensures
        has_app_named(apps, n) <==> names_of(apps).to_set().contains(n),
{
    if has_app_named(apps, n) {
        let i = choose|i: int| 0 <= i < apps.len() && #[trigger] apps[i].name == n;
        assert(names_of(apps)[i] == n);
    }
    if names_of(apps).contains(n) {
        let i = choose|i: int| 0 <= i < names_of(apps).len() && names_of(apps)[i] == n;
        assert(apps[i].name == n);
    }
}

/// Folding in scanned applications brings in no name but theirs.
proof fn lemma_absorb_all_names_from(apps: Seq<AppView>, sc: Seq<AppView>, n: Seq<char>)
    requires
        has_app_named(absorb_all(apps, sc), n),
    ensures
        has_app_named(apps, n) || names_of(sc).contains(n),
    decreases sc.len(),
{
    if sc.len() > 0 {
        let pre = sc.drop_last();
        let y = absorb_all(apps, pre);
        let s = sc.last();
        lemma_first_named(y, s.name);
        let r = absorb(y, s);
        let i = choose|i: int| 0 <= i < r.len() && #[trigger] r[i].name == n;
        if n != s.name {
            assert(i < y.len());
            assert(y[i].name == n);
            lemma_absorb_all_names_from(apps, pre, n);
            if names_of(pre).contains(n) {
                let k = choose|k: int| 0 <= k < names_of(pre).len() && names_of(pre)[k] == n;
                assert(names_of(sc)[k] == n);
            }
        } else {
            assert(names_of(sc)[sc.len() - 1] == n);
        }
    }
}

/// With nothing new folded in, the names stay exactly as they were.
proof fn lemma_absorb_all_no_new(apps: Seq<AppView>, sc: Seq<AppView>)
    requires
        added_count(apps, sc) == 0,
    ensures
        names_of(absorb_all(apps, sc)) == names_of(apps),
    decreases sc.len(),
{
    if sc.len() > 0 {
        let pre = sc.drop_last();
        lemma_absorb_all_no_new(apps, pre);
        let y = absorb_all(apps, pre);
        let s = sc.last();
        lemma_first_named(y, s.name);
        assert(names_of(absorb(y, s)) =~= names_of(y));
    }
}

/// Some scanned application was new when folded in.
proof fn lemma_added_witness(apps: Seq<AppView>, sc: Seq<AppView>) -> (k: int)
    requires
        added_count(apps, sc) > 0,
    ensures
        0 <= k < sc.len(),
        !has_app_named(absorb_all(apps, sc.take(k)), sc[k].name),
    decreases sc.len(),
{
    let pre = sc.drop_last();
    assert(sc.take(sc.len() - 1) =~= pre);
    if first_named(absorb_all(apps, pre), sc.last().name) < 0 {
        lemma_named_iff(absorb_all(apps, pre), sc.last().name);
        sc.len() - 1
    } else {
        let k = lemma_added_witness(apps, pre);
        assert(pre.take(k) =~= sc.take(k));
        k
    }
}

proof fn lemma_filter_keeps_all(apps: Seq<AppView>, p: spec_fn(AppView) -> bool)
    requires
        forall|i: int| 0 <= i < apps.len() ==> p(#[trigger] apps[i]),
    ensures
        apps.filter(p) == apps,
    decreases apps.len(),
{
    reveal_with_fuel(Seq::<_>::filter, 1);
    if apps.len() > 0 {
        let pre = apps.drop_last();
        assert forall|i: int| 0 <= i < pre.len() implies p(#[trigger] pre[i]) by {
            assert(pre[i] == apps[i]);
        }
        lemma_filter_keeps_all(pre, p);
        assert(p(apps[apps.len() - 1]));
        assert(pre.push(apps.last()) =~= apps);
    } else {
        assert(apps.filter(p) =~= apps);
    }
}

/// A merge reports a change (`ScanDelta::any`: something added or removed)
/// exactly when the set of registered names changed; a path that follows a
/// moved shortcut is no such change.
proof fn lemma_merge_delta_any(apps: Seq<AppView>, scanned: Seq<AppView>)
    ensures
        (gone_names(apps, scanned).len() > 0 || added_count(after_removal(apps, scanned), scanned) > 0) <==> names_of(
            absorb_all(after_removal(apps, scanned), scanned),
        ).to_set() != names_of(apps).to_set(),
{
    let base = after_removal(apps, scanned);
    let fin = absorb_all(base, scanned);
    let gp = |a: AppView| is_gone(a, scanned);
    let gone = apps.filter(gp);
    let kp = |a: AppView| !gone_names(apps, scanned).contains(a.name);
    if gone_names(apps, scanned).len() > 0 {
        apps.filter_lemma(gp);
        let g = gone[0];
        assert(gp(g));
        assert(gone.contains(g));
        apps.lemma_filter_contains_rev(gp, g);
        let j = choose|j: int| 0 <= j < apps.len() && apps[j] == g;
        assert(gone_names(apps, scanned)[0] == g.name);
        assert(gone_names(apps, scanned).contains(g.name));
        lemma_named_in_names(apps, g.name);
        assert(has_app_named(apps, g.name)) by {
            assert(apps[j].name == g.name);
        }
        if has_app_named(fin, g.name) {
            lemma_absorb_all_names_from(base, scanned, g.name);
            if has_app_named(base, g.name) {
                let i = choose|i: int| 0 <= i < base.len() && #[trigger] base[i].name == g.name;
                apps.filter_lemma(kp);
                assert(kp(base[i]));
            }
        }
        lemma_named_in_names(fin, g.name);
        assert(names_of(apps).to_set().contains(g.name));
        assert(!names_of(fin).to_set().contains(g.name));
    } else {
        assert forall|i: int| 0 <= i < apps.len() implies kp(#[trigger] apps[i]) by {
            assert(gone_names(apps, scanned) =~= Seq::<Seq<char>>::empty());
        }
        lemma_filter_keeps_all(apps, kp);
        assert(base == apps);
        if added_count(base, scanned) > 0 {
            let k = lemma_added_witness(base, scanned);
            let n = scanned[k].name;
            lemma_absorb_all_names(base, scanned.take(k));
            lemma_absorb_all_names(base, scanned);
            assert(!has_app_named(base, n));
            assert(has_app_named(fin, n));
            lemma_named_in_names(base, n);
            lemma_named_in_names(fin, n);
            assert(names_of(fin).to_set().contains(n));
        } else {
            lemma_absorb_all_no_new(base, scanned);
        }
    }
}

/// After a scan merge, the delta reports a change exactly when the set of
/// application names changed: a new path for a known name is no change.
/// (`before`, `after` and `delta` are what `merge_scanned` states of a
/// registry before and after the merge and of its result.)
pub proof fn lemma_scan_delta_any(
    before: Seq<AppView>,
    scanned: Seq<AppView>,
    after: Seq<AppView>,
    delta: ScanDelta,
)
    requires
        strings_view(delta.removed_names@) == gone_names(before, scanned),
        delta.removed == delta.removed_names@.len(),
        after == absorb_all(after_removal(before, scanned), scanned),
        delta.added == added_count(after_removal(before, scanned), scanned),
    ensures
        (delta.added > 0 || delta.removed > 0) <==> names_of(after).to_set() != names_of(before).to_set(),
{
    lemma_merge_delta_any(before, scanned);
    assert(strings_view(delta.removed_names@).len() == delta.removed_names@.len());
}

} // verus!
