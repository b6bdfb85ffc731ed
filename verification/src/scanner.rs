//! What a scan of the Start menu keeps: the shortcuts (`.lnk`) found in its
//! folders, named after the file, skipping uninstaller folders and system
//! leftovers. Walking the folders is done by the caller.

use vstd::prelude::*;
use crate::apps::{AppInfo, AppSource, AppView};
use crate::text::{
    chars_of, contains, lower_chars, lower_seq, seq_contains, slice_chars, spec_to_lowercase,
    string_of, to_lowercase,
};

verus! {

/// Folders whose (lower-cased) name holds this are not scanned.
pub const UNINSTALL_MARK: &'static str = "uninstall";

/// Extension of the shortcuts collected.
pub const SHORTCUT_EXT: &'static str = "lnk";

/// Name of a shortcut whose file name cannot be read.
pub const UNNAMED_APP: &'static str = "未命名应用";

/// A folder is skipped when its lower-cased name holds `uninstall`.
pub fn skip_scan_dir(dir_name: &str) -> (r: bool)
    ensures
        r == seq_contains(spec_to_lowercase(dir_name@), UNINSTALL_MARK@),
{
    let lower = to_lowercase(dir_name);
    let lv = chars_of(lower.as_str());
    let m = chars_of(UNINSTALL_MARK);
    contains(&lv, &m)
}

/// Position of the last `.` in `s`, or -1.
pub open spec fn last_dot(s: Seq<char>) -> int
    decreases s.len(),
{
    if s.len() == 0 {
        -1
    } else if s.last() == '.' {
        s.len() - 1
    } else {
        last_dot(s.drop_last())
    }
}

/// The file name has an extension (std `Path::extension`): a `.` that is not
/// its first character alone.
pub open spec fn has_ext(name: Seq<char>) -> bool {
    last_dot(name) > 0
}

/// std `Path::extension` of a file name: the text after the last `.`.
pub open spec fn spec_extension(name: Seq<char>) -> Option<Seq<char>> {
    if has_ext(name) {
        Some(name.skip(last_dot(name) + 1))
    } else {
        None
    }
}

/// std `Path::file_stem` of a file name: the text before the last `.`, or
/// the whole name when it has no extension.
pub open spec fn spec_stem(name: Seq<char>) -> Seq<char> {
    if has_ext(name) {
        name.take(last_dot(name))
    } else {
        name
    }
}

/// The application a scanned file stands for: a `.lnk` shortcut, named
/// after its stem, unless the stem is empty, starts with `.` or is
/// `desktop.ini` (in any ASCII case).
pub open spec fn spec_shortcut(file_name: Seq<char>, path: Seq<char>) -> Option<AppView> {
    let stem = spec_stem(file_name);
    if spec_extension(file_name) != Some(SHORTCUT_EXT@) {
        None
    } else if stem.len() == 0 || lower_seq(stem) == "desktop.ini"@ || stem[0] == '.' {
        None
    } else {
        Some(
            AppView {
                name: stem,
                path,
                icon_path: None,
                tags: Seq::empty(),
                favorite: false,
                launch_count: 0,
                last_used: 0,
                source: AppSource::Scanned,
            },
        )
    }
}

fn last_dot_exec(v: &[char]) -> (r: Option<usize>)
    ensures
        match r {
            Some(i) => i as int == last_dot(v@) && i < v@.len(),
            None => last_dot(v@) == -1,
        },
{
    let mut i: usize = v.len();
    assert(v@.take(v@.len() as int) == v@);
    while i > 0
        invariant
            i <= v@.len(),
            last_dot(v@) == last_dot(v@.take(i as int)),
        decreases i,
    {
        assert(v@.take(i as int).drop_last() == v@.take(i - 1));
        if v[i - 1] == '.' {
            return Some(i - 1);
        }
        i = i - 1;
    }
    assert(v@.take(0) == Seq::<char>::empty());
    None
}

/// The registry entry for a file met while scanning (`file_name` is its
/// name, `path` its full path), or `None` when the file is not kept.
pub fn shortcut_entry(file_name: &str, path: &str) -> (r: Option<AppInfo>)
    ensures
        match r {
            Some(a) => spec_shortcut(file_name@, path@) == Some(a@),
            None => spec_shortcut(file_name@, path@) is None,
        },
{
    proof {
        reveal_strlit("lnk");
        reveal_strlit("desktop.ini");
    }
    let v = chars_of(file_name);
    let n = v.len();
    let found = last_dot_exec(&v);
    let dot = match found {
        Some(d) => d,
        None => {
            return None;
        },
    };
    assert(dot < v@.len());
    if dot == 0 {
        return None;
    }
    let ext = slice_chars(&v, dot + 1, n);
    let lnk = chars_of(SHORTCUT_EXT);
    assert(ext@ == v@.skip(dot + 1));
    if !crate::text::chars_eq(&ext, &lnk) {
        return None;
    }
    let stem = slice_chars(&v, 0, dot);
    assert(stem@ == v@.take(dot as int));
    if stem.len() == 0 {
        return None;
    }
    let low = lower_chars(&stem);
    let di = chars_of("desktop.ini");
    if crate::text::chars_eq(&low, &di) || stem[0] == '.' {
        return None;
    }
    let app = AppInfo {
        name: string_of(&stem),
        path: path.to_string(),
        icon_path: None,
        tags: Vec::new(),
        favorite: false,
        launch_count: 0,
        last_used: 0,
        source: AppSource::Scanned,
    };
    assert(app@.tags =~= Seq::<Seq<char>>::empty());
    Some(app)
}

} // verus!
