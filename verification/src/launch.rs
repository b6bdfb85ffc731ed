//! Launch details decided before the shell is asked: the command line of a
//! custom browser for a link, and the cut of a command's output for display.

use vstd::prelude::*;
use crate::env::{find_char, find_char_in};
use crate::hotkey::{split_chars, split_on};
use crate::text::{chars_of, chars_eq, extend_chars, lower_chars, lower_seq, slice_chars, string_of, trim, trim_chars};

verus! {

/// Most characters of command output shown.
pub const SHELL_OUTPUT_LIMIT: usize = 400;

/// `s` with every `%1` replaced by `url`, left to right (std `str::replace`).
pub open spec fn replace_placeholder(s: Seq<char>, url: Seq<char>) -> Seq<char>
    decreases s.len(),
{
    if s.len() == 0 {
        Seq::empty()
    } else if s.len() >= 2 && s[0] == '%' && s[1] == '1' {
        url + replace_placeholder(s.skip(2), url)
    } else {
        seq![s[0]] + replace_placeholder(s.skip(1), url)
    }
}

/// `s` holds the placeholder `%1`.
pub open spec fn has_placeholder(s: Seq<char>) -> bool {
    exists|i: int| 0 <= i < s.len() - 1 && s[i] == '%' && #[trigger] s[i + 1] == '1'
}

/// The executable and the arguments of a browser setting: a quoted path
/// followed by arguments, else everything up to the first space and the
/// rest, else the whole setting.
pub open spec fn split_browser(b: Seq<char>) -> (Seq<char>, Seq<char>) {
    let rest = b.skip(1);
    if b.len() > 0 && b[0] == '"' && find_char(rest, '"') >= 0 {
        let end = find_char(rest, '"');
        (rest.take(end), trim(rest.skip(end + 1)))
    } else if find_char(b, ' ') >= 0 {
        let sp = find_char(b, ' ');
        (b.take(sp), trim(b.skip(sp + 1)))
    } else {
        (b, Seq::empty())
    }
}

/// The arguments with the link put in: in place of every `%1`, else as the
/// only argument, else after the others and a space.
pub open spec fn with_url(params: Seq<char>, url: Seq<char>) -> Seq<char> {
    if has_placeholder(params) {
        replace_placeholder(params, url)
    } else if params.len() == 0 {
        url
    } else {
        params + seq![' '] + url
    }
}

/// What `browser_command` answers: nothing for an empty (trimmed) setting,
/// which means the system's default browser; otherwise the executable and
/// its arguments with the link.
pub open spec fn spec_browser_command(url: Seq<char>, browser: Seq<char>) -> Option<(Seq<char>, Seq<char>)> {
    let b = trim(browser);
    if b.len() == 0 {
        None
    } else {
        let (exe, params) = split_browser(b);
        Some((exe, with_url(params, url)))
    }
}

fn replace_exec(s: &[char], url: &[char]) -> (r: Vec<char>)
    ensures
        r@ == replace_placeholder(s@, url@),
{
    let mut out: Vec<char> = Vec::new();
    let mut i: usize = 0;
    assert(s@.skip(0) == s@);
    while i < s.len()
        invariant
            i <= s@.len(),
            out@ + replace_placeholder(s@.skip(i as int), url@) == replace_placeholder(s@, url@),
        decreases s@.len() - i,
    {
        let ghost rest = s@.skip(i as int);
        assert(rest[0] == s@[i as int]);
        if i + 1 < s.len() && s[i] == '%' && s[i + 1] == '1' {
            assert(rest[1] == s@[i + 1]);
            assert(rest.skip(2) == s@.skip(i + 2));
            let ghost before = out@;
            extend_chars(&mut out, url);
            assert(before + (url@ + replace_placeholder(rest.skip(2), url@)) == out@ + replace_placeholder(
                s@.skip(i + 2),
                url@,
            ));
            i = i + 2;
        } else {
            assert(rest.skip(1) == s@.skip(i + 1));
            let ghost before = out@;
            out.push(s[i]);
            assert(before + (seq![s@[i as int]] + replace_placeholder(rest.skip(1), url@)) == out@
                + replace_placeholder(s@.skip(i + 1), url@));
            i = i + 1;
        }
    }
    assert(out@ + Seq::<char>::empty() == out@);
    out
}

fn has_placeholder_exec(s: &[char]) -> (r: bool)
    ensures
        r == has_placeholder(s@),
{
    let mut i: usize = 0;
    while i < s.len() && i + 1 < s.len()
        invariant
            i <= s@.len(),
            forall|k: int| 0 <= k < i && k < s@.len() - 1 ==> !(s@[k] == '%' && #[trigger] s@[k + 1] == '1'),
        decreases s@.len() - i,
    {
        if s[i] == '%' && s[i + 1] == '1' {
            return true;
        }
        i = i + 1;
    }
    false
}

/// The command line that opens `url` in the browser configured as `browser`
/// (a path, optionally quoted, then arguments where `%1` marks the link);
/// `None` when no browser is configured and the system default applies.
pub fn browser_command(url: &str, browser: &str) -> (r: Option<(String, String)>)
    ensures
        match r {
            Some((exe, params)) => spec_browser_command(url@, browser@) == Some((exe@, params@)),
            None => spec_browser_command(url@, browser@) is None,
        },
{
    let bv = chars_of(browser);
    let b = trim_chars(&bv);
    if b.len() == 0 {
        return None;
    }
    let ghost bs = b@;
    let rest = slice_chars(&b, 1, b.len());
    assert(rest@ == bs.skip(1));
    let quoted = if b[0] == '"' {
        find_char_in(&rest, '"')
    } else {
        None
    };
    proof {
        crate::env::lemma_find_char(rest@, '"');
        crate::env::lemma_find_char(bs, ' ');
    }
    let (exe, params): (Vec<char>, Vec<char>) = match quoted {
        Some(end) => {
            let e = slice_chars(&rest, 0, end);
            let after = slice_chars(&rest, end + 1, rest.len());
            assert(e@ == rest@.take(end as int));
            assert(after@ == rest@.skip(end + 1));
            (e, trim_chars(&after))
        },
        None => match find_char_in(&b, ' ') {
            Some(sp) => {
                let e = slice_chars(&b, 0, sp);
                let after = slice_chars(&b, sp + 1, b.len());
                assert(e@ == bs.take(sp as int));
                assert(after@ == bs.skip(sp + 1));
                (e, trim_chars(&after))
            },
            None => (b, Vec::new()),
        },
    };
    assert((exe@, params@) == split_browser(bs));
    let uv = chars_of(url);
    let full = if has_placeholder_exec(&params) {
        replace_exec(&params, &uv)
    } else if params.len() == 0 {
        uv
    } else {
        let mut p = params;
        p.push(' ');
        extend_chars(&mut p, &uv);
        p
    };
    assert(full@ == with_url(split_browser(bs).1, url@));
    Some((string_of(&exe), string_of(&full)))
}

/// Output cut to the display limit, an ellipsis marking a cut.
pub open spec fn spec_truncate(text: Seq<char>) -> Seq<char> {
    if text.len() <= SHELL_OUTPUT_LIMIT {
        text
    } else {
        text.take(SHELL_OUTPUT_LIMIT as int).push('…')
    }
}

/// Cuts command output to `SHELL_OUTPUT_LIMIT` characters, appending `…`
/// when it was longer.
pub fn truncate_output(text: &str) -> (r: String)
    ensures
        r@ == spec_truncate(text@),
{
    let v = chars_of(text);
    if v.len() <= SHELL_OUTPUT_LIMIT {
        return string_of(&v);
    }
    let mut head = slice_chars(&v, 0, SHELL_OUTPUT_LIMIT);
    head.push('…');
    string_of(&head)
}

/// The command the `Run` registry value holds to start the launcher with
/// the session: the executable's path in double quotes.
pub fn run_key_command(exe: &str) -> (r: String)
    ensures
        r@ == seq!['"'] + exe@ + seq!['"'],
{
    let mut v: Vec<char> = Vec::new();
    v.push('"');
    let e = chars_of(exe);
    extend_chars(&mut v, &e);
    v.push('"');
    assert(v@ =~= seq!['"'] + exe@ + seq!['"']);
    string_of(&v)
}

/// The system error code of a missing registry value (`ERROR_FILE_NOT_FOUND`).
pub const ERROR_FILE_NOT_FOUND: u32 = 2;

/// Whether changing the start-with-the-session setting succeeded, given the
/// status code of the registry call (0 for success): writing the value must
/// succeed; deleting it also succeeds when the value was not there, so that
/// switching off twice is harmless.
pub fn auto_start_applied(enabled: bool, status: u32) -> (r: bool)
    ensures
        r == (status == 0 || (!enabled && status == ERROR_FILE_NOT_FOUND)),
{
    if status == 0 {
        true
    } else if enabled {
        false
    } else {
        status == ERROR_FILE_NOT_FOUND
    }
}

/// `existing` (a `;`-separated `PATH`) already lists `dir`, compared in any
/// ASCII case.
pub open spec fn path_lists(existing: Seq<char>, dir: Seq<char>) -> bool {
    exists|k: int|
        0 <= k < split_on(existing, ';').len() && lower_seq(#[trigger] split_on(existing, ';')[k]) == lower_seq(dir)
}

/// What `path_with_dir` answers: `None` when the directory is listed already,
/// else the `PATH` with it appended (after a `;` unless the value is empty or
/// already ends with one).
pub open spec fn spec_path_with_dir(existing: Seq<char>, dir: Seq<char>) -> Option<Seq<char>> {
    if path_lists(existing, dir) {
        None
    } else if existing.len() > 0 && existing.last() != ';' {
        Some(existing + seq![';'] + dir)
    } else {
        Some(existing + dir)
    }
}

/// The user `PATH` value with the launcher's directory added so that its
/// command line can be run from any console; `None` when it is there
/// already.
pub fn path_with_dir(existing: &str, dir: &str) -> (r: Option<String>)
    ensures
        match r {
            Some(p) => spec_path_with_dir(existing@, dir@) == Some(p@),
            None => spec_path_with_dir(existing@, dir@) is None,
        },
{
    let ev = chars_of(existing);
    let dv = chars_of(dir);
    let dl = lower_chars(&dv);
    let parts = split_chars(&ev, ';');
    let ghost sp = split_on(existing@, ';');
    for k in 0..parts.len()
        invariant
            ev@ == existing@,
            dl@ == lower_seq(dir@),
            sp == split_on(existing@, ';'),
            parts@.len() == sp.len(),
            forall|i: int| 0 <= i < parts@.len() ==> (#[trigger] parts@[i])@ == sp[i],
            forall|i: int| 0 <= i < k ==> lower_seq(#[trigger] sp[i]) != lower_seq(dir@),
    {
        let pl = lower_chars(&parts[k]);
        if chars_eq(&pl, &dl) {
            assert(lower_seq(sp[k as int]) == lower_seq(dir@));
            return None;
        }
    }
    let mut v = ev;
    if v.len() > 0 && v[v.len() - 1] != ';' {
        v.push(';');
    }
    extend_chars(&mut v, &dv);
    Some(string_of(&v))
}

} // verus!
