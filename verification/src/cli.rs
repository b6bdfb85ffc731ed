//! The command line: `register <name> <path> [-ico <icon>]`, and the control
//! commands `show`, `hide`, `toggle` and `query <text>` sent to the running
//! instance.

use vstd::prelude::*;
use crate::env::{find_char, lemma_find_char};
use crate::platform::{ipc_rest, ipc_verb};
use crate::text::{
    chars_of, extend_chars, has_text, lemma_trim_commute, lemma_trim_end_append, lemma_trim_end_prefix,
    lemma_trim_start_suffix, string_of, trim, trim_chars, trim_end, trim_start,
};

verus! {

/// Flag that introduces the icon path of `register`.
pub const ICON_FLAG: &'static str = "-ico";

pub open spec fn strs(args: Seq<String>) -> Seq<Seq<char>> {
    args.map_values(|s: String| s@)
}

/// The icon found scanning the arguments from position `i` on, `icon` so
/// far: each `-ico` takes the next argument (none when it is the last) and
/// skips it.
pub open spec fn scan_icon(args: Seq<Seq<char>>, i: int, icon: Option<Seq<char>>) -> Option<Seq<char>>
    decreases args.len() - i,
{
    if i < 0 || i >= args.len() {
        icon
    } else if args[i] == ICON_FLAG@ {
        if i + 1 < args.len() {
            scan_icon(args, i + 2, Some(args[i + 1]))
        } else {
            None
        }
    } else {
        scan_icon(args, i + 1, icon)
    }
}

/// What `parse_register_args` answers: name and path first, then the icon
/// of the last `-ico`; `None` with fewer than two arguments.
pub open spec fn spec_register_args(args: Seq<Seq<char>>) -> Option<(Seq<char>, Seq<char>, Option<Seq<char>>)> {
    if args.len() < 2 {
        None
    } else {
        Some((args[0], args[1], scan_icon(args, 2, None)))
    }
}

/// Parses the arguments of `register`: `<name> <path> [-ico <icon>]`.
pub fn parse_register_args(args: &[String]) -> (r: Option<(String, String, Option<String>)>)
    ensures
        match r {
            Some((name, path, icon)) => spec_register_args(strs(args@)) == Some(
                (
                    name@,
                    path@,
                    match icon {
                        Some(s) => Some(s@),
                        None => None,
                    },
                ),
            ),
            None => spec_register_args(strs(args@)) is None,
        },
{
    let ghost a = strs(args@);
    if args.len() < 2 {
        return None;
    }
    let name = args[0].clone();
    let path = args[1].clone();
    let mut icon: Option<String> = None;
    let mut i: usize = 2;
    proof {
        reveal_strlit("-ico");
    }
    while i < args.len()
        invariant
            a == strs(args@),
            2 <= i,
            args@.len() >= 2,
            scan_icon(a, 2, None) == scan_icon(
                a,
                i as int,
                match icon {
                    Some(s) => Some(s@),
                    None => None,
                },
            ),
        decreases args@.len() - i,
    {
        assert(a[i as int] == args@[i as int]@);
        if crate::apps::str_eq(args[i].as_str(), ICON_FLAG) {
            icon = if i + 1 < args.len() {
                assert(a[i + 1] == args@[i + 1]@);
                Some(args[i + 1].clone())
            } else {
                None
            };
            i = if i + 1 < args.len() {
                i + 2
            } else {
                i + 1
            };
        } else {
            i = i + 1;
        }
    }
    assert(a[0] == args@[0]@ && a[1] == args@[1]@);
    Some((name, path, icon))
}

/// Why a control command line was refused: the usage text to show.
#[derive(Debug, Clone, Copy, PartialEq, Eq, Structural)]
pub enum CliUsage {
    /// `query` without text.
    Query,
    /// Unknown or missing command.
    General,
}

/// Usage of `query`.
pub const QUERY_USAGE: &'static str = "用法: meowal query <搜索文本>";

/// Usage of the whole command line.
pub const GENERAL_USAGE: &'static str = "用法: meowal show | hide | toggle | query <文本> | register <名称> <路径>";

impl CliUsage {
    pub open spec fn spec_text(self) -> Seq<char> {
        match self {
            CliUsage::Query => QUERY_USAGE@,
            CliUsage::General => GENERAL_USAGE@,
        }
    }

    /// The usage text to print.
    pub fn text(self) -> (r: &'static str)
        ensures
            r@ == self.spec_text(),
    {
        match self {
            CliUsage::Query => QUERY_USAGE,
            CliUsage::General => GENERAL_USAGE,
        }
    }
}

/// `parts` joined with single spaces.
pub open spec fn join_spaces(parts: Seq<Seq<char>>) -> Seq<char>
    decreases parts.len(),
{
    if parts.len() == 0 {
        Seq::empty()
    } else if parts.len() == 1 {
        parts[0]
    } else {
        join_spaces(parts.drop_last()) + seq![' '] + parts.last()
    }
}

/// What `ipc_command_line` answers: the control line for the arguments, or
/// the usage to show.
pub open spec fn spec_ipc_command(args: Seq<Seq<char>>) -> Result<Seq<char>, CliUsage> {
    if args.len() == 0 {
        Err(CliUsage::General)
    } else if args[0] == "show"@ || args[0] == "hide"@ || args[0] == "toggle"@ {
        Ok(args[0])
    } else if args[0] == "query"@ {
        let text = join_spaces(args.skip(1));
        if trim(text).len() == 0 {
            Err(CliUsage::Query)
        } else {
            Ok("query "@ + text)
        }
    } else {
        Err(CliUsage::General)
    }
}

/// The control line to send for command-line arguments `show`, `hide`,
/// `toggle` or `query <text...>` (the text joined with spaces and not
/// blank); otherwise the usage to show.
pub fn ipc_command_line(args: &[String]) -> (r: Result<String, CliUsage>)
    ensures
        match r {
            Ok(line) => spec_ipc_command(strs(args@)) == Ok::<Seq<char>, CliUsage>(line@),
            Err(u) => spec_ipc_command(strs(args@)) == Err::<Seq<char>, CliUsage>(u),
        },
{
    let ghost a = strs(args@);
    proof {
        reveal_strlit("show");
        reveal_strlit("hide");
        reveal_strlit("toggle");
        reveal_strlit("query");
        reveal_strlit("query ");
    }
    if args.len() == 0 {
        return Err(CliUsage::General);
    }
    assert(a[0] == args@[0]@);
    let first = args[0].as_str();
    if crate::apps::str_eq(first, "show") || crate::apps::str_eq(first, "hide") || crate::apps::str_eq(
        first,
        "toggle",
    ) {
        return Ok(first.to_string());
    }
    if !crate::apps::str_eq(first, "query") {
        return Err(CliUsage::General);
    }
    let ghost rest = a.skip(1);
    let mut text: Vec<char> = Vec::new();
    for k in 1..args.len()
        invariant
            a == strs(args@),
            rest == a.skip(1),
            text@ == join_spaces(rest.take(k - 1)),
    {
        assert(rest.take(k as int).drop_last() == rest.take(k - 1));
        assert(rest.take(k as int).last() == args@[k as int]@);
        if k > 1 {
            text.push(' ');
        } else {
            assert(rest.take(1) == seq![args@[1]@]);
        }
        let pv = chars_of(args[k].as_str());
        extend_chars(&mut text, &pv);
    }
    assert(rest.take(rest.len() as int) == rest);
    let t = trim_chars(&text);
    if t.len() == 0 {
        return Err(CliUsage::Query);
    }
    let mut line = chars_of("query ");
    extend_chars(&mut line, &text);
    Ok(string_of(&line))
}

proof fn lemma_trim_has_text(s: Seq<char>)
    requires
        trim(s).len() > 0,
    ensures
        has_text(s),
{
    let ts = trim_start(s);
    lemma_trim_start_suffix(s);
    lemma_trim_end_prefix(ts);
    let t = trim(s);
    let k = t.len() - 1;
    assert(t[k] == ts[k]);
    assert(ts[k] == s[s.len() - ts.len() + k]);
    assert(!crate::text::spec_is_whitespace(s[s.len() - ts.len() + k]));
}

/// A word without whitespace or spaces reads back as the command word of a
/// control line.
proof fn lemma_word_line(w: Seq<char>)
    requires
        w.len() > 0,
        forall|i: int| 0 <= i < w.len() ==> 'a' <= #[trigger] w[i] <= 'z',
    ensures
        ipc_verb(w) == w,
{
    assert(trim_start(w) == w);
    assert(trim_end(w) == w) by {
        assert(w.last() == w[w.len() - 1]);
    }
    lemma_find_char(w, ' ');
    if find_char(w, ' ') >= 0 {
        assert(w[find_char(w, ' ')] == ' ');
    }
}

/// A control line built from command-line arguments is read back by the
/// running instance as the command the arguments name: `show`, `hide` and
/// `toggle` as themselves, `query` with its text trimmed (never empty).
pub proof fn lemma_control_line_read_back(args: Seq<Seq<char>>)
    ensures
        spec_ipc_command(args) matches Ok(line) ==> if args[0] == "query"@ {
            &&& ipc_verb(line) == "query"@
            &&& ipc_rest(line) == trim(join_spaces(args.skip(1)))
            &&& ipc_rest(line).len() > 0
        } else {
            ipc_verb(line) == args[0]
        },
{
    reveal_strlit("show");
    reveal_strlit("hide");
    reveal_strlit("toggle");
    reveal_strlit("query");
    reveal_strlit("query ");
    if let Ok(line) = spec_ipc_command(args) {
        if args[0] == "query"@ {
            let text = join_spaces(args.skip(1));
            let p = "query "@;
            assert(line == p + text);
            lemma_trim_has_text(text);
            lemma_trim_end_append(p, text);
            assert(line[0] == 'q');
            assert(trim_start(line) == line);
            let te = trim_end(text);
            let tl = p + te;
            assert(trim(line) == tl);
            lemma_find_char(tl, ' ');
            assert(tl[5] == ' ');
            assert(tl[0] == 'q' && tl[1] == 'u' && tl[2] == 'e' && tl[3] == 'r' && tl[4] == 'y');
            assert(find_char(tl, ' ') == 5);
            assert(tl.take(5) =~= "query"@);
            assert(tl.skip(6) =~= te);
            lemma_trim_commute(text);
            let y = trim_start(text);
            lemma_trim_end_prefix(y);
            let z = trim_end(y);
            if z.len() > 0 {
                assert(z.last() == z[z.len() - 1]);
                assert(trim_end(z) == z);
            } else {
                assert(z =~= Seq::<char>::empty());
            }
            assert(ipc_rest(line) == trim(te));
        } else {
            assert(line == args[0]);
            if args[0] == "show"@ {
                lemma_word_line("show"@);
            } else if args[0] == "hide"@ {
                lemma_word_line("hide"@);
            } else {
                lemma_word_line("toggle"@);
            }
        }
    }
}

} // verus!
