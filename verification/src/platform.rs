//! Platform-neutral types shared with the windowing layer, and the text
//! protocol of the command-line control channel.

use vstd::prelude::*;
use crate::text::{chars_eq, chars_of, slice_chars, string_of, trim, trim_chars};
use crate::env::find_char;

verus! {

/// Extracted icon pixels (BGRA, top-down).
#[derive(Debug, Clone)]
pub struct IconPixels {
    pub width: u32,
    pub height: u32,
    pub bgra: Vec<u8>,
}

/// Window geometry in physical pixels.
#[derive(Debug, Clone, Copy)]
pub struct WindowSpec {
    pub x: i32,
    pub y: i32,
    pub width: i32,
    pub height: i32,
}

/// Opaque native window handle (the handle as an integer, so it is `Copy`
/// and can cross threads).
#[derive(Debug, Clone, Copy, PartialEq, Eq, Hash)]
pub struct PlatformWindow {
    hwnd: usize,
}

impl PlatformWindow {
    /// Wraps a native handle.
    pub fn from_hwnd(hwnd: usize) -> (r: PlatformWindow)
        ensures
            r.raw() == hwnd,
    {
        PlatformWindow { hwnd }
    }

    pub closed spec fn raw(&self) -> usize {
        self.hwnd
    }

    /// The native handle.
    pub fn hwnd(&self) -> (r: usize)
        ensures
            r == self.raw(),
    {
        self.hwnd
    }
}

/// Tray icon token (one tray per process).
#[derive(Debug, Clone, Copy, PartialEq, Eq, Hash)]
pub struct TrayHandle;

/// A tray menu entry.
#[derive(Debug, Clone)]
pub struct TrayMenuItem {
    pub label: String,
    pub enabled: bool,
}

/// Navigation keys.
#[derive(Debug, Clone, Copy, PartialEq, Eq, Structural)]
pub enum Key {
    Up,
    Down,
    Left,
    Right,
    Enter,
    Escape,
    Backspace,
    Tab,
    Home,
    End,
    PageUp,
    PageDown,
    Delete,
}

/// Modifier keys.
#[derive(Debug, Clone, Copy, PartialEq, Eq, Structural)]
pub enum Modifier {
    Shift,
    Ctrl,
    Alt,
    Win,
}

/// Tray events.
#[derive(Debug, Clone, Copy, PartialEq, Eq, Structural)]
pub enum TrayEvent {
    /// Left click on the icon (toggle the launcher).
    LeftClick,
    /// Menu entry chosen (index).
    Menu(usize),
}

/// Receiver of tray events (implemented by the application layer).
pub trait TrayHandler {
    fn on_event(&mut self, event: TrayEvent);
}

/// Built-in system commands (a fixed set: no arbitrary input is run).
#[derive(Debug, Clone, Copy, PartialEq, Eq, Structural)]
pub enum SystemCommandKind {
    Lock,
    Sleep,
    Shutdown,
    Restart,
}

impl SystemCommandKind {
    pub open spec fn spec_title(self) -> Seq<char> {
        match self {
            Self::Lock => "锁屏"@,
            Self::Sleep => "睡眠"@,
            Self::Shutdown => "关机"@,
            Self::Restart => "重启"@,
        }
    }

    /// The name shown in results and in the settings window.
    pub fn title(self) -> (r: &'static str)
        ensures
            r@ == self.spec_title(),
    {
        match self {
            Self::Lock => "锁屏",
            Self::Sleep => "睡眠",
            Self::Shutdown => "关机",
            Self::Restart => "重启",
        }
    }
}

/// Named pipe of the control channel (server: the running instance; client:
/// the command line).
pub const IPC_PIPE_NAME: &'static str = "\\\\.\\pipe\\meow-app-launcher";

/// Reply to an unknown command (shared with the command-line help).
pub const IPC_USAGE_HINT: &'static str = "err 未知命令喵 (可用: show / hide / toggle / query <文本>)";

/// Reply to a command that was accepted and queued.
pub const IPC_OK_REPLY: &'static str = "ok 已投递喵";

/// The reply the running instance sends for a received line, given what it
/// parsed: accepted, or the usage hint.
pub fn ipc_reply(parsed: &Option<IpcCommand>) -> (r: &'static str)
    ensures
        r@ == (if parsed is Some {
            IPC_OK_REPLY@
        } else {
            IPC_USAGE_HINT@
        }),
{
    match parsed {
        Some(_) => IPC_OK_REPLY,
        None => IPC_USAGE_HINT,
    }
}

/// A control-channel command (one UTF-8 line each).
#[derive(Debug, Clone, PartialEq, Eq)]
pub enum IpcCommand {
    /// Show the search box.
    Show,
    /// Hide the search box.
    Hide,
    /// Toggle the search box.
    Toggle,
    /// Show the search box with this query.
    Query(String),
}

/// The command word of a line: up to the first space of the trimmed line.
pub open spec fn ipc_verb(line: Seq<char>) -> Seq<char> {
    let t = trim(line);
    let i = find_char(t, ' ');
    if i >= 0 {
        t.take(i)
    } else {
        t
    }
}

/// The argument of a line: after the first space, trimmed.
pub open spec fn ipc_rest(line: Seq<char>) -> Seq<char> {
    let t = trim(line);
    let i = find_char(t, ' ');
    if i >= 0 {
        trim(t.skip(i + 1))
    } else {
        seq![]
    }
}

/// Parses one command line: `show`, `hide`, `toggle` or `query <text>`.
pub fn parse_ipc_command(line: &str) -> (r: Option<IpcCommand>)
    ensures
        match r {
            Some(IpcCommand::Show) => ipc_verb(line@) == "show"@,
            Some(IpcCommand::Hide) => ipc_verb(line@) == "hide"@,
            Some(IpcCommand::Toggle) => ipc_verb(line@) == "toggle"@,
            Some(IpcCommand::Query(q)) => ipc_verb(line@) == "query"@ && q@ == ipc_rest(line@) && q@.len() > 0,
            None => ipc_verb(line@) != "show"@ && ipc_verb(line@) != "hide"@ && ipc_verb(line@) != "toggle"@
                && !(ipc_verb(line@) == "query"@ && ipc_rest(line@).len() > 0),
        },
{
    let v = chars_of(line);
    let t = trim_chars(&v);
    let (verb, rest) = match crate::env::find_char_in(&t, ' ') {
        Some(i) => {
            assert(i < t.len());
            let after = slice_chars(&t, i + 1, t.len());
            (slice_chars(&t, 0, i), trim_chars(&after))
        },
        None => (slice_chars(&t, 0, t.len()), Vec::new()),
    };
    proof {
        assert(t@.subrange(0, t@.len() as int) == t@);
        assert(t@.subrange(0, 0) == t@.take(0));
    }
    let show = chars_of("show");
    let hide = chars_of("hide");
    let toggle = chars_of("toggle");
    let query = chars_of("query");
    if chars_eq(&verb, &show) {
        Some(IpcCommand::Show)
    } else if chars_eq(&verb, &hide) {
        Some(IpcCommand::Hide)
    } else if chars_eq(&verb, &toggle) {
        Some(IpcCommand::Toggle)
    } else if chars_eq(&verb, &query) && rest.len() > 0 {
        Some(IpcCommand::Query(string_of(&rest)))
    } else {
        None
    }
}

} // verus!
