use meow_app_launcher::edits::{record_chord, ChordOutcome};
use meow_app_launcher::calc::{has_operator, op_spec, to_rpn, tokenize, CalcToken};
use meow_app_launcher::cli::{ipc_command_line, parse_register_args, CliUsage};
use meow_app_launcher::hotkey::{map_key, modifier_chord, parse_hotkey, parse_u32, vk_name};
use meow_app_launcher::platform::{ipc_reply, parse_ipc_command, IpcCommand, Key, IPC_USAGE_HINT};
use meow_app_launcher::svg::{attr, element_style, numbers, parse_element, parse_svg, IconStyle, ShapeKind};

fn num(s: &str) -> CalcToken {
    CalcToken::Num(s.to_string())
}

#[test]
fn tokenize_arithmetic() {
    let t = tokenize(" 1 + 2.5*(3) ").unwrap();
    assert_eq!(
        t,
        vec![num("1"), CalcToken::Op('+'), num("2.5"), CalcToken::Op('*'), CalcToken::LParen, num("3"), CalcToken::RParen]
    );
    assert_eq!(tokenize(".5").unwrap(), vec![num(".5")]);
    assert!(tokenize("1..2").is_none());
    assert!(tokenize("1.2.3").is_none());
    assert!(tokenize(".").is_none());
    assert!(tokenize("1 + x").is_none());
    assert!(tokenize("").is_none());
    assert!(tokenize("  \t ").is_none());
}

#[test]
fn rpn_respects_precedence() {
    let rpn = to_rpn(tokenize("1 + 2 * 3").unwrap()).unwrap();
    assert_eq!(rpn, vec![num("1"), num("2"), num("3"), CalcToken::Op('*'), CalcToken::Op('+')]);
    let right = to_rpn(tokenize("2 ^ 3 ^ 2").unwrap()).unwrap();
    assert_eq!(right, vec![num("2"), num("3"), num("2"), CalcToken::Op('^'), CalcToken::Op('^')]);
    let left = to_rpn(tokenize("8 - 3 - 1").unwrap()).unwrap();
    assert_eq!(left, vec![num("8"), num("3"), CalcToken::Op('-'), num("1"), CalcToken::Op('-')]);
}

#[test]
fn rpn_unary_minus() {
    let neg = to_rpn(tokenize("-(2^3)^2").unwrap()).unwrap();
    assert_eq!(
        neg,
        vec![num("2"), num("3"), CalcToken::Op('^'), CalcToken::Op('n'), num("2"), CalcToken::Op('^')]
    );
    let inner = to_rpn(tokenize("3*-2").unwrap()).unwrap();
    assert_eq!(inner, vec![num("3"), num("2"), CalcToken::Op('n'), CalcToken::Op('*')]);
}

#[test]
fn rpn_rejects_unbalanced() {
    assert!(to_rpn(tokenize("(1 + 2").unwrap()).is_none());
    assert!(to_rpn(tokenize("1 + 2)").unwrap()).is_none());
    assert!(to_rpn(tokenize("()").unwrap()).is_none());
    assert!(to_rpn(vec![CalcToken::Op('&')]).is_none());
}

#[test]
fn operator_presence() {
    assert!(!has_operator(&tokenize("(42)").unwrap()));
    assert!(has_operator(&tokenize("4-2").unwrap()));
    assert_eq!(op_spec('^'), Some((3, true)));
    assert_eq!(op_spec('%'), Some((2, false)));
    assert_eq!(op_spec('x'), None);
}

#[test]
fn hotkey_parsing() {
    assert_eq!(parse_hotkey("ctrl+alt", "space"), Some((0x0003, 0x20)));
    assert_eq!(parse_hotkey("Ctrl + Shift", " F12 "), Some((0x0006, 0x7B)));
    assert_eq!(parse_hotkey("win", "A"), Some((0x0008, 0x41)));
    assert_eq!(parse_hotkey("", "`"), Some((0, 0xC0)));
    assert_eq!(parse_hotkey("alt+", "5"), Some((0x0001, 0x35)));
    assert_eq!(parse_hotkey("control+meta+super", "esc"), Some((0x000A, 0x1B)));
    assert_eq!(parse_hotkey("hyper", "a"), None);
    assert_eq!(parse_hotkey("ctrl", "f25"), None);
    assert_eq!(parse_hotkey("ctrl", "f0"), None);
    assert_eq!(parse_hotkey("ctrl", "fx"), None);
    assert_eq!(parse_hotkey("ctrl", "é"), None);
    assert_eq!(parse_hotkey("ctrl", "f+3"), Some((0x0002, 0x72)));
}

#[test]
fn key_names_read_back() {
    assert_eq!(vk_name(0x41).as_deref(), Some("a"));
    assert_eq!(vk_name(0x35).as_deref(), Some("5"));
    assert_eq!(vk_name(0x7B).as_deref(), Some("f12"));
    assert_eq!(vk_name(0x20).as_deref(), Some("space"));
    assert_eq!(vk_name(0xC0).as_deref(), Some("tilde"));
    assert_eq!(vk_name(0x10), None);
    for vk in 0u16..=0xFF {
        if let Some(name) = vk_name(vk) {
            assert_eq!(parse_hotkey("", &name), Some((0, vk as u32)), "{name}");
        }
    }
    assert_eq!(map_key(0x26), Some(Key::Up));
    assert_eq!(map_key(0x22), Some(Key::PageDown));
    assert_eq!(map_key(0x41), None);
}

#[test]
fn decimal_parsing_like_std() {
    let p = |s: &str| parse_u32(&s.chars().collect::<Vec<char>>());
    assert_eq!(p("+12"), Some(12));
    assert_eq!(p("4294967295"), Some(u32::MAX));
    assert_eq!(p("4294967296"), None);
    assert_eq!(p(""), None);
    assert_eq!(p("+"), None);
    assert_eq!(p("12a"), None);
    assert_eq!(p("007"), Some(7));
}

#[test]
fn ipc_lines() {
    assert_eq!(parse_ipc_command(" show "), Some(IpcCommand::Show));
    assert_eq!(parse_ipc_command("query  hello world "), Some(IpcCommand::Query("hello world".to_string())));
    assert_eq!(parse_ipc_command("query"), None);
    assert_eq!(parse_ipc_command("shout"), None);
}

fn args(v: &[&str]) -> Vec<String> {
    v.iter().map(|s| s.to_string()).collect()
}

#[test]
fn register_arguments() {
    assert_eq!(
        parse_register_args(&args(&["微信", "C:/wx.exe"])),
        Some(("微信".to_string(), "C:/wx.exe".to_string(), None))
    );
    assert_eq!(
        parse_register_args(&args(&["a", "b", "-ico", "i.png"])),
        Some(("a".to_string(), "b".to_string(), Some("i.png".to_string())))
    );
    assert_eq!(parse_register_args(&args(&["a", "b", "-ico"])), Some(("a".to_string(), "b".to_string(), None)));
    assert_eq!(
        parse_register_args(&args(&["a", "b", "-ico", "x", "extra", "-ico", "y"])),
        Some(("a".to_string(), "b".to_string(), Some("y".to_string())))
    );
    assert_eq!(parse_register_args(&args(&["a"])), None);
}

#[test]
fn control_command_lines() {
    assert_eq!(ipc_command_line(&args(&["show"])), Ok("show".to_string()));
    assert_eq!(ipc_command_line(&args(&["query", "hello", "world"])), Ok("query hello world".to_string()));
    assert_eq!(ipc_command_line(&args(&["query", " "])), Err(CliUsage::Query));
    assert_eq!(ipc_command_line(&args(&[])), Err(CliUsage::General));
    assert_eq!(ipc_command_line(&args(&["register"])), Err(CliUsage::General));
    assert!(CliUsage::Query.text().contains("query"));
}

#[test]
fn svg_styles_and_attributes() {
    assert_eq!(element_style("path stroke=\"currentcolor\" d=\"m0 0\""), IconStyle::Stroke);
    assert_eq!(element_style("circle fill=\"currentcolor\" r=\"2\""), IconStyle::Fill);
    assert_eq!(element_style("rect stroke=\"none\" fill=\"#000\""), IconStyle::Fill);
    assert_eq!(element_style("rect style=\"fill:none\""), IconStyle::Stroke);
    assert_eq!(element_style("line x1=\"0\""), IconStyle::Stroke);
    let t = "circle cx=\"12\" cy='8' r=\" 3 \"";
    assert_eq!(attr(t, "r").as_deref(), Some("3"));
    assert_eq!(attr(t, "cx").as_deref(), Some("12"));
    assert_eq!(attr(t, "cy").as_deref(), Some("8"));
    assert_eq!(attr(t, "z"), None);
    assert_eq!(attr("path d=x d=\"M1\"", "d").as_deref(), Some("M1"));
    assert_eq!(attr("path d=\"unclosed", "d"), None);
}

fn strs(v: &[&str]) -> Vec<String> {
    v.iter().map(|s| s.to_string()).collect()
}

#[test]
fn svg_number_lists() {
    assert_eq!(numbers("0 0 24 24"), strs(&["0", "0", "24", "24"]));
    assert_eq!(numbers("10,20 -5.5e2 3-4"), strs(&["10", "20", "-5.5e2", "3", "-4"]));
    assert_eq!(numbers("1+2"), strs(&["1", "+2"]));
    assert_eq!(numbers(""), Vec::<String>::new());
    assert_eq!(numbers(" , "), Vec::<String>::new());
}

#[test]
fn svg_elements() {
    assert_eq!(
        parse_element("<path d=\" M1 2L3 4 \" stroke=\"currentColor\"/>"),
        Some((IconStyle::Stroke, ShapeKind::Path("M1 2L3 4".to_string())))
    );
    assert_eq!(parse_element("<path d=\"  \"/>"), None);
    assert_eq!(
        parse_element("<circle cx=\"12\" cy=\"8\" r=\"3\" fill=\"currentColor\"/>"),
        Some((
            IconStyle::Fill,
            ShapeKind::Circle { cx: "12".to_string(), cy: "8".to_string(), r: "3".to_string() }
        ))
    );
    assert_eq!(parse_element("<circle cx=\"12\" cy=\"8\"/>"), None);
    assert_eq!(
        parse_element("<rect x=\"1\" y=\"2\" width=\"3\" height=\"4\" rx=\"1.5\"/>"),
        Some((
            IconStyle::Stroke,
            ShapeKind::Rect {
                x: "1".to_string(),
                y: "2".to_string(),
                w: "3".to_string(),
                h: "4".to_string(),
                r: Some("1.5".to_string()),
            }
        ))
    );
    assert_eq!(
        parse_element("<line x1=\"0\" y1=\"1\" x2=\"2\" y2=\"3\">"),
        Some((
            IconStyle::Stroke,
            ShapeKind::Line { x1: "0".to_string(), y1: "1".to_string(), x2: "2".to_string(), y2: "3".to_string() }
        ))
    );
    assert_eq!(
        parse_element("<polyline points=\"1,2 3,4\"/>"),
        Some((IconStyle::Stroke, ShapeKind::Polyline(strs(&["1", "2", "3", "4"]))))
    );
    assert_eq!(parse_element("<g>"), None);
    assert_eq!(parse_element("<Path d=\"M0\"/>"), None);
}

#[test]
fn svg_documents() {
    let icon = parse_svg(
        "<svg xmlns=\"x\" viewBox=\"0 0 16 16\"><g><path d=\"M0 0\"/></g><circle cx=\"1\" cy=\"2\" r=\"3\"/></svg>",
    );
    assert_eq!(icon.view_boxes, vec![strs(&["0", "0", "16", "16"])]);
    assert_eq!(icon.shapes.len(), 2);
    assert_eq!(icon.shapes[0], (IconStyle::Stroke, ShapeKind::Path("M0 0".to_string())));
    let bare = parse_svg("no tags at all");
    assert!(bare.view_boxes.is_empty());
    assert!(bare.shapes.is_empty());
    let open = parse_svg("<SVG viewBox='1 2 3 4'><path d='M1'");
    assert_eq!(open.view_boxes, vec![strs(&["1", "2", "3", "4"])]);
    assert_eq!(open.shapes, vec![(IconStyle::Stroke, ShapeKind::Path("M1".to_string()))]);
}

#[test]
fn recorded_chords_parse_back() {
    assert_eq!(modifier_chord(true, true, false, false), "ctrl+alt");
    assert_eq!(modifier_chord(false, false, false, false), "");
    assert_eq!(modifier_chord(false, false, true, true), "shift+win");
    assert_eq!(modifier_chord(true, true, true, true), "ctrl+alt+shift+win");
    for bits in 0u32..16 {
        let (c, a, s, w) = (bits & 1 != 0, bits & 2 != 0, bits & 4 != 0, bits & 8 != 0);
        let expect = (if c { 0x2 } else { 0 }) | (if a { 0x1 } else { 0 }) | (if s { 0x4 } else { 0 }) | (if w { 0x8 } else { 0 });
        assert_eq!(parse_hotkey(&modifier_chord(c, a, s, w), "space"), Some((expect, 0x20)));
    }
}

#[test]
fn control_replies() {
    assert_eq!(ipc_reply(&parse_ipc_command("toggle")), "ok 已投递喵");
    assert_eq!(ipc_reply(&parse_ipc_command("query")), IPC_USAGE_HINT);
    for args0 in [vec!["show"], vec!["hide"], vec!["toggle"], vec!["query", "火狐", "浏览器"]] {
        let line = ipc_command_line(&args(&args0)).unwrap();
        assert!(parse_ipc_command(&line).is_some(), "{line}");
    }
    assert_eq!(
        parse_ipc_command(&ipc_command_line(&args(&["query", " a ", "b"])).unwrap()),
        Some(IpcCommand::Query("a  b".to_string()))
    );
}

#[test]
fn whitespace_matches_std_everywhere() {
    for u in 0u32..=0x10FFFF {
        if let Some(c) = char::from_u32(u) {
            assert_eq!(meow_app_launcher::text::is_whitespace(c), c.is_whitespace(), "{u:#x}");
        }
    }
}

#[test]
fn recording_a_hotkey() {
    assert!(matches!(record_chord("ctrl", "esc"), ChordOutcome::Cancel));
    assert!(matches!(record_chord("", "a"), ChordOutcome::Ignore));
    match record_chord(&modifier_chord(true, false, true, false), &vk_name(0x4B).unwrap()) {
        ChordOutcome::Save(h) => {
            assert!(h.enabled);
            assert_eq!(h.modifiers, "ctrl+shift");
            assert_eq!(h.key, "k");
            assert_eq!(parse_hotkey(&h.modifiers, &h.key), Some((0x0006, 0x4B)));
        }
        _ => panic!("chord with modifiers is saved"),
    }
}
