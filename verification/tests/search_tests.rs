use meow_app_launcher::apps::{AppInfo, AppRegistry};
use meow_app_launcher::config::SearchConfig;
use meow_app_launcher::fuzzy::{beats, fuzzy_match, Score};
use meow_app_launcher::search::{
    query_mode, to_pinyin_full, to_pinyin_initials, ParsedQuery, SearchEngine, SearchMode,
};

#[test]
fn exact_substring_scores_highest() {
    // A contiguous hit beats a scattered one.
    let sub = fuzzy_match("fire", "firefox").unwrap();
    let scattered = fuzzy_match("fix", "firefox").unwrap();
    assert!(beats(sub.score, scattered.score));
}

#[test]
fn prefix_match_scores_high() {
    let prefix = fuzzy_match("chr", "chrome").unwrap();
    let later = fuzzy_match("ome", "chrome").unwrap();
    assert!(beats(prefix.score, later.score));
}

#[test]
fn no_match_returns_none() {
    assert!(fuzzy_match("xyz", "chrome").is_none());
}

#[test]
fn chinese_match_works() {
    assert!(fuzzy_match("浏览器", "谷歌浏览器").is_some());
    assert!(fuzzy_match("谷歌", "谷歌浏览器").is_some());
}

#[test]
fn out_of_order_fails() {
    assert!(fuzzy_match("meh", "chrome").is_none());
}

#[test]
fn fuzzy_exact_scores() {
    // fire / firefox: bonuses 2 + 5 + 5 + 3, contiguous 50, at start 10, span 3.
    assert_eq!(fuzzy_match("fire", "firefox").unwrap().score, Score { whole: 75, span: Some(3) });
    // fix / firefox: 2 + 5, at start 10, span 6.
    assert_eq!(fuzzy_match("fix", "firefox").unwrap().score, Score { whole: 17, span: Some(6) });
    // The empty query matches everything with the token score 20 / 2000.
    assert_eq!(fuzzy_match("", "x").unwrap().score, Score { whole: 0, span: Some(1999) });
    assert!(fuzzy_match("abcd", "abc").is_none());
}

#[test]
fn score_order_is_by_value() {
    let twenty_a = Score { whole: 0, span: Some(0) };
    let twenty_b = Score { whole: 10, span: Some(1) };
    assert!(!beats(twenty_a, twenty_b));
    assert!(!beats(twenty_b, twenty_a));
    assert!(beats(Score { whole: 81, span: None }, Score { whole: 60, span: Some(0) }));
    assert!(!beats(Score { whole: 70, span: None }, Score { whole: 60, span: Some(0) }));
    assert!(beats(Score { whole: 60, span: Some(0) }, Score { whole: 79, span: None }));
    assert!(!beats(Score { whole: 60, span: Some(0) }, Score { whole: 80, span: None }));
    assert!(beats(Score { whole: 100, span: None }, Score { whole: 79, span: Some(0) }));
}

#[test]
fn parse_modes_and_keywords() {
    let t = ParsedQuery::parse("  t:  聊天 ");
    assert_eq!(t.mode, SearchMode::Tag);
    assert_eq!(t.keywords, "聊天");
    let i = ParsedQuery::parse("I: w  x");
    assert_eq!(i.mode, SearchMode::Initial);
    assert_eq!(i.initials, vec!['w', 'x']);
    assert_eq!(i.keywords, "w  x");
    let n = ParsedQuery::parse(" fire fox ");
    assert_eq!(n.mode, SearchMode::Name);
    assert_eq!(n.keywords, "fire fox");
    assert!(ParsedQuery::parse("   ").is_empty());
    assert_eq!(query_mode("t:x"), SearchMode::Tag);
    assert_eq!(query_mode("tx"), SearchMode::Name);
}

#[test]
fn pinyin_of_names() {
    assert_eq!(to_pinyin_full("微信"), "weixin");
    assert_eq!(to_pinyin_initials("微信"), "wx");
    assert_eq!(to_pinyin_full("QQ音乐"), "QQyinle");
    assert_eq!(to_pinyin_initials("QQ音乐"), "qqyl");
}

fn app(name: &str, tags: &[&str]) -> AppInfo {
    let mut a = AppInfo::manual(name, &format!("C:/apps/{name}.lnk"));
    a.tags = tags.iter().map(|t| t.to_string()).collect();
    a
}

fn registry() -> AppRegistry {
    AppRegistry {
        apps: vec![
            app("Campfire Reader", &[]),
            app("Firefox", &["浏览器"]),
            app("微信", &["聊天"]),
            app("卸载工具", &[]),
        ],
    }
}

#[test]
fn search_ranks_by_score() {
    let reg = registry();
    let mut engine = SearchEngine::new();
    engine.sync(&reg.apps);
    let cfg = SearchConfig::default_search();
    let hits = engine.search(&reg, &cfg, "fire");
    let names: Vec<&str> = hits.iter().map(|a| a.name.as_str()).collect();
    assert_eq!(names, vec!["Firefox", "Campfire Reader"]);
    let scored = engine.search_scored(&reg, &cfg, "fire");
    assert_eq!(scored[0].1, Score { whole: 75, span: Some(3) });
    assert_eq!(scored[1].1, Score { whole: 59, span: Some(3) });
}

#[test]
fn search_by_pinyin_initials() {
    let reg = registry();
    let mut engine = SearchEngine::new();
    engine.sync(&reg.apps);
    let cfg = SearchConfig::default_search();
    let scored = engine.search_scored(&reg, &cfg, "wx");
    assert_eq!(scored.len(), 1);
    assert_eq!(scored[0].0.name, "微信");
    // The initials "wx" match exactly: 2 + 5, contiguous 50, at start 10, span 1.
    assert_eq!(scored[0].1, Score { whole: 67, span: Some(1) });
}

#[test]
fn search_by_tag_and_initials() {
    let reg = registry();
    let mut engine = SearchEngine::new();
    engine.sync(&reg.apps);
    let cfg = SearchConfig::default_search();
    let tag = engine.search_scored(&reg, &cfg, "t: 聊天");
    assert_eq!(tag.len(), 1);
    assert_eq!(tag[0].0.name, "微信");
    assert_eq!(tag[0].1, Score { whole: 60, span: None });
    let ini = engine.search_scored(&reg, &cfg, "i: W x");
    assert_eq!(ini.len(), 1);
    assert_eq!(ini[0].1, Score { whole: 70, span: None });
}

#[test]
fn filtered_and_empty_queries_find_nothing() {
    let reg = registry();
    let mut engine = SearchEngine::new();
    engine.sync(&reg.apps);
    let cfg = SearchConfig::default_search();
    assert!(engine.search(&reg, &cfg, "卸载").is_empty());
    assert!(engine.search(&reg, &cfg, "   ").is_empty());
    assert!(engine.search(&reg, &cfg, "t:").is_empty());
}

#[test]
fn unindexed_names_still_match_by_name() {
    let reg = registry();
    let engine = SearchEngine::new();
    let cfg = SearchConfig::default_search();
    assert_eq!(engine.search(&reg, &cfg, "firefox").len(), 1);
    assert!(engine.search(&reg, &cfg, "wx").is_empty());
}

#[test]
fn fresh_engine_finds_nothing_by_initials() {
    let reg = registry();
    let engine = SearchEngine::new();
    let cfg = SearchConfig::default_search();
    assert!(engine.search(&reg, &cfg, "i: c").is_empty());
    assert!(engine.search(&reg, &cfg, "i:f").is_empty());
}
