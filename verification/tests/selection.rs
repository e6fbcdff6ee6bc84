use browser_launcher::config::{
    default_args, default_include_path, default_kind, default_priority, Browser, Match, MatchKind,
    Root,
};
use browser_launcher::err::LauncherError;
use browser_launcher::launcher::{command, launch_browser, priority_order, select, Launch};
use browser_launcher::pattern::is_match;

fn simple(pattern: &str) -> Match {
    Match {
        pattern: pattern.to_string(),
        kind: default_kind(),
        include_path: default_include_path(),
    }
}

fn regex(pattern: &str) -> Match {
    Match { pattern: pattern.to_string(), kind: MatchKind::Regex, include_path: false }
}

fn browser(priority: i32, path: &str, args: &[&str], matching: Vec<Match>) -> Browser {
    Browser {
        priority,
        path: path.to_string(),
        args: args.iter().map(|a| a.to_string()).collect(),
        matching,
    }
}

fn named(entries: Vec<(&str, Browser)>) -> Vec<(String, Browser)> {
    entries.into_iter().map(|(name, b)| (name.to_string(), b)).collect()
}

#[test]
fn defaults_are_as_documented() {
    assert_eq!(default_priority(), 0);
    assert_eq!(default_args(), Vec::<String>::new());
    assert_eq!(default_kind(), MatchKind::SimpleMatch);
    assert!(!default_include_path());
}

#[test]
fn no_browsers_no_match() {
    let none: Vec<(String, Browser)> = Vec::new();
    assert_eq!(select("https://www.example.com", &none), Ok(None));
    assert_eq!(select("", &none), Ok(None));
    assert_eq!(select("not a url", &none), Ok(None));
    assert_eq!(launch_browser("https://www.example.com", &Root { browser: none }), Ok(None));
}

#[test]
fn higher_priority_is_asked_first() {
    let browsers = named(vec![
        ("A", browser(1, "a.exe", &["{url}"], vec![simple("*")])),
        ("B", browser(5, "b.exe", &["{url}"], vec![simple("*.foo.com")])),
    ]);
    assert_eq!(select("https://www.foo.com", &browsers), Ok(Some(1)));
    assert_eq!(select("https://bar.com", &browsers), Ok(Some(0)));
    assert_eq!(select("mailto:someone@foo.com", &browsers), Ok(None));
}

#[test]
fn higher_priority_wins_wherever_it_is_declared() {
    let browsers = named(vec![
        ("B", browser(5, "b.exe", &[], vec![simple("*.foo.com")])),
        ("A", browser(1, "a.exe", &[], vec![simple("*")])),
    ]);
    assert_eq!(select("https://www.foo.com", &browsers), Ok(Some(0)));
    assert_eq!(select("https://bar.com", &browsers), Ok(Some(1)));
}

#[test]
fn equal_priorities_go_by_declaration() {
    let browsers = named(vec![
        ("first", browser(0, "first.exe", &[], vec![simple("*")])),
        ("second", browser(0, "second.exe", &[], vec![simple("*")])),
        ("third", browser(0, "third.exe", &[], vec![simple("*")])),
    ]);
    assert_eq!(select("http://a", &browsers), Ok(Some(0)));
    assert_eq!(priority_order(&browsers), vec![0, 1, 2]);
}

#[test]
fn priority_order_is_stable_and_falling() {
    let browsers = named(vec![
        ("a", browser(0, "a", &[], vec![])),
        ("b", browser(7, "b", &[], vec![])),
        ("c", browser(-3, "c", &[], vec![])),
        ("d", browser(7, "d", &[], vec![])),
        ("e", browser(0, "e", &[], vec![])),
        ("f", browser(i32::MAX, "f", &[], vec![])),
        ("g", browser(i32::MIN, "g", &[], vec![])),
    ]);
    assert_eq!(priority_order(&browsers), vec![5, 1, 3, 0, 4, 2, 6]);
    assert_eq!(priority_order(&Vec::new()), Vec::<usize>::new());
}

#[test]
fn browser_without_rules_is_never_selected() {
    let browsers = named(vec![
        ("empty", browser(100, "empty.exe", &[], vec![])),
        ("fallback", browser(0, "fallback.exe", &[], vec![simple("*")])),
    ]);
    assert_eq!(select("http://a", &browsers), Ok(Some(1)));
    let only = named(vec![("empty", browser(100, "empty.exe", &[], vec![]))]);
    assert_eq!(select("http://a", &only), Ok(None));
}

#[test]
fn rules_are_alternatives_tried_in_order() {
    let rules = vec![simple("*.example.com"), regex("^mailto:"), simple("example.org")];
    assert_eq!(is_match("https://www.example.com", &rules), Ok(true));
    assert_eq!(is_match("mailto:a@b.c", &rules), Ok(true));
    assert_eq!(is_match("ftp://example.org/x", &rules), Ok(true));
    assert_eq!(is_match("https://example.net", &rules), Ok(false));
    assert_eq!(is_match("https://example.net", &[]), Ok(false));
}

#[test]
fn broken_rule_fails_unless_an_earlier_rule_accepts() {
    let rules = vec![simple("*.example.com"), regex("foo(bar"), simple("*")];
    assert_eq!(is_match("https://www.example.com", &rules), Ok(true));
    assert_eq!(
        is_match("https://www.example.org", &rules),
        Err(LauncherError::Pattern { pattern: "foo(bar".to_string() })
    );
    let simple_broken = vec![simple("a(b")];
    assert_eq!(
        is_match("http://a", &simple_broken),
        Err(LauncherError::Pattern { pattern: "^(https?|ftp)://a(b.*".to_string() })
    );
}

#[test]
fn broken_rule_fails_the_selection_when_it_is_reached() {
    let browsers = named(vec![
        ("low", browser(1, "low.exe", &[], vec![simple("*")])),
        ("broken", browser(5, "broken.exe", &[], vec![regex("(")])),
        ("high", browser(9, "high.exe", &[], vec![simple("*.foo.com")])),
    ]);
    assert_eq!(select("https://www.foo.com", &browsers), Ok(Some(2)));
    assert_eq!(
        select("https://bar.com", &browsers),
        Err(LauncherError::Pattern { pattern: "(".to_string() })
    );
    assert_eq!(
        launch_browser("https://bar.com", &Root { browser: browsers }),
        Err(LauncherError::Pattern { pattern: "(".to_string() })
    );
}

#[test]
fn include_path_has_no_effect() {
    let mut with_flag = simple("example.com");
    with_flag.include_path = true;
    let without_flag = simple("example.com");
    for url in ["http://example.com/a/b", "http://www.example.com", "http://example.com"] {
        assert_eq!(
            is_match(url, &[with_flag.clone()]),
            is_match(url, &[without_flag.clone()])
        );
    }
}

#[test]
fn launch_renders_path_and_arguments() {
    let root = Root {
        browser: named(vec![
            (
                "firefox",
                browser(
                    0,
                    "C:\\firefox.exe",
                    &["-private-window", "{url}", "--note={url}{url}"],
                    vec![simple("*")],
                ),
            ),
            ("steam", browser(10, "steam://openurl/{url}", &[], vec![simple("*.steampowered.com")])),
        ]),
    };
    assert_eq!(
        launch_browser("https://www.example.com/?q=1", &root),
        Ok(Some(Launch {
            exe: "C:\\firefox.exe".to_string(),
            args: vec![
                "-private-window".to_string(),
                "https://www.example.com/?q=1".to_string(),
                "--note=https://www.example.com/?q=1{url}".to_string(),
            ],
        }))
    );
    assert_eq!(
        launch_browser("http://store.steampowered.com/app/1", &root),
        Ok(Some(Launch {
            exe: "steam://openurl/http://store.steampowered.com/app/1".to_string(),
            args: vec![],
        }))
    );
    assert_eq!(launch_browser("file:///tmp/x", &root), Ok(None));
}

#[test]
fn command_of_a_browser() {
    let b = browser(0, "run", &["a", "{url}", ""], vec![]);
    assert_eq!(
        command("u", &b),
        Launch {
            exe: "run".to_string(),
            args: vec!["a".to_string(), "u".to_string(), "".to_string()],
        }
    );
}

#[test]
fn selecting_again_gives_the_same() {
    let browsers = named(vec![
        ("A", browser(1, "a.exe", &["{url}"], vec![simple("*")])),
        ("B", browser(5, "b.exe", &["{url}"], vec![simple("*.foo.com")])),
    ]);
    let root = Root { browser: browsers.clone() };
    for url in ["https://www.foo.com", "https://bar.com", "gopher://x"] {
        assert_eq!(select(url, &browsers), select(url, &browsers));
        assert_eq!(launch_browser(url, &root), launch_browser(url, &root));
    }
}
