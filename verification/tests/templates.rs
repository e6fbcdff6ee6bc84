use browser_launcher::err::LauncherError;
use browser_launcher::template::{find_first, render, replace_first, stands_at};
use browser_launcher::text::{append, chars_of, replace_char, string_of};

fn chars(text: &str) -> Vec<char> {
    text.chars().collect()
}

#[test]
fn render_replaces_the_placeholder() {
    assert_eq!(render("{url} --flag", "http://x"), "http://x --flag");
    assert_eq!(render("--flag", "http://x"), "--flag");
    assert_eq!(render("{url}", "http://x"), "http://x");
    assert_eq!(render("--open={url}", "http://x"), "--open=http://x");
    assert_eq!(render("", "http://x"), "");
    assert_eq!(render("{url}", ""), "");
}

#[test]
fn render_replaces_the_first_placeholder_only() {
    assert_eq!(render("{url} {url}", "http://x"), "http://x {url}");
    assert_eq!(render("a{url}b{url}c{url}", "U"), "aUb{url}c{url}");
}

#[test]
fn render_takes_the_url_as_it_is() {
    assert_eq!(render("{url}", "http://x/?a=b c&d=\"e\""), "http://x/?a=b c&d=\"e\"");
    assert_eq!(render("{url}", "h\u{e9}llo \u{1f600}"), "h\u{e9}llo \u{1f600}");
    assert_eq!(render("\u{e9}{url}\u{e9}", "x"), "\u{e9}x\u{e9}");
}

#[test]
fn render_of_a_rendered_text_may_differ() {
    let once = render("{url}!", "{url}");
    assert_eq!(once, "{url}!");
    assert_eq!(render(&once, "x"), "x!");
}

#[test]
fn render_needs_the_whole_placeholder() {
    assert_eq!(render("{url", "x"), "{url");
    assert_eq!(render("url}", "x"), "url}");
    assert_eq!(render("{URL}", "x"), "{URL}");
    assert_eq!(render("{{url}}", "x"), "{x}");
    assert_eq!(render("{ur{url}", "x"), "{urx");
}

#[test]
fn rendering_again_gives_the_same() {
    assert_eq!(render("{url} --flag", "http://x"), render("{url} --flag", "http://x"));
}

#[test]
fn find_first_finds_the_first() {
    assert_eq!(find_first(&chars("abcabc"), &chars("bc")), Some(1));
    assert_eq!(find_first(&chars("abcabc"), &chars("abc")), Some(0));
    assert_eq!(find_first(&chars("abcabc"), &chars("cab")), Some(2));
    assert_eq!(find_first(&chars("abcabc"), &chars("abcabc")), Some(0));
    assert_eq!(find_first(&chars("abcabc"), &chars("abcabcd")), None);
    assert_eq!(find_first(&chars("abcabc"), &chars("x")), None);
    assert_eq!(find_first(&chars("abcabc"), &chars("")), Some(0));
    assert_eq!(find_first(&chars(""), &chars("")), Some(0));
    assert_eq!(find_first(&chars(""), &chars("a")), None);
    assert_eq!(find_first(&chars("aab"), &chars("ab")), Some(1));
}

#[test]
fn stands_at_compares_in_place() {
    assert!(stands_at(&chars("hello"), &chars("ell"), 1));
    assert!(!stands_at(&chars("hello"), &chars("ell"), 0));
    assert!(stands_at(&chars("hello"), &chars(""), 5));
    assert!(stands_at(&chars("hello"), &chars("hello"), 0));
}

#[test]
fn replace_first_cuts_at_the_first() {
    assert_eq!(replace_first(&chars("a-b-c"), &chars("-"), &chars("+++")), chars("a+++b-c"));
    assert_eq!(replace_first(&chars("a-b-c"), &chars("x"), &chars("+++")), chars("a-b-c"));
    assert_eq!(replace_first(&chars("a-b-c"), &chars("-c"), &chars("")), chars("a-b"));
    assert_eq!(replace_first(&chars("abc"), &chars(""), &chars("x")), chars("xabc"));
}

#[test]
fn replace_char_replaces_each() {
    assert_eq!(replace_char(&chars("a.b.c"), '.', &chars("\\.")), chars("a\\.b\\.c"));
    assert_eq!(replace_char(&chars("..."), '.', &chars("")), chars(""));
    assert_eq!(replace_char(&chars("abc"), '.', &chars("x")), chars("abc"));
    assert_eq!(replace_char(&chars(""), '.', &chars("x")), chars(""));
    assert_eq!(replace_char(&chars("**"), '*', &chars(".*")), chars(".*.*"));
}

#[test]
fn text_conversions_keep_the_characters() {
    assert_eq!(chars_of("h\u{e9}llo"), vec!['h', '\u{e9}', 'l', 'l', 'o']);
    assert_eq!(chars_of(""), Vec::<char>::new());
    assert_eq!(string_of(&vec!['h', '\u{e9}', 'l', 'l', 'o']), "h\u{e9}llo");
    assert_eq!(string_of(&Vec::new()), "");
    let mut head = chars("ab");
    append(&mut head, &chars("cd"));
    assert_eq!(head, chars("abcd"));
    append(&mut head, &chars(""));
    assert_eq!(head, chars("abcd"));
}

#[test]
fn error_messages() {
    assert_eq!(LauncherError::RegistryNoFile.message(), "Expected path to be a file");
    assert_eq!(LauncherError::RegistryNotAbsolute.message(), "Expected path to be absolute");
    assert_eq!(
        LauncherError::RegistryInvalid.message(),
        "Path is not valid. Symbolic links and network drives are not supported"
    );
    assert_eq!(
        LauncherError::Config { message: "expected `=`".to_string() }.message(),
        "Config invalid"
    );
    assert_eq!(
        LauncherError::IOError { message: "file not found".to_string() }.message(),
        "file not found"
    );
    assert_eq!(
        LauncherError::Pattern { pattern: "(".to_string() }.message(),
        "Regex failed to compile."
    );
}
