//! The configuration: browsers and their match rules.

use vstd::prelude::*;

verus! {

/// The dialect in which a rule's pattern is written.
#[derive(Debug, Clone, Copy, PartialEq, Eq, Structural)]
pub enum MatchKind {
    /// A host pattern in which `*` stands for any text.
    SimpleMatch,
    /// A regular expression, searched for anywhere in the URL.
    Regex,
}

/// One rule that a URL is tested against.
#[derive(Debug, Clone, PartialEq, Eq)]
pub struct Match {
    pub pattern: String,
    pub kind: MatchKind,
    /// Reserved. Matching does not read it.
    pub include_path: bool,
}

/// A rule as contracts see it.
pub struct MatchView {
    pub pattern: Seq<char>,
    pub kind: MatchKind,
    pub include_path: bool,
}

impl View for Match {
    type V = MatchView;

    open spec fn view(&self) -> MatchView {
        MatchView { pattern: self.pattern@, kind: self.kind, include_path: self.include_path }
    }
}

/// The rules as contracts see them.
pub open spec fn rule_views(rules: Seq<Match>) -> Seq<MatchView> {
    rules.map_values(|rule: Match| rule@)
}

/// A list of texts as contracts see it.
pub open spec fn text_views(texts: Seq<String>) -> Seq<Seq<char>> {
    texts.map_values(|text: String| text@)
}

/// One configured browser.
#[derive(Debug, Clone, PartialEq, Eq)]
pub struct Browser {
    /// Browsers with a higher priority are asked first.
    pub priority: i32,
    /// The executable; `{url}` in it stands for the URL.
    pub path: String,
    /// The arguments; `{url}` in each stands for the URL.
    pub args: Vec<String>,
    /// The browser takes a URL that any of these rules accepts.
    pub matching: Vec<Match>,
}

/// A browser as contracts see it.
pub struct BrowserView {
    pub priority: int,
    pub path: Seq<char>,
    pub args: Seq<Seq<char>>,
    pub matching: Seq<MatchView>,
}

impl View for Browser {
    type V = BrowserView;

    open spec fn view(&self) -> BrowserView {
        BrowserView {
            priority: self.priority as int,
            path: self.path@,
            args: text_views(self.args@),
            matching: rule_views(self.matching@),
        }
    }
}

/// The whole configuration: the browsers by name, in the order in which
/// they were declared.
#[derive(Debug, Clone, PartialEq, Eq)]
pub struct Root {
    pub browser: Vec<(String, Browser)>,
}

/// The browsers of a list of named browsers, in the same order.
pub open spec fn browser_views(entries: Seq<(String, Browser)>) -> Seq<BrowserView> {
    entries.map_values(|entry: (String, Browser)| entry.1@)
}

impl Root {
    /// The browsers in the order of their declaration, without their names.
    pub open spec fn browsers(&self) -> Seq<BrowserView> {
        browser_views(self.browser@)
    }
}

/// The arguments of a browser that declares none.
pub fn default_args() -> (args: Vec<String>)
    ensures
        args@ == Seq::<String>::empty(),
{
    Vec::new()
}

/// The priority of a browser that declares none.
pub fn default_priority() -> (priority: i32)
    ensures
        priority == 0,
{
    0
}

/// The dialect of a rule that declares none.
pub fn default_kind() -> (kind: MatchKind)
    ensures
        kind == MatchKind::SimpleMatch,
{
    MatchKind::SimpleMatch
}

/// The `include_path` flag of a rule that declares none.
pub fn default_include_path() -> (flag: bool)
    ensures
        !flag,
{
    false
}

} // verus!
