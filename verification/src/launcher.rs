//! Choosing the browser for a URL and writing its command line.

use vstd::prelude::*;
use crate::config::{browser_views, text_views, Browser, BrowserView, MatchView, Root};
use crate::err::{seen, ErrorView, LauncherError};
use crate::pattern::{
    all_compile, expression_of, first_broken_at, is_match, lemma_compiled_rules_never_fail,
    lemma_no_rules_reject, rules_verdict, validate_rules,
};
use crate::template::{render, rendered};

verus! {

/// Browser `j` is asked before browser `i`: its priority is higher, or the
/// same and it was declared first.
pub open spec fn asked_before(browsers: Seq<BrowserView>, j: int, i: int) -> bool {
    ||| browsers[j].priority > browsers[i].priority
    ||| (browsers[j].priority == browsers[i].priority && j < i)
}

/// Position `j` stands somewhere in `order`.
pub open spec fn lists(order: Seq<usize>, j: int) -> bool {
    exists|a: int| 0 <= a < order.len() && #[trigger] order[a] == j
}

/// `order` lists the positions of `browsers`, each once, so that a browser
/// that is asked before another stands before it.
pub open spec fn is_asking_order(browsers: Seq<BrowserView>, order: Seq<usize>) -> bool {
    &&& order.len() == browsers.len()
    &&& forall|a: int| 0 <= a < order.len() ==> 0 <= #[trigger] order[a] < browsers.len()
    &&& forall|a: int, b: int|
        0 <= a < b < order.len() ==> asked_before(
            browsers,
            #[trigger] order[a] as int,
            #[trigger] order[b] as int,
        )
    &&& forall|j: int| 0 <= j < browsers.len() ==> #[trigger] lists(order, j)
}

/// Lists the positions of the browsers in the order in which they are
/// asked: by falling priority, and among equal priorities as declared.
pub fn priority_order(browsers: &Vec<(String, Browser)>) -> (order: Vec<usize>)
    ensures
        is_asking_order(browser_views(browsers@), order@),
{
    let ghost views = browser_views(browsers@);
    let mut order: Vec<usize> = Vec::new();
    let mut k: usize = 0;
    while k < browsers.len()
        invariant
            k <= browsers.len(),
            views == browser_views(browsers@),
            order.len() == k,
            forall|a: int| 0 <= a < order.len() ==> 0 <= #[trigger] order[a] < k,
            forall|a: int, b: int|
                0 <= a < b < order.len() ==> asked_before(
                    views,
                    #[trigger] order[a] as int,
                    #[trigger] order[b] as int,
                ),
            forall|j: int| 0 <= j < k ==> #[trigger] lists(order@, j),
        decreases browsers.len() - k,
    {
        let priority: i32 = browsers[k].1.priority;
        let mut at: usize = 0;
        while at < order.len() && browsers[order[at]].1.priority >= priority
            invariant
                at <= order.len(),
                order.len() == k,
                k < browsers.len(),
                views == browser_views(browsers@),
                priority == views[k as int].priority,
                forall|a: int| 0 <= a < order.len() ==> 0 <= #[trigger] order[a] < k,
                forall|a: int| 0 <= a < at ==> views[#[trigger] order[a] as int].priority >= priority,
            decreases order.len() - at,
        {
            at += 1;
        }
        let ghost before = order@;
        order.insert(at, k);
        proof {
            assert forall|a: int, b: int| 0 <= a < b < order.len() implies asked_before(
                views,
                #[trigger] order[a] as int,
                #[trigger] order[b] as int,
            ) by {
                if b < at {
                    assert(order[a] == before[a] && order[b] == before[b]);
                } else if b == at {
                    assert(order[a] == before[a]);
                } else if a < at {
                    assert(order[a] == before[a] && order[b] == before[b - 1]);
                } else if a == at {
                    assert(order[b] == before[b - 1]);
                    assert(asked_before(views, before[at as int] as int, before[b - 1] as int)
                        || at as int == b - 1);
                } else {
                    assert(order[a] == before[a - 1] && order[b] == before[b - 1]);
                }
            }
            assert forall|j: int| 0 <= j < k + 1 implies #[trigger] lists(order@, j) by {
                if j == k {
                    assert(order[at as int] == j);
                } else {
                    assert(lists(before, j));
                    let a = choose|a: int| 0 <= a < before.len() && #[trigger] before[a] == j;
                    if a < at {
                        assert(order[a] == j);
                    } else {
                        assert(order[a + 1] == j);
                    }
                }
            }
        }
        k += 1;
    }
    order
}

/// What asking one browser gives: whether one of its rules accepts `url`.
pub open spec fn browser_verdict(url: Seq<char>, browser: BrowserView) -> Result<bool, ErrorView> {
    rules_verdict(url, browser.matching)
}

/// Browser `i` takes the decision: every browser that is asked before it
/// rejects `url`, and it does not.
pub open spec fn takes(url: Seq<char>, browsers: Seq<BrowserView>, i: int) -> bool {
    &&& 0 <= i < browsers.len()
    &&& browser_verdict(url, browsers[i]) != Ok::<bool, ErrorView>(false)
    &&& forall|j: int|
        0 <= j < browsers.len() && #[trigger] asked_before(browsers, j, i) ==> browser_verdict(
            url,
            browsers[j],
        ) == Ok::<bool, ErrorView>(false)
}

/// The position of the browser that opens `url`. The browsers are asked by
/// falling priority, and as declared among equal priorities, up to the first
/// that does not reject: that browser is selected if it accepts, and the
/// selection fails if one of its patterns does not compile. Where every
/// browser rejects, none is selected.
pub open spec fn selected(url: Seq<char>, browsers: Seq<BrowserView>) -> Result<
    Option<int>,
    ErrorView,
> {
    if exists|i: int| takes(url, browsers, i) {
        let i = choose|i: int| takes(url, browsers, i);
        match browser_verdict(url, browsers[i]) {
            Ok(_) => Ok(Some(i)),
            Err(why) => Err(why),
        }
    } else {
        Ok(None)
    }
}

/// At most one browser takes the decision.
pub proof fn lemma_takes_unique(url: Seq<char>, browsers: Seq<BrowserView>, i: int, j: int)
    requires
        takes(url, browsers, i),
        takes(url, browsers, j),
    ensures
        i == j,
{
    if i != j {
        assert(asked_before(browsers, i, j) || asked_before(browsers, j, i));
    }
}

/// The browser that takes the decision gives the selection.
pub proof fn lemma_selected_by(url: Seq<char>, browsers: Seq<BrowserView>, i: int)
    requires
        takes(url, browsers, i),
    ensures
        selected(url, browsers) == match browser_verdict(url, browsers[i]) {
            Ok(_) => Ok::<Option<int>, ErrorView>(Some(i)),
            Err(why) => Err(why),
        },
{
    let chosen = choose|k: int| takes(url, browsers, k);
    lemma_takes_unique(url, browsers, i, chosen);
}

/// A browser is selected exactly if it accepts the URL and every browser
/// that is asked before it rejects.
pub proof fn lemma_selected_iff(url: Seq<char>, browsers: Seq<BrowserView>, i: int)
    ensures
        selected(url, browsers) == Ok::<Option<int>, ErrorView>(Some(i)) <==> takes(
            url,
            browsers,
            i,
        ) && browser_verdict(url, browsers[i]) == Ok::<bool, ErrorView>(true),
{
    if takes(url, browsers, i) {
        lemma_selected_by(url, browsers, i);
    }
}

/// From no browsers none is selected, whatever the URL.
pub proof fn lemma_none_selected_from_none(url: Seq<char>)
    ensures
        selected(url, Seq::<BrowserView>::empty()) == Ok::<Option<int>, ErrorView>(None),
        launch_plan(url, Seq::<BrowserView>::empty()) == Ok::<Option<LaunchView>, ErrorView>(None),
{
}

/// A browser without rules is never selected, whatever its priority.
pub proof fn lemma_without_rules_never_selected(
    url: Seq<char>,
    browsers: Seq<BrowserView>,
    i: int,
)
    requires
        0 <= i < browsers.len(),
        browsers[i].matching.len() == 0,
    ensures
        selected(url, browsers) != Ok::<Option<int>, ErrorView>(Some(i)),
{
    lemma_selected_iff(url, browsers, i);
    assert(browsers[i].matching =~= Seq::<MatchView>::empty());
    lemma_no_rules_reject(url);
}

/// Selecting for the same URL from the same browsers again gives the same:
/// two results that both are what `select` ensures agree.
pub proof fn lemma_select_repeats(
    url: Seq<char>,
    browsers: Seq<(String, Browser)>,
    first: Result<Option<usize>, LauncherError>,
    second: Result<Option<usize>, LauncherError>,
)
    requires
        selection_seen(first) == selected(url, browser_views(browsers)),
        selection_seen(second) == selected(url, browser_views(browsers)),
    ensures
        selection_seen(first) == selection_seen(second),
        first is Ok ==> first == second,
{
}

/// Deciding for the same URL on the same configuration again gives the
/// same: two plans that both are what `launch_browser` ensures agree.
pub proof fn lemma_launch_repeats(
    url: Seq<char>,
    config_root: Root,
    first: Result<Option<Launch>, LauncherError>,
    second: Result<Option<Launch>, LauncherError>,
)
    requires
        plan_seen(first) == launch_plan(url, config_root.browsers()),
        plan_seen(second) == launch_plan(url, config_root.browsers()),
    ensures
        plan_seen(first) == plan_seen(second),
{
}

/// In an asking order, a browser that is asked before another stands
/// before it.
pub proof fn lemma_asked_before_stands_before(
    browsers: Seq<BrowserView>,
    order: Seq<usize>,
    a: int,
    j: int,
) -> (b: int)
    requires
        is_asking_order(browsers, order),
        0 <= a < order.len(),
        0 <= j < browsers.len(),
        asked_before(browsers, j, order[a] as int),
    ensures
        0 <= b < a,
        order[b] == j,
{
    assert(lists(order, j));
    let b = choose|b: int| 0 <= b < order.len() && #[trigger] order[b] == j;
    if a < b {
        assert(asked_before(browsers, order[a] as int, order[b] as int));
    }
    b
}

/// A selection as contracts see it.
pub open spec fn selection_seen(found: Result<Option<usize>, LauncherError>) -> Result<
    Option<int>,
    ErrorView,
> {
    match found {
        Ok(Some(i)) => Ok(Some(i as int)),
        Ok(None) => Ok(None),
        Err(why) => Err(why@),
    }
}

/// Selects the browser that opens `url`, by its position in `browsers`.
pub fn select(url: &str, browsers: &Vec<(String, Browser)>) -> (found: Result<
    Option<usize>,
    LauncherError,
>)
    ensures
        selection_seen(found) == selected(url@, browser_views(browsers@)),
        found matches Ok(Some(i)) ==> i < browsers.len(),
{
    let ghost views = browser_views(browsers@);
    let order = priority_order(browsers);
    let mut a: usize = 0;
    while a < order.len()
        invariant
            a <= order.len(),
            views == browser_views(browsers@),
            is_asking_order(views, order@),
            forall|b: int|
                0 <= b < a ==> browser_verdict(url@, views[#[trigger] order[b] as int]) == Ok::<
                    bool,
                    ErrorView,
                >(false),
        decreases order.len() - a,
    {
        let i: usize = order[a];
        let found = is_match(url, browsers[i].1.matching.as_slice());
        assert(seen(found) == browser_verdict(url@, views[i as int]));
        match found {
            Ok(false) => {},
            decided => {
                proof {
                    assert forall|j: int|
                        0 <= j < views.len() && #[trigger] asked_before(
                            views,
                            j,
                            i as int,
                        ) implies browser_verdict(url@, views[j]) == Ok::<bool, ErrorView>(
                        false,
                    ) by {
                        let b = lemma_asked_before_stands_before(views, order@, a as int, j);
                    }
                    assert(takes(url@, views, i as int));
                    lemma_selected_by(url@, views, i as int);
                }
                return match decided {
                    Ok(_) => Ok(Some(i)),
                    Err(why) => Err(why),
                };
            },
        }
        a += 1;
    }
    proof {
        assert forall|i: int| !takes(url@, views, i) by {
            if 0 <= i < views.len() {
                assert(lists(order@, i));
                let b = choose|b: int| 0 <= b < order.len() && #[trigger] order[b] == i;
                assert(browser_verdict(url@, views[order[b] as int]) == Ok::<bool, ErrorView>(
                    false,
                ));
            }
        }
    }
    Ok(None)
}

/// The command line that opens a URL: the executable and its arguments.
#[derive(Debug, Clone, PartialEq, Eq)]
pub struct Launch {
    pub exe: String,
    pub args: Vec<String>,
}

/// A command line as contracts see it.
pub struct LaunchView {
    pub exe: Seq<char>,
    pub args: Seq<Seq<char>>,
}

impl View for Launch {
    type V = LaunchView;

    open spec fn view(&self) -> LaunchView {
        LaunchView { exe: self.exe@, args: text_views(self.args@) }
    }
}

/// The command line of `browser` for `url`: its path and each of its
/// arguments, rendered with the URL.
pub open spec fn command_line(url: Seq<char>, browser: BrowserView) -> LaunchView {
    LaunchView {
        exe: rendered(browser.path, url),
        args: Seq::new(browser.args.len(), |k: int| rendered(browser.args[k], url)),
    }
}

/// Writes the command line of `browser` for `url`.
pub fn command(url: &str, browser: &Browser) -> (launch: Launch)
    ensures
        launch@ == command_line(url@, browser@),
{
    let exe = render(browser.path.as_str(), url);
    let mut args: Vec<String> = Vec::new();
    let mut k: usize = 0;
    while k < browser.args.len()
        invariant
            k <= browser.args.len(),
            args.len() == k,
            forall|m: int| 0 <= m < k ==> (#[trigger] args[m])@ == rendered(browser.args[m]@, url@),
        decreases browser.args.len() - k,
    {
        args.push(render(browser.args[k].as_str(), url));
        k += 1;
    }
    let launch = Launch { exe, args };
    proof {
        assert(launch@.args =~= command_line(url@, browser@).args);
    }
    launch
}

/// What is launched for `url`: the command line of the selected browser,
/// nothing where no browser is selected, and the error where the selection
/// fails.
pub open spec fn launch_plan(url: Seq<char>, browsers: Seq<BrowserView>) -> Result<
    Option<LaunchView>,
    ErrorView,
> {
    match selected(url, browsers) {
        Ok(Some(i)) => Ok(Some(command_line(url, browsers[i]))),
        Ok(None) => Ok(None),
        Err(why) => Err(why),
    }
}

/// A plan as contracts see it.
pub open spec fn plan_seen(plan: Result<Option<Launch>, LauncherError>) -> Result<
    Option<LaunchView>,
    ErrorView,
> {
    match plan {
        Ok(Some(launch)) => Ok(Some(launch@)),
        Ok(None) => Ok(None),
        Err(why) => Err(why@),
    }
}

/// Decides what to launch for `url`: selects the browser and writes its
/// command line. Starting the process is left to the caller.
pub fn launch_browser(url: &str, config_root: &Root) -> (plan: Result<
    Option<Launch>,
    LauncherError,
>)
    ensures
        plan_seen(plan) == launch_plan(url@, config_root.browsers()),
{
    match select(url, &config_root.browser) {
        Ok(Some(i)) => Ok(Some(command(url, &config_root.browser[i].1))),
        Ok(None) => Ok(None),
        Err(why) => Err(why),
    }
}

/// Every rule of every browser compiles.
pub open spec fn all_browsers_compile(browsers: Seq<BrowserView>) -> bool {
    forall|i: int| 0 <= i < browsers.len() ==> all_compile((#[trigger] browsers[i]).matching)
}

/// Rule `k` of browser `i` is the first rule of the configuration, as
/// declared, whose expression does not compile.
pub open spec fn first_broken_in(browsers: Seq<BrowserView>, i: int, k: int) -> bool {
    &&& 0 <= i < browsers.len()
    &&& first_broken_at(browsers[i].matching, k)
    &&& forall|j: int| 0 <= j < i ==> all_compile((#[trigger] browsers[j]).matching)
}

/// Compiles the expression of every rule of the configuration, so that a
/// rule that does not compile is found when the configuration is loaded and
/// not when a URL reaches it. The error carries the expression of the first
/// such rule, in the order of declaration.
pub fn validate(config_root: &Root) -> (valid: Result<(), LauncherError>)
    ensures
        match valid {
            Ok(_) => all_browsers_compile(config_root.browsers()),
            Err(why) => exists|i: int, k: int|
                #[trigger] first_broken_in(config_root.browsers(), i, k) && why@ == (
                ErrorView::Pattern {
                    pattern: expression_of(config_root.browsers()[i].matching[k]),
                }),
        },
{
    let ghost views = config_root.browsers();
    let mut i: usize = 0;
    while i < config_root.browser.len()
        invariant
            i <= config_root.browser.len(),
            views == config_root.browsers(),
            forall|j: int| 0 <= j < i ==> all_compile((#[trigger] views[j]).matching),
        decreases config_root.browser.len() - i,
    {
        match validate_rules(config_root.browser[i].1.matching.as_slice()) {
            Ok(_) => {},
            Err(why) => {
                proof {
                    let rules = views[i as int].matching;
                    let k = choose|k: int|
                        first_broken_at(rules, k) && why@ == (ErrorView::Pattern {
                            pattern: expression_of(#[trigger] rules[k]),
                        });
                    assert(first_broken_in(views, i as int, k));
                }
                return Err(why);
            },
        }
        i += 1;
    }
    Ok(())
}

/// A configuration whose rules all compile never fails: for every URL a
/// browser is selected or none is.
pub proof fn lemma_valid_never_fails(url: Seq<char>, browsers: Seq<BrowserView>)
    requires
        all_browsers_compile(browsers),
    ensures
        selected(url, browsers) is Ok,
        launch_plan(url, browsers) is Ok,
{
    if exists|i: int| takes(url, browsers, i) {
        let i = choose|i: int| takes(url, browsers, i);
        assert(all_compile(browsers[i].matching));
        lemma_compiled_rules_never_fail(url, browsers[i].matching);
    }
}

} // verus!
