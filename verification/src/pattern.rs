//! Testing a URL against match rules.
//!
//! A rule is either a regular expression, searched for anywhere in the URL,
//! or a simple pattern, which is turned into a regular expression that must
//! match from the start of the URL. The regular expressions themselves are
//! compiled and run by the `regex` crate.

use vstd::prelude::*;
use crate::config::{rule_views, Match, MatchKind, MatchView};
use crate::err::{seen, ErrorView, LauncherError};
use crate::text::{
    append, chars_of, lemma_replaced_concat, lemma_replaced_one, lemma_replaced_untouched,
    replace_char, replaced, string_of,
};

verus! {

#[verifier::external_type_specification]
#[verifier::external_body]
pub struct ExRegexError(regex::Error);

/// Whether `regex::Regex::new` compiles `pattern`.
pub uninterp spec fn regex_compiles(pattern: Seq<char>) -> bool;

/// Whether the regular expression compiled from `pattern` by
/// `regex::Regex::new` has a match somewhere in `subject`, as
/// `regex::Regex::is_match` tells it. It has a meaning only where
/// `regex_compiles(pattern)`.
pub uninterp spec fn regex_matches(pattern: Seq<char>, subject: Seq<char>) -> bool;

/// Compiles `pattern` with `regex::Regex::new` and searches `subject` with
/// `regex::Regex::is_match`.
///
/// Trusted: the call succeeds exactly on the patterns that compile, and
/// then tells whether the compiled expression has a match in `subject`.
/// Both are taken to depend on the two texts alone. Neither call panics.
#[verifier::external_body]
fn search(pattern: &str, subject: &str) -> (found: Result<bool, regex::Error>)
    ensures
        found is Ok <==> regex_compiles(pattern@),
        found is Ok ==> found->Ok_0 == regex_matches(pattern@, subject@),
{
    match regex::Regex::new(pattern) {
        Ok(compiled) => Ok(compiled.is_match(subject)),
        Err(why) => Err(why),
    }
}

/// What testing `subject` against the regular expression `pattern` gives:
/// whether it matches, or the error of a pattern that does not compile.
pub open spec fn regex_verdict(subject: Seq<char>, pattern: Seq<char>) -> Result<bool, ErrorView> {
    if regex_compiles(pattern) {
        Ok(regex_matches(pattern, subject))
    } else {
        Err(ErrorView::Pattern { pattern })
    }
}

/// Tests whether the regular expression `pattern` matches anywhere in
/// `subject`. A pattern that does not compile is an error that carries the
/// pattern.
pub fn match_regex(subject: &str, pattern: &str) -> (found: Result<bool, LauncherError>)
    ensures
        seen(found) == regex_verdict(subject@, pattern@),
{
    match search(pattern, subject) {
        Ok(found) => Ok(found),
        Err(_) => Err(LauncherError::Pattern { pattern: pattern.to_owned() }),
    }
}

/// A simple pattern with its characters `+`, `-`, `?` and `.` escaped, one
/// after the other in this order, and then each `*` turned into `.*`.
pub open spec fn escaped(pattern: Seq<char>) -> Seq<char> {
    let plus = replaced(pattern, '+', seq!['\\', '+']);
    let minus = replaced(plus, '-', seq!['\\', '-']);
    let question = replaced(minus, '?', seq!['\\', '?']);
    let dot = replaced(question, '.', seq!['\\', '.']);
    replaced(dot, '*', seq!['.', '*'])
}

/// The regular expression that a simple pattern stands for: the URL starts
/// with one of the schemes `http`, `https` and `ftp`, then `://`, then what
/// the pattern describes, then anything.
pub open spec fn simple_regex(pattern: Seq<char>) -> Seq<char> {
    "^(https?|ftp)://"@ + escaped(pattern) + seq!['.', '*']
}

/// What one character of a simple pattern stands for in its regular
/// expression: `+`, `-`, `?` and `.` stand for themselves and are escaped,
/// `*` stands for any text, and every other character is written as it is,
/// with the meaning that regular expressions give it.
pub open spec fn symbol(c: char) -> Seq<char> {
    if c == '+' || c == '-' || c == '?' || c == '.' {
        seq!['\\', c]
    } else if c == '*' {
        seq!['.', '*']
    } else {
        seq![c]
    }
}

/// `symbol` as a value.
pub open spec fn symbols() -> spec_fn(char) -> Seq<char> {
    |c: char| symbol(c)
}

/// Escaping a pattern of two parts is escaping each part.
pub proof fn lemma_escaped_concat(head: Seq<char>, tail: Seq<char>)
    ensures
        escaped(head + tail) == escaped(head) + escaped(tail),
{
    let plus = seq!['\\', '+'];
    let minus = seq!['\\', '-'];
    let question = seq!['\\', '?'];
    let dot = seq!['\\', '.'];
    let star = seq!['.', '*'];
    lemma_replaced_concat(head, tail, '+', plus);
    let head1 = replaced(head, '+', plus);
    let tail1 = replaced(tail, '+', plus);
    lemma_replaced_concat(head1, tail1, '-', minus);
    let head2 = replaced(head1, '-', minus);
    let tail2 = replaced(tail1, '-', minus);
    lemma_replaced_concat(head2, tail2, '?', question);
    let head3 = replaced(head2, '?', question);
    let tail3 = replaced(tail2, '?', question);
    lemma_replaced_concat(head3, tail3, '.', dot);
    let head4 = replaced(head3, '.', dot);
    let tail4 = replaced(tail3, '.', dot);
    lemma_replaced_concat(head4, tail4, '*', star);
}

/// Escaping a pattern of one character gives what the character stands
/// for.
pub proof fn lemma_escaped_one(c: char)
    ensures
        escaped(seq![c]) == symbol(c),
{
    let plus = seq!['\\', '+'];
    let minus = seq!['\\', '-'];
    let question = seq!['\\', '?'];
    let dot = seq!['\\', '.'];
    let star = seq!['.', '*'];
    lemma_replaced_one(c, '+', plus);
    let one = replaced(seq![c], '+', plus);
    if c == '-' {
        lemma_replaced_one(c, '-', minus);
    } else {
        lemma_replaced_untouched(one, '-', minus);
    }
    let two = replaced(one, '-', minus);
    if c == '?' {
        lemma_replaced_one(c, '?', question);
    } else {
        lemma_replaced_untouched(two, '?', question);
    }
    let three = replaced(two, '?', question);
    if c == '.' {
        lemma_replaced_one(c, '.', dot);
    } else {
        lemma_replaced_untouched(three, '.', dot);
    }
    let four = replaced(three, '.', dot);
    if c == '*' {
        lemma_replaced_one(c, '*', star);
    } else {
        lemma_replaced_untouched(four, '*', star);
    }
}

/// The five replacements, made one after the other, come to one pass over
/// the pattern in which each character is replaced by what it stands for.
pub proof fn lemma_escaped_by_character(pattern: Seq<char>)
    ensures
        escaped(pattern) == pattern.flat_map(symbols()),
    decreases pattern.len(),
{
    if pattern.len() == 0 {
        assert(escaped(pattern) =~= Seq::<char>::empty());
        assert(pattern.flat_map(symbols()) =~= Seq::<char>::empty());
    } else {
        let front = pattern.drop_last();
        let last = pattern.last();
        assert(pattern =~= front + seq![last]);
        lemma_escaped_by_character(front);
        lemma_escaped_concat(front, seq![last]);
        lemma_escaped_one(last);
        assert(pattern.map_values(symbols()) =~= front.map_values(symbols()).push(symbol(last)));
        front.map_values(symbols()).lemma_flatten_push(symbol(last));
    }
}

/// The pattern `*` stands for an expression that asks for one of the three
/// schemes and for nothing more.
pub proof fn lemma_star_expression()
    ensures
        simple_regex(seq!['*']) == "^(https?|ftp)://.*.*"@,
{
    reveal_strlit("^(https?|ftp)://");
    reveal_strlit("^(https?|ftp)://.*.*");
    lemma_escaped_one('*');
    assert(simple_regex(seq!['*']) =~= "^(https?|ftp)://.*.*"@);
}

/// Writes the regular expression that the simple pattern `pattern` stands
/// for.
pub fn simple_expression(pattern: &str) -> (expression: String)
    ensures
        expression@ == simple_regex(pattern@),
{
    let plain = chars_of(pattern);
    let plus = replace_char(&plain, '+', &vec!['\\', '+']);
    let minus = replace_char(&plus, '-', &vec!['\\', '-']);
    let question = replace_char(&minus, '?', &vec!['\\', '?']);
    let dot = replace_char(&question, '.', &vec!['\\', '.']);
    let star = replace_char(&dot, '*', &vec!['.', '*']);
    let mut expression = chars_of("^(https?|ftp)://");
    append(&mut expression, &star);
    expression.push('.');
    expression.push('*');
    string_of(&expression)
}

/// What testing `subject` against the simple pattern `pattern` gives.
pub open spec fn simple_verdict(subject: Seq<char>, pattern: Seq<char>) -> Result<bool, ErrorView> {
    regex_verdict(subject, simple_regex(pattern))
}

/// Tests `subject` against the simple pattern `pattern`: the text after the
/// scheme must start with the pattern, in which `*` stands for any text.
/// A pattern whose regular expression does not compile is an error that
/// carries that expression.
pub fn match_simple(subject: &str, pattern: &str) -> (found: Result<bool, LauncherError>)
    ensures
        seen(found) == simple_verdict(subject@, pattern@),
{
    let expression = simple_expression(pattern);
    match_regex(subject, expression.as_str())
}

/// The regular expression that a rule is evaluated with: the one that its
/// pattern stands for in the rule's dialect.
pub open spec fn expression_of(rule: MatchView) -> Seq<char> {
    match rule.kind {
        MatchKind::SimpleMatch => simple_regex(rule.pattern),
        MatchKind::Regex => rule.pattern,
    }
}

/// What testing `url` against one rule gives. The flag `include_path` of
/// the rule has no part in it.
pub open spec fn rule_verdict(url: Seq<char>, rule: MatchView) -> Result<bool, ErrorView> {
    regex_verdict(url, expression_of(rule))
}

/// The rule's expression does not compile.
pub open spec fn broken(rule: MatchView) -> bool {
    !regex_compiles(expression_of(rule))
}

/// Rule `i` decides: every rule before it rejects `url`, and it does not.
pub open spec fn decides(url: Seq<char>, rules: Seq<MatchView>, i: int) -> bool {
    &&& 0 <= i < rules.len()
    &&& rule_verdict(url, rules[i]) != Ok::<bool, ErrorView>(false)
    &&& forall|j: int| 0 <= j < i ==> rule_verdict(url, #[trigger] rules[j]) == Ok::<bool, ErrorView>(false)
}

/// What testing `url` against `rules` gives. The rules are tried in order
/// up to the first that does not reject: the list accepts if that rule
/// accepts, and fails if that rule's pattern does not compile. Rules
/// behind it are not looked at. A list in which every rule rejects, and so
/// the empty list, rejects.
pub open spec fn rules_verdict(url: Seq<char>, rules: Seq<MatchView>) -> Result<bool, ErrorView> {
    if exists|i: int| decides(url, rules, i) {
        rule_verdict(url, rules[choose|i: int| decides(url, rules, i)])
    } else {
        Ok(false)
    }
}

/// At most one rule decides.
pub proof fn lemma_decides_unique(url: Seq<char>, rules: Seq<MatchView>, i: int, j: int)
    requires
        decides(url, rules, i),
        decides(url, rules, j),
    ensures
        i == j,
{
    if i < j {
        assert(rule_verdict(url, rules[i]) == Ok::<bool, ErrorView>(false));
    }
    if j < i {
        assert(rule_verdict(url, rules[j]) == Ok::<bool, ErrorView>(false));
    }
}

/// The rule that decides gives the verdict of the list.
pub proof fn lemma_verdict_of_deciding_rule(url: Seq<char>, rules: Seq<MatchView>, i: int)
    requires
        decides(url, rules, i),
    ensures
        rules_verdict(url, rules) == rule_verdict(url, rules[i]),
{
    let chosen = choose|k: int| decides(url, rules, k);
    lemma_decides_unique(url, rules, i, chosen);
}

/// A list accepts exactly if one of its rules accepts and every rule before
/// that one rejects.
pub proof fn lemma_accepts_iff(url: Seq<char>, rules: Seq<MatchView>)
    ensures
        rules_verdict(url, rules) == Ok::<bool, ErrorView>(true) <==> exists|i: int|
            decides(url, rules, i) && rule_verdict(url, rules[i]) == Ok::<bool, ErrorView>(true),
{
    if exists|i: int|
        decides(url, rules, i) && rule_verdict(url, rules[i]) == Ok::<bool, ErrorView>(true) {
        let i = choose|i: int|
            decides(url, rules, i) && rule_verdict(url, rules[i]) == Ok::<bool, ErrorView>(true);
        lemma_verdict_of_deciding_rule(url, rules, i);
    }
}

/// A list without rules rejects every URL.
pub proof fn lemma_no_rules_reject(url: Seq<char>)
    ensures
        rules_verdict(url, Seq::<MatchView>::empty()) == Ok::<bool, ErrorView>(false),
{
}

/// Testing a URL against the same rules again gives the same: two results
/// that both are what `is_match` ensures agree.
pub proof fn lemma_is_match_repeats(
    url: Seq<char>,
    rules: Seq<Match>,
    first: Result<bool, LauncherError>,
    second: Result<bool, LauncherError>,
)
    requires
        seen(first) == rules_verdict(url, rule_views(rules)),
        seen(second) == rules_verdict(url, rule_views(rules)),
    ensures
        seen(first) == seen(second),
        first is Ok ==> first == second,
{
}

/// Tests `url` against `matches` in order and stops at the first rule that
/// accepts it. A rule whose pattern does not compile is an error, unless a
/// rule before it has accepted.
pub fn is_match(url: &str, matches: &[Match]) -> (found: Result<bool, LauncherError>)
    ensures
        seen(found) == rules_verdict(url@, rule_views(matches@)),
{
    let ghost rules = rule_views(matches@);
    let mut i: usize = 0;
    while i < matches.len()
        invariant
            i <= matches.len(),
            rules == rule_views(matches@),
            forall|j: int| 0 <= j < i ==> rule_verdict(url@, #[trigger] rules[j]) == Ok::<bool, ErrorView>(false),
        decreases matches.len() - i,
    {
        let rule = &matches[i];
        let found = match rule.kind {
            MatchKind::SimpleMatch => match_simple(url, rule.pattern.as_str()),
            MatchKind::Regex => match_regex(url, rule.pattern.as_str()),
        };
        assert(seen(found) == rule_verdict(url@, rules[i as int]));
        match found {
            Ok(false) => {},
            decided => {
                proof {
                    assert(decides(url@, rules, i as int));
                    lemma_verdict_of_deciding_rule(url@, rules, i as int);
                }
                return decided;
            },
        }
        i += 1;
    }
    Ok(false)
}

/// Tells whether `pattern` compiles as a regular expression.
pub fn compiles(pattern: &str) -> (valid: bool)
    ensures
        valid == regex_compiles(pattern@),
{
    search(pattern, "").is_ok()
}

/// Writes the regular expression that `rule` is evaluated with.
pub fn expression(rule: &Match) -> (text: String)
    ensures
        text@ == expression_of(rule@),
{
    match rule.kind {
        MatchKind::SimpleMatch => simple_expression(rule.pattern.as_str()),
        MatchKind::Regex => rule.pattern.clone(),
    }
}

/// Rule `k` is the first whose expression does not compile.
pub open spec fn first_broken_at(rules: Seq<MatchView>, k: int) -> bool {
    &&& 0 <= k < rules.len()
    &&& broken(rules[k])
    &&& forall|j: int| 0 <= j < k ==> !broken(#[trigger] rules[j])
}

/// Every rule's expression compiles.
pub open spec fn all_compile(rules: Seq<MatchView>) -> bool {
    forall|k: int| 0 <= k < rules.len() ==> !broken(#[trigger] rules[k])
}

/// Compiles the expression of every rule, whether or not a URL would reach
/// it. The error carries the expression of the first rule that does not
/// compile.
pub fn validate_rules(matches: &[Match]) -> (valid: Result<(), LauncherError>)
    ensures
        match valid {
            Ok(_) => all_compile(rule_views(matches@)),
            Err(why) => exists|k: int|
                first_broken_at(rule_views(matches@), k) && why@ == (ErrorView::Pattern {
                    pattern: expression_of(#[trigger] rule_views(matches@)[k]),
                }),
        },
{
    let ghost rules = rule_views(matches@);
    let mut k: usize = 0;
    while k < matches.len()
        invariant
            k <= matches.len(),
            rules == rule_views(matches@),
            forall|j: int| 0 <= j < k ==> !broken(#[trigger] rules[j]),
        decreases matches.len() - k,
    {
        let text = expression(&matches[k]);
        if !compiles(text.as_str()) {
            assert(first_broken_at(rules, k as int));
            return Err(LauncherError::Pattern { pattern: text });
        }
        k += 1;
    }
    Ok(())
}

/// Rules that all compile never fail: they accept or reject every URL.
pub proof fn lemma_compiled_rules_never_fail(url: Seq<char>, rules: Seq<MatchView>)
    requires
        all_compile(rules),
    ensures
        rules_verdict(url, rules) is Ok,
{
    if exists|i: int| decides(url, rules, i) {
        let i = choose|i: int| decides(url, rules, i);
        assert(!broken(rules[i]));
    }
}

} // verus!
