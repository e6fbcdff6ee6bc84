//! Command line templates, in which `{url}` stands for the URL.

use vstd::prelude::*;
use crate::text::{append, chars_of, string_of};

verus! {

/// `part` stands in `text` at position `i`.
pub open spec fn occurs_at(text: Seq<char>, part: Seq<char>, i: int) -> bool {
    &&& 0 <= i
    &&& i + part.len() <= text.len()
    &&& text.subrange(i, i + part.len()) == part
}

/// Position `i` is where `part` stands in `text` for the first time.
pub open spec fn first_at(text: Seq<char>, part: Seq<char>, i: int) -> bool {
    &&& occurs_at(text, part, i)
    &&& forall|j: int| 0 <= j < i ==> !occurs_at(text, part, j)
}

/// `text` with the first occurrence of `part` replaced by `to`; `text`
/// itself where `part` does not occur.
pub open spec fn replaced_first(text: Seq<char>, part: Seq<char>, to: Seq<char>) -> Seq<char> {
    if exists|i: int| first_at(text, part, i) {
        let i = choose|i: int| first_at(text, part, i);
        text.take(i) + to + text.skip(i + part.len())
    } else {
        text
    }
}

/// The placeholder for the URL.
pub open spec fn placeholder() -> Seq<char> {
    seq!['{', 'u', 'r', 'l', '}']
}

/// `template` with its first placeholder replaced by `url`.
pub open spec fn rendered(template: Seq<char>, url: Seq<char>) -> Seq<char> {
    replaced_first(template, placeholder(), url)
}

/// There is at most one first occurrence.
pub proof fn lemma_first_at_unique(text: Seq<char>, part: Seq<char>, i: int, j: int)
    requires
        first_at(text, part, i),
        first_at(text, part, j),
    ensures
        i == j,
{
}

/// Replacing the first occurrence cuts the text at the first occurrence.
pub proof fn lemma_replaced_first_at(text: Seq<char>, part: Seq<char>, to: Seq<char>, i: int)
    requires
        first_at(text, part, i),
    ensures
        replaced_first(text, part, to) == text.take(i) + to + text.skip(i + part.len()),
{
    let chosen = choose|k: int| first_at(text, part, k);
    lemma_first_at_unique(text, part, i, chosen);
}

/// A text in which `part` does not occur stays as it is.
pub proof fn lemma_replaced_first_absent(text: Seq<char>, part: Seq<char>, to: Seq<char>)
    requires
        forall|i: int| !occurs_at(text, part, i),
    ensures
        replaced_first(text, part, to) == text,
{
}

/// A template without placeholder is rendered as it is, whatever the URL.
pub proof fn lemma_rendered_without_placeholder(template: Seq<char>, url: Seq<char>)
    requires
        forall|i: int| !occurs_at(template, placeholder(), i),
    ensures
        rendered(template, url) == template,
{
}

/// Only the first placeholder is replaced: what stands before it and all
/// that follows it, further placeholders included, stays as it is.
pub proof fn lemma_rendered_at_first_placeholder(template: Seq<char>, url: Seq<char>, i: int)
    requires
        first_at(template, placeholder(), i),
    ensures
        rendered(template, url) == template.take(i) + url + template.skip(i + 5),
{
    lemma_replaced_first_at(template, placeholder(), url, i);
}

/// Rendering a template with a URL again gives the same text: two results
/// that both are what `render` ensures agree.
pub proof fn lemma_render_repeats(
    template: Seq<char>,
    url: Seq<char>,
    first: String,
    second: String,
)
    requires
        first@ == rendered(template, url),
        second@ == rendered(template, url),
    ensures
        first@ == second@,
{
}

/// Tells whether `part` stands in `text` at position `i`.
pub fn stands_at(text: &Vec<char>, part: &Vec<char>, i: usize) -> (found: bool)
    ensures
        found == occurs_at(text@, part@, i as int),
{
    if part.len() > text.len() || i > text.len() - part.len() {
        return false;
    }
    let mut k: usize = 0;
    while k < part.len()
        invariant
            k <= part.len(),
            i + part.len() <= text.len(),
            forall|m: int| 0 <= m < k ==> text@[i + m] == part@[m],
        decreases part.len() - k,
    {
        if text[i + k] != part[k] {
            assert(text@.subrange(i as int, i + part.len())[k as int] != part@[k as int]);
            return false;
        }
        k += 1;
    }
    assert(text@.subrange(i as int, i + part.len()) =~= part@);
    true
}

/// Finds where `part` stands in `text` for the first time.
pub fn find_first(text: &Vec<char>, part: &Vec<char>) -> (found: Option<usize>)
    ensures
        match found {
            Some(i) => first_at(text@, part@, i as int),
            None => forall|i: int| !occurs_at(text@, part@, i),
        },
{
    if part.len() > text.len() {
        return None;
    }
    let last: usize = text.len() - part.len();
    let mut i: usize = 0;
    loop
        invariant
            i <= last,
            last == text.len() - part.len(),
            forall|j: int| 0 <= j < i ==> !occurs_at(text@, part@, j),
        decreases last - i,
    {
        if stands_at(text, part, i) {
            return Some(i);
        }
        if i == last {
            return None;
        }
        i += 1;
    }
}

/// Replaces the first occurrence of `part` in `text` by `to`.
pub fn replace_first(text: &Vec<char>, part: &Vec<char>, to: &Vec<char>) -> (out: Vec<char>)
    ensures
        out@ == replaced_first(text@, part@, to@),
{
    let mut out: Vec<char> = Vec::new();
    match find_first(text, part) {
        Some(at) => {
            let mut i: usize = 0;
            while i < at
                invariant
                    i <= at <= text.len(),
                    out@ == text@.take(i as int),
                decreases at - i,
            {
                out.push(text[i]);
                i += 1;
            }
            append(&mut out, to);
            let mut k: usize = at + part.len();
            while k < text.len()
                invariant
                    at + part.len() <= k <= text.len(),
                    out@ == text@.take(at as int) + to@ + text@.subrange(at + part.len(), k as int),
                decreases text.len() - k,
            {
                out.push(text[k]);
                k += 1;
            }
            proof {
                assert(text@.subrange(at + part.len(), text.len() as int) =~= text@.skip(
                    at + part.len(),
                ));
                lemma_replaced_first_at(text@, part@, to@, at as int);
            }
        },
        None => {
            append(&mut out, text);
            proof {
                lemma_replaced_first_absent(text@, part@, to@);
            }
        },
    }
    out
}

/// Puts `url` in the place of the first `{url}` in `template`, as it is.
/// A template without `{url}` comes back unchanged.
pub fn render(template: &str, url: &str) -> (text: String)
    ensures
        text@ == rendered(template@, url@),
{
    let part: Vec<char> = vec!['{', 'u', 'r', 'l', '}'];
    let out = replace_first(&chars_of(template), &part, &chars_of(url));
    string_of(&out)
}

} // verus!
