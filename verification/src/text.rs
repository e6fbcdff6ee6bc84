//! Text as a sequence of characters.

use vstd::prelude::*;

verus! {

/// `String::push` appends one character.
pub assume_specification[ String::push ](text: &mut String, c: char)
    ensures
        final(text)@ == old(text)@.push(c),
;

/// The characters of `text`, in order.
pub fn chars_of(text: &str) -> (chars: Vec<char>)
    ensures
        chars@ == text@,
{
    let mut chars: Vec<char> = Vec::new();
    for c in it: text.chars()
        invariant
            it.seq() == text@,
            chars@ == text@.take(it.index()),
    {
        chars.push(c);
    }
    chars
}

/// The text made of `chars`, in order.
pub fn string_of(chars: &Vec<char>) -> (text: String)
    ensures
        text@ == chars@,
{
    let mut text = String::new();
    let mut i: usize = 0;
    while i < chars.len()
        invariant
            i <= chars.len(),
            text@ == chars@.take(i as int),
        decreases chars.len() - i,
    {
        text.push(chars[i]);
        i += 1;
    }
    text
}

/// What stands for each character when `from` is replaced by `to`: `to` for
/// `from`, and the character itself for any other.
pub open spec fn stands_for(from: char, to: Seq<char>) -> spec_fn(char) -> Seq<char> {
    |c: char| if c == from { to } else { seq![c] }
}

/// `text` with each occurrence of the character `from` replaced by `to`.
pub open spec fn replaced(text: Seq<char>, from: char, to: Seq<char>) -> Seq<char> {
    text.flat_map(stands_for(from, to))
}

/// Replacing in `text` followed by one more character is replacing in
/// `text`, followed by what stands for that character.
pub proof fn lemma_replaced_push(text: Seq<char>, last: char, from: char, to: Seq<char>)
    ensures
        replaced(text.push(last), from, to) == replaced(text, from, to) + (if last == from {
            to
        } else {
            seq![last]
        }),
{
    let each = stands_for(from, to);
    assert(text.push(last).map_values(each) =~= text.map_values(each).push(each(last)));
    text.map_values(each).lemma_flatten_push(each(last));
}

/// Replacing in a text of two parts is replacing in each part.
pub proof fn lemma_replaced_concat(head: Seq<char>, tail: Seq<char>, from: char, to: Seq<char>)
    ensures
        replaced(head + tail, from, to) == replaced(head, from, to) + replaced(tail, from, to),
    decreases tail.len(),
{
    if tail.len() == 0 {
        assert(head + tail =~= head);
        assert(replaced(tail, from, to) =~= Seq::<char>::empty());
        assert(replaced(head, from, to) + Seq::<char>::empty() =~= replaced(head, from, to));
    } else {
        let front = tail.drop_last();
        let last = tail.last();
        assert(tail =~= front.push(last));
        assert(head + tail =~= (head + front).push(last));
        lemma_replaced_concat(head, front, from, to);
        lemma_replaced_push(head + front, last, from, to);
        lemma_replaced_push(front, last, from, to);
        assert(replaced(head + tail, from, to) =~= replaced(head, from, to) + replaced(
            tail,
            from,
            to,
        ));
    }
}

/// Replacing a character that does not occur changes nothing.
pub proof fn lemma_replaced_untouched(text: Seq<char>, from: char, to: Seq<char>)
    requires
        forall|i: int| 0 <= i < text.len() ==> text[i] != from,
    ensures
        replaced(text, from, to) == text,
    decreases text.len(),
{
    if text.len() == 0 {
        assert(replaced(text, from, to) =~= text);
    } else {
        let front = text.drop_last();
        assert(text =~= front.push(text.last()));
        lemma_replaced_untouched(front, from, to);
        lemma_replaced_push(front, text.last(), from, to);
        assert(replaced(text, from, to) =~= text);
    }
}

/// Replacing in a text of one character gives what stands for it.
pub proof fn lemma_replaced_one(c: char, from: char, to: Seq<char>)
    ensures
        replaced(seq![c], from, to) == (if c == from {
            to
        } else {
            seq![c]
        }),
{
    let none = Seq::<char>::empty();
    assert(none.push(c) =~= seq![c]);
    assert(replaced(none, from, to) =~= none);
    lemma_replaced_push(none, c, from, to);
    assert(none + to =~= to);
    assert(none + seq![c] =~= seq![c]);
}

/// Appends the characters of `tail` to `chars`.
pub fn append(chars: &mut Vec<char>, tail: &Vec<char>)
    ensures
        final(chars)@ == old(chars)@ + tail@,
{
    let mut i: usize = 0;
    while i < tail.len()
        invariant
            i <= tail.len(),
            chars@ == old(chars)@ + tail@.take(i as int),
        decreases tail.len() - i,
    {
        chars.push(tail[i]);
        i += 1;
    }
}

/// Replaces each occurrence of the character `from` in `text` by `to`.
pub fn replace_char(text: &Vec<char>, from: char, to: &Vec<char>) -> (out: Vec<char>)
    ensures
        out@ == replaced(text@, from, to@),
{
    let mut out: Vec<char> = Vec::new();
    let mut i: usize = 0;
    while i < text.len()
        invariant
            i <= text.len(),
            out@ == replaced(text@.take(i as int), from, to@),
        decreases text.len() - i,
    {
        proof {
            lemma_replaced_push(text@.take(i as int), text@[i as int], from, to@);
            assert(text@.take(i as int).push(text@[i as int]) =~= text@.take(i + 1));
        }
        if text[i] == from {
            append(&mut out, to);
        } else {
            out.push(text[i]);
        }
        i += 1;
    }
    proof {
        assert(text@.take(text.len() as int) =~= text@);
    }
    out
}

} // verus!
