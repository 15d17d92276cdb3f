//! Small pieces of text: lists joined by a separator, numbers in decimal,
//! text with a character removed.

use vstd::prelude::*;
use vstd::string::StringExecFns;

verus! {

/// `std`'s `String::push`: the text afterwards is the text before, followed
/// by the one character.
pub assume_specification[ String::push ](text: &mut String, ch: char)
    ensures
        final(text)@ == old(text)@.push(ch),
;

/// The parts, in order, with the separator between each two of them.
pub open spec fn joined(parts: Seq<Seq<char>>, separator: Seq<char>) -> Seq<char>
    decreases parts.len(),
{
    if parts.len() == 0 {
        Seq::empty()
    } else if parts.len() == 1 {
        parts[0]
    } else {
        joined(parts.drop_last(), separator) + separator + parts.last()
    }
}

/// Joins `parts` with `separator` between each two of them.
pub fn join(parts: &Vec<String>, separator: &str) -> (text: String)
    ensures
        text@ == joined(parts.deep_view(), separator@),
{
    let ghost all = parts.deep_view();
    let mut text = String::new();
    let mut i: usize = 0;
    while i < parts.len()
        invariant
            i <= parts.len(),
            all == parts.deep_view(),
            text@ == joined(all.take(i as int), separator@),
        decreases parts.len() - i,
    {
        proof {
            assert(all.take(i + 1).drop_last() =~= all.take(i as int));
            assert(all.take(i + 1).last() == parts[i as int]@);
            if i == 0 {
                assert(Seq::<char>::empty() + parts[0]@ =~= parts[0]@);
            }
        }
        if i > 0 {
            text.append(separator);
        }
        text.append(parts[i].as_str());
        i += 1;
    }
    assert(all.take(i as int) =~= all);
    text
}

/// A copy of each text of `texts`, in order.
pub fn copy_of(texts: &Vec<String>) -> (copy: Vec<String>)
    ensures
        copy.deep_view() == texts.deep_view(),
{
    let mut copy: Vec<String> = Vec::new();
    let mut i: usize = 0;
    while i < texts.len()
        invariant
            i <= texts.len(),
            copy.len() == i,
            forall|j: int| 0 <= j < i ==> copy[j]@ == texts[j]@,
        decreases texts.len() - i,
    {
        copy.push(texts[i].clone());
        i += 1;
    }
    assert(copy.deep_view() =~= texts.deep_view());
    copy
}

/// The character that stands for a digit below ten.
pub open spec fn digit_char(digit: nat) -> char {
    if digit == 0 {
        '0'
    } else if digit == 1 {
        '1'
    } else if digit == 2 {
        '2'
    } else if digit == 3 {
        '3'
    } else if digit == 4 {
        '4'
    } else if digit == 5 {
        '5'
    } else if digit == 6 {
        '6'
    } else if digit == 7 {
        '7'
    } else if digit == 8 {
        '8'
    } else {
        '9'
    }
}

/// A number written in decimal, without sign and without leading zeros.
pub open spec fn decimal(n: nat) -> Seq<char>
    decreases n,
{
    if n < 10 {
        seq![digit_char(n)]
    } else {
        decimal(n / 10).push(digit_char(n % 10))
    }
}

fn digit_of(digit: u64) -> (ch: char)
    requires
        digit < 10,
    ensures
        ch == digit_char(digit as nat),
{
    if digit == 0 {
        '0'
    } else if digit == 1 {
        '1'
    } else if digit == 2 {
        '2'
    } else if digit == 3 {
        '3'
    } else if digit == 4 {
        '4'
    } else if digit == 5 {
        '5'
    } else if digit == 6 {
        '6'
    } else if digit == 7 {
        '7'
    } else if digit == 8 {
        '8'
    } else {
        '9'
    }
}

/// Writes `n` in decimal at the end of `text`.
pub fn push_decimal(text: &mut String, n: u64)
    ensures
        final(text)@ == old(text)@ + decimal(n as nat),
    decreases n,
{
    if n < 10 {
        text.push(digit_of(n));
        assert(old(text)@.push(digit_char(n as nat)) =~= old(text)@ + decimal(n as nat));
    } else {
        push_decimal(text, n / 10);
        text.push(digit_of(n % 10));
        assert((old(text)@ + decimal((n / 10) as nat)).push(digit_char((n % 10) as nat)) =~= old(
            text,
        )@ + decimal(n as nat));
    }
}

/// The characters of a text, in order.
pub fn chars_of(text: &str) -> (chars: Vec<char>)
    ensures
        chars@ == text@,
{
    let ghost all = text@;
    let mut chars: Vec<char> = Vec::new();
    for ch in iter: text.chars()
        invariant
            iter.seq() == all,
            chars@ == all.take(iter.index()),
    {
        proof {
            assert(all.take(iter.index()).push(ch) =~= all.take(iter.index() + 1));
        }
        chars.push(ch);
    }
    assert(all.take(all.len() as int) =~= all);
    chars
}

/// Writes the characters of `chars` from index `from` up to index `to` at
/// the end of `text`.
pub(crate) fn push_chars(text: &mut String, chars: &Vec<char>, from: usize, to: usize)
    requires
        from <= to <= chars.len(),
    ensures
        final(text)@ == old(text)@ + chars@.subrange(from as int, to as int),
{
    let mut i: usize = from;
    assert(old(text)@ + chars@.subrange(from as int, from as int) =~= old(text)@);
    while i < to
        invariant
            from <= i <= to <= chars.len(),
            text@ == old(text)@ + chars@.subrange(from as int, i as int),
        decreases to - i,
    {
        text.push(chars[i]);
        assert(chars@.subrange(from as int, i as int).push(chars@[i as int]) =~= chars@.subrange(
            from as int,
            i + 1,
        ));
        i += 1;
    }
}

/// The text without any occurrence of the character `removed`.
pub open spec fn without_char(text: Seq<char>, removed: char) -> Seq<char>
    decreases text.len(),
{
    if text.len() == 0 {
        text
    } else if text.last() == removed {
        without_char(text.drop_last(), removed)
    } else {
        without_char(text.drop_last(), removed).push(text.last())
    }
}

/// A copy of `text` from which every `removed` has been left out.
pub fn remove_char(text: &str, removed: char) -> (kept: String)
    ensures
        kept@ == without_char(text@, removed),
{
    let ghost all = text@;
    let mut kept = String::new();
    for ch in iter: text.chars()
        invariant
            iter.seq() == all,
            kept@ == without_char(all.take(iter.index()), removed),
    {
        proof {
            let i = iter.index();
            assert(all.take(i + 1).drop_last() =~= all.take(i));
            assert(all.take(i + 1).last() == ch);
        }
        if ch != removed {
            kept.push(ch);
        }
    }
    assert(all.take(all.len() as int) =~= all);
    kept
}

} // verus!
