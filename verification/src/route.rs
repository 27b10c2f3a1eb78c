//! Reading the default gateway out of a routing table line.
//!
//! The line is cut into words at white space, and the gateway is the word
//! that follows the first word `via`.

use vstd::prelude::*;
use vstd::std_specs::iter::IteratorSpec;
use vstd::string::*;

verus! {

/// The character is white space, as Unicode defines it.
pub open spec fn is_space(c: char) -> bool {
    let v = c as u32;
    ||| 0x09 <= v <= 0x0D
    ||| v == 0x20
    ||| v == 0x85
    ||| v == 0xA0
    ||| v == 0x1680
    ||| 0x2000 <= v <= 0x200A
    ||| v == 0x2028
    ||| v == 0x2029
    ||| v == 0x202F
    ||| v == 0x205F
    ||| v == 0x3000
}

/// The first place at or after `from` that holds no white space, or the
/// text's length where there is none.
pub open spec fn word_start(text: Seq<char>, from: int) -> int
    decreases text.len() - from,
{
    if from >= text.len() || !is_space(text[from]) {
        from
    } else {
        word_start(text, from + 1)
    }
}

/// The first place at or after `from` that holds white space, or the text's
/// length where there is none.
pub open spec fn word_end(text: Seq<char>, from: int) -> int
    decreases text.len() - from,
{
    if from >= text.len() || is_space(text[from]) {
        from
    } else {
        word_end(text, from + 1)
    }
}

/// The words of `text` that start at or after `from`, in order: the longest
/// runs of characters that are not white space.
pub open spec fn words_from(text: Seq<char>, from: int) -> Seq<Seq<char>>
    decreases text.len() - from,
{
    let start = word_start(text, from);
    let end = word_end(text, start);
    if 0 <= from <= start < end <= text.len() {
        seq![text.subrange(start, end)] + words_from(text, end)
    } else {
        Seq::<Seq<char>>::empty()
    }
}

/// The word that follows the first `via`, where there is one.
pub open spec fn word_after_via(words: Seq<Seq<char>>) -> Option<Seq<char>>
    decreases words.len(),
{
    if words.len() == 0 {
        None
    } else if words[0] == "via"@ {
        if words.len() > 1 {
            Some(words[1])
        } else {
            None
        }
    } else {
        word_after_via(words.drop_first())
    }
}

/// The first of a run of words, where there is one.
pub open spec fn first_word(words: Seq<Seq<char>>) -> Option<Seq<char>> {
    if words.len() > 0 {
        Some(words[0])
    } else {
        None
    }
}

/// The gateway that a routing table line names.
pub open spec fn gateway_of(route: Seq<char>) -> Option<Seq<char>> {
    word_after_via(words_from(route, 0))
}

/// The characters of a text.
fn chars_of(text: &str) -> (out: Vec<char>)
    ensures
        out@ == text@,
{
    let mut out: Vec<char> = Vec::new();
    let mut rest = text.chars();
    loop
        invariant
            out@ + rest.remaining() == text@,
            rest.decrease() is Some,
        decreases rest.decrease()->0,
    {
        match rest.next() {
            Some(c) => {
                out.push(c);
            },
            None => {
                return out;
            },
        }
    }
}

/// Tells whether a character is white space.
fn is_white_space(c: char) -> (space: bool)
    ensures
        space == is_space(c),
{
    let v: u32 = c as u32;
    (0x09 <= v && v <= 0x0D) || v == 0x20 || v == 0x85 || v == 0xA0 || v == 0x1680 || (0x2000 <= v
        && v <= 0x200A) || v == 0x2028 || v == 0x2029 || v == 0x202F || v == 0x205F || v == 0x3000
}

/// Finds where the next word starts.
fn find_word_start(text: &Vec<char>, from: usize) -> (start: usize)
    requires
        from <= text@.len(),
    ensures
        start == word_start(text@, from as int),
        from <= start <= text@.len(),
        start < text@.len() ==> !is_space(text@[start as int]),
{
    let mut start: usize = from;
    while start < text.len() && is_white_space(text[start])
        invariant
            from <= start <= text@.len(),
            word_start(text@, from as int) == word_start(text@, start as int),
        decreases text@.len() - start,
    {
        start += 1;
    }
    start
}

/// Finds where the word that starts at `from` ends.
fn find_word_end(text: &Vec<char>, from: usize) -> (end: usize)
    requires
        from <= text@.len(),
    ensures
        end == word_end(text@, from as int),
        from <= end <= text@.len(),
        from < text@.len() && !is_space(text@[from as int]) ==> from < end,
{
    let mut end: usize = from;
    while end < text.len() && !is_white_space(text[end])
        invariant
            from <= end <= text@.len(),
            word_end(text@, from as int) == word_end(text@, end as int),
        decreases text@.len() - end,
    {
        end += 1;
    }
    end
}

/// Tells whether the word between `start` and `end` is `via`.
fn is_via(text: &Vec<char>, start: usize, end: usize) -> (same: bool)
    requires
        start <= end <= text@.len(),
    ensures
        same == (text@.subrange(start as int, end as int) == "via"@),
{
    proof {
        reveal_strlit("via");
    }
    let ghost word = text@.subrange(start as int, end as int);
    assert("via"@.len() == 3 && word.len() == end - start);
    if end - start != 3 {
        return false;
    }
    let same = text[start] == 'v' && text[start + 1] == 'i' && text[start + 2] == 'a';
    assert(word[0] == text@[start as int] && word[1] == text@[start + 1] && word[2] == text@[start
        + 2]);
    assert(same ==> word =~= "via"@);
    same
}

/// Reads the gateway that a routing table line names: the word after the
/// first `via`; `None` where no word is `via`, or where nothing follows it.
pub fn gateway_from_route(route: &str) -> (r: Option<String>)
    ensures
        match r {
            Some(gateway) => gateway_of(route@) == Some(gateway@),
            None => gateway_of(route@) is None,
        },
{
    let text = chars_of(route);
    let mut pos: usize = 0;
    let mut seen_via = false;
    loop
        invariant
            pos <= text@.len(),
            text@ == route@,
            gateway_of(route@) == (if seen_via {
                first_word(words_from(text@, pos as int))
            } else {
                word_after_via(words_from(text@, pos as int))
            }),
        decreases text@.len() - pos,
    {
        let start = find_word_start(&text, pos);
        if start == text.len() {
            assert(words_from(text@, pos as int) == Seq::<Seq<char>>::empty());
            return None;
        }
        let end = find_word_end(&text, start);
        let ghost word = text@.subrange(start as int, end as int);
        let ghost rest = words_from(text@, end as int);
        let ghost words = words_from(text@, pos as int);
        assert(words == seq![word] + rest);
        assert(words[0] == word);
        if seen_via {
            let gateway = route.substring_char(start, end).to_owned();
            return Some(gateway);
        }
        assert(words.drop_first() == rest);
        if is_via(&text, start, end) {
            seen_via = true;
            assert(words.len() > 1 <==> rest.len() > 0);
            assert(rest.len() > 0 ==> words[1] == rest[0]);
        }
        pos = end;
    }
}

} // verus!
