//! Escaping of free text for the MarkdownV2 markup.
//!
//! A reserved character stands for itself only when the escape character
//! comes directly before it. [`escape_markdown_v2`] puts exactly one escape
//! character before every reserved character and keeps everything else.

use vstd::prelude::*;
use vstd::seq_lib::lemma_flatten_concat;

verus! {

/// The character that makes the reserved character after it stand for itself.
pub const ESCAPE: char = '\\';

/// Whether `c` has a meaning of its own in MarkdownV2. The escape character
/// is itself reserved.
pub open spec fn is_reserved(c: char) -> bool {
    c == '_' || c == '*' || c == '[' || c == ']' || c == '(' || c == ')' || c == '~' || c == '`'
        || c == '>' || c == '#' || c == '+' || c == '-' || c == '=' || c == '|' || c == '{'
        || c == '}' || c == '.' || c == '!' || c == ESCAPE
}

/// What stands for the single character `c` in escaped text.
pub open spec fn escaped_char(c: char) -> Seq<char> {
    if is_reserved(c) {
        seq![ESCAPE, c]
    } else {
        seq![c]
    }
}

/// The escaped form of `s`: the escaped forms of its characters, in order.
pub open spec fn escaped(s: Seq<char>) -> Seq<char> {
    s.map_values(|c: char| escaped_char(c)).flatten()
}

/// How many characters of `s` are reserved.
pub open spec fn reserved_count(s: Seq<char>) -> nat {
    s.filter(|c: char| is_reserved(c)).len()
}

/// Where the escaped form of the character at index `i` of `s` starts in
/// `escaped(s)`.
pub open spec fn escaped_offset(s: Seq<char>, i: int) -> int {
    i + reserved_count(s.take(i))
}

/// Reads escaped text back: an escape character followed by a reserved
/// character gives that character, any other character gives itself. `None`
/// where a reserved character stands unescaped or an escape character
/// escapes nothing.
pub open spec fn unescaped(t: Seq<char>) -> Option<Seq<char>>
    decreases t.len(),
{
    if t.len() == 0 {
        Some(Seq::empty())
    } else if t[0] == ESCAPE {
        if t.len() >= 2 && is_reserved(t[1]) {
            match unescaped(t.skip(2)) {
                Some(rest) => Some(seq![t[1]] + rest),
                None => None,
            }
        } else {
            None
        }
    } else if is_reserved(t[0]) {
        None
    } else {
        match unescaped(t.skip(1)) {
            Some(rest) => Some(seq![t[0]] + rest),
            None => None,
        }
    }
}

/// Escaping the empty text gives the empty text.
pub proof fn lemma_escaped_empty()
    ensures
        escaped(Seq::<char>::empty()) == Seq::<char>::empty(),
{
}

/// Escaping distributes over concatenation.
pub proof fn lemma_escaped_concat(a: Seq<char>, b: Seq<char>)
    ensures
        escaped(a + b) == escaped(a) + escaped(b),
{
    let f = |c: char| escaped_char(c);
    assert((a + b).map_values(f) =~= a.map_values(f) + b.map_values(f));
    lemma_flatten_concat(a.map_values(f), b.map_values(f));
}

/// Escaping a single character.
pub proof fn lemma_escaped_single(c: char)
    ensures
        escaped(seq![c]) == escaped_char(c),
{
    let f = |c: char| escaped_char(c);
    let one = seq![c].map_values(f);
    assert(one =~= seq![escaped_char(c)]);
    one.lemma_flatten_one_element();
}

/// Escaping text that ends in `c` is escaping what comes before, then `c`.
pub proof fn lemma_escaped_push(s: Seq<char>, c: char)
    ensures
        escaped(s.push(c)) == escaped(s) + escaped_char(c),
{
    assert(s.push(c) =~= s + seq![c]);
    lemma_escaped_concat(s, seq![c]);
    lemma_escaped_single(c);
}

/// The escaped text is longer than the text by one escape character for each
/// reserved character.
pub proof fn lemma_escaped_len(s: Seq<char>)
    ensures
        escaped(s).len() == s.len() + reserved_count(s),
    decreases s.len(),
{
    let p = |c: char| is_reserved(c);
    if s.len() == 0 {
        assert(s.filter(p).len() == 0) by {
            s.lemma_filter_len(p);
        }
    } else {
        let front = s.drop_last();
        assert(s =~= front.push(s.last()));
        lemma_escaped_len(front);
        lemma_escaped_push(front, s.last());
        front.lemma_filter_push(s.last(), p);
    }
}

/// Every character of the text is found again in the escaped text, in the
/// same order: the piece of `escaped(s)` that starts at the offset of
/// index `i` and ends at the offset of index `i + 1` is the character at `i`
/// itself where it is not reserved, and one escape character followed by
/// that character where it is. Nothing lies between or around these pieces.
pub proof fn lemma_escaped_layout(s: Seq<char>, i: int)
    requires
        0 <= i < s.len(),
    ensures
        escaped_offset(s, 0) == 0,
        escaped_offset(s, s.len() as int) == escaped(s).len(),
        0 <= escaped_offset(s, i) < escaped_offset(s, i + 1) <= escaped(s).len(),
        escaped(s).subrange(escaped_offset(s, i), escaped_offset(s, i + 1)) == escaped_char(s[i]),
        is_reserved(s[i]) ==> escaped_offset(s, i + 1) == escaped_offset(s, i) + 2
            && escaped(s)[escaped_offset(s, i)] == ESCAPE
            && escaped(s)[escaped_offset(s, i) + 1] == s[i],
        !is_reserved(s[i]) ==> escaped_offset(s, i + 1) == escaped_offset(s, i) + 1
            && escaped(s)[escaped_offset(s, i)] == s[i],
{
    let head = s.take(i);
    let upto = s.take(i + 1);
    let tail = s.skip(i + 1);
    assert(s.take(0) =~= Seq::<char>::empty());
    assert(s.take(s.len() as int) =~= s);
    assert(upto =~= head.push(s[i]));
    assert(s =~= upto + tail);
    lemma_escaped_len(s.take(0));
    lemma_escaped_len(s);
    lemma_escaped_len(head);
    lemma_escaped_len(upto);
    lemma_escaped_push(head, s[i]);
    lemma_escaped_concat(upto, tail);
    let out = escaped(s);
    let piece = escaped_char(s[i]);
    assert(out == escaped(head) + piece + escaped(tail));
    assert(out.subrange(escaped_offset(s, i), escaped_offset(s, i + 1)) =~= piece);
    assert(out[escaped_offset(s, i)] == piece[0]);
    if is_reserved(s[i]) {
        assert(out[escaped_offset(s, i) + 1] == piece[1]);
    }
}

/// Escaped text reads back as the text it was made from: no reserved
/// character of it stands unescaped, and every escape character in it
/// escapes exactly one reserved character of the text.
pub proof fn lemma_unescaped_escaped(s: Seq<char>)
    ensures
        unescaped(escaped(s)) == Some(s),
    decreases s.len(),
{
    if s.len() == 0 {
        assert(escaped(s) =~= Seq::<char>::empty());
        assert(s =~= Seq::<char>::empty());
    } else {
        let c = s[0];
        let rest = s.skip(1);
        assert(s =~= seq![c] + rest);
        lemma_escaped_concat(seq![c], rest);
        lemma_escaped_single(c);
        lemma_unescaped_escaped(rest);
        let out = escaped(s);
        assert(out == escaped_char(c) + escaped(rest));
        if is_reserved(c) {
            assert(out[0] == ESCAPE);
            assert(out[1] == c);
            assert(out.skip(2) =~= escaped(rest));
        } else {
            assert(out[0] == c);
            assert(out.skip(1) =~= escaped(rest));
        }
    }
}

/// Two texts with the same escaped form are the same text.
pub proof fn lemma_escaped_injective(a: Seq<char>, b: Seq<char>)
    requires
        escaped(a) == escaped(b),
    ensures
        a == b,
{
    lemma_unescaped_escaped(a);
    lemma_unescaped_escaped(b);
}

/// `String::push` of the standard library, taken on trust: it appends the
/// one character to the end of the string and changes nothing else.
pub assume_specification[ String::push ](s: &mut String, c: char)
    ensures
        final(s)@ == old(s)@.push(c),
;

/// Tells whether `c` is reserved in MarkdownV2.
pub fn is_reserved_char(c: char) -> (r: bool)
    ensures
        r == is_reserved(c),
{
    c == '_' || c == '*' || c == '[' || c == ']' || c == '(' || c == ')' || c == '~' || c == '`'
        || c == '>' || c == '#' || c == '+' || c == '-' || c == '=' || c == '|' || c == '{'
        || c == '}' || c == '.' || c == '!' || c == ESCAPE
}

/// Escapes `text` for MarkdownV2: every reserved character gets the escape
/// character in front of it, all other characters pass through unchanged.
pub fn escape_markdown_v2(text: &str) -> (result: String)
    ensures
        result@ == escaped(text@),
{
    let mut result = String::new();
    for c in it: text.chars()
        invariant
            it.seq() == text@,
            result@ == escaped(text@.take(it.index() as int)),
    {
        proof {
            let done = text@.take(it.index() as int);
            assert(text@.take(it.index() + 1) =~= done.push(c));
            lemma_escaped_push(done, c);
        }
        if is_reserved_char(c) {
            result.push(ESCAPE);
        }
        result.push(c);
    }
    assert(text@.take(text@.len() as int) =~= text@);
    result
}

} // verus!
