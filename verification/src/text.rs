//! Text as sequences of characters: cutting at a separator, joining, blank
//! text, and where two texts part.

use vstd::prelude::*;
use vstd::string::StringExecFns;

verus! {

/// Taken on trust from the standard library: `String::push` puts one character
/// at the end of the string and leaves what was there as it was.
pub assume_specification[ String::push ](s: &mut String, ch: char)
    ensures
        final(s)@ == old(s)@.push(ch),
;

/// The characters of `s`, in order.
pub fn to_chars(s: &str) -> (chars: Vec<char>)
    ensures
        chars@ == s@,
{
    let mut chars: Vec<char> = Vec::new();
    for c in it: s.chars()
        invariant
            it.seq() == s@,
            chars@ == s@.take(it.index() as int),
    {
        chars.push(c);
    }
    chars
}

/// The string made of `chars`, in order.
pub fn from_chars(chars: &[char]) -> (s: String)
    ensures
        s@ == chars@,
{
    let mut s = String::new();
    let mut i: usize = 0;
    while i < chars.len()
        invariant
            i <= chars.len(),
            s@ == chars@.take(i as int),
        decreases chars.len() - i,
    {
        s.push(chars[i]);
        i += 1;
    }
    s
}

/// Whether `c` has the Unicode property White_Space.
pub open spec fn is_whitespace(c: char) -> bool {
    ||| '\u{9}' <= c <= '\u{d}'
    ||| c == ' '
    ||| c == '\u{85}'
    ||| c == '\u{a0}'
    ||| c == '\u{1680}'
    ||| '\u{2000}' <= c <= '\u{200a}'
    ||| c == '\u{2028}'
    ||| c == '\u{2029}'
    ||| c == '\u{202f}'
    ||| c == '\u{205f}'
    ||| c == '\u{3000}'
}

/// Whether `s` holds nothing but white space. The empty text is blank.
pub open spec fn blank(s: Seq<char>) -> bool {
    forall|i: int| 0 <= i < s.len() ==> is_whitespace(#[trigger] s[i])
}

/// Whether `c` is white space.
pub fn whitespace(c: char) -> (res: bool)
    ensures
        res == is_whitespace(c),
{
    ('\u{9}' <= c && c <= '\u{d}') || c == ' ' || c == '\u{85}' || c == '\u{a0}' || c
        == '\u{1680}' || ('\u{2000}' <= c && c <= '\u{200a}') || c == '\u{2028}' || c
        == '\u{2029}' || c == '\u{202f}' || c == '\u{205f}' || c == '\u{3000}'
}

/// Whether `s` holds nothing but white space.
pub fn is_blank(s: &[char]) -> (res: bool)
    ensures
        res == blank(s@),
{
    let mut i: usize = 0;
    while i < s.len()
        invariant
            i <= s.len(),
            forall|j: int| 0 <= j < i ==> is_whitespace(#[trigger] s@[j]),
        decreases s.len() - i,
    {
        if !whitespace(s[i]) {
            return false;
        }
        i += 1;
    }
    true
}

/// The parts with `sep` put between each two neighbours. No parts give the
/// empty text, one part gives itself.
pub open spec fn join(parts: Seq<Seq<char>>, sep: Seq<char>) -> Seq<char>
    decreases parts.len(),
{
    if parts.len() == 0 {
        Seq::empty()
    } else if parts.len() == 1 {
        parts[0]
    } else {
        join(parts.drop_last(), sep) + sep + parts.last()
    }
}

/// What lies between the occurrences of `sep` in `s`, in order: one part more
/// than `s` has separators, so never none. A part may be empty.
pub open spec fn split(s: Seq<char>, sep: char) -> Seq<Seq<char>>
    decreases s.len(),
{
    if s.len() == 0 {
        seq![Seq::empty()]
    } else {
        let before = split(s.drop_last(), sep);
        if s.last() == sep {
            before.push(Seq::empty())
        } else {
            before.drop_last().push(before.last().push(s.last()))
        }
    }
}

/// No part holds the separator.
pub open spec fn free_of(parts: Seq<Seq<char>>, sep: char) -> bool {
    forall|i: int| 0 <= i < parts.len() ==> !(#[trigger] parts[i]).contains(sep)
}

/// Cutting always yields a part, no part holds the separator, and joining the
/// parts again gives the text back.
pub proof fn lemma_join_of_split(s: Seq<char>, sep: char)
    ensures
        split(s, sep).len() > 0,
        free_of(split(s, sep), sep),
        join(split(s, sep), seq![sep]) == s,
    decreases s.len(),
{
    if s.len() == 0 {
        assert(join(split(s, sep), seq![sep]) =~= s);
    } else {
        let before = split(s.drop_last(), sep);
        lemma_join_of_split(s.drop_last(), sep);
        let parts = split(s, sep);
        if s.last() == sep {
            assert(parts.drop_last() =~= before);
            assert(join(parts, seq![sep]) =~= s);
            assert forall|i: int| 0 <= i < parts.len() implies !(#[trigger] parts[i]).contains(
                sep,
            ) by {
                if i < before.len() {
                    assert(parts[i] == before[i]);
                }
            }
        } else {
            let grown = before.last().push(s.last());
            assert forall|i: int| 0 <= i < parts.len() implies !(#[trigger] parts[i]).contains(
                sep,
            ) by {
                if i < before.len() - 1 {
                    assert(parts[i] == before[i]);
                } else {
                    assert(parts[i] == grown);
                    assert(!before[before.len() - 1].contains(sep));
                    if grown.contains(sep) {
                        let k = choose|k: int| 0 <= k < grown.len() && grown[k] == sep;
                        if k < grown.len() - 1 {
                            assert(before.last()[k] == sep);
                        }
                    }
                }
            }
            if before.len() == 1 {
                assert(join(before, seq![sep]) == before[0]);
                assert(parts[0] == grown);
                assert(grown =~= s);
            } else {
                assert(parts.drop_last() =~= before.drop_last());
                assert(join(before, seq![sep]) == join(before.drop_last(), seq![sep]) + seq![sep]
                    + before.last());
                assert(parts.last() == grown);
                assert(join(parts, seq![sep]) == join(before.drop_last(), seq![sep]) + seq![sep]
                    + grown);
                assert(s =~= s.drop_last().push(s.last()));
                assert(join(parts, seq![sep]) =~= s);
            }
        }
    }
}

/// A text without the separator is its own single part.
pub proof fn lemma_split_whole(s: Seq<char>, sep: char)
    requires
        !s.contains(sep),
    ensures
        split(s, sep) == seq![s],
    decreases s.len(),
{
    if s.len() == 0 {
        assert(s =~= Seq::empty());
    } else {
        assert forall|i: int| 0 <= i < s.len() - 1 implies s.drop_last()[i] != sep by {
            assert(s[i] != sep);
        }
        lemma_split_whole(s.drop_last(), sep);
        assert(s.last() != sep);
        assert(s.drop_last().push(s.last()) =~= s);
        assert(split(s, sep) =~= seq![s]);
    }
}

/// After a separator, a text without the separator is one more part.
pub proof fn lemma_split_append(head: Seq<char>, tail: Seq<char>, sep: char)
    requires
        !tail.contains(sep),
    ensures
        split(head + seq![sep] + tail, sep) == split(head, sep).push(tail),
    decreases tail.len(),
{
    let s = head + seq![sep] + tail;
    if tail.len() == 0 {
        assert(s.drop_last() =~= head);
        assert(tail =~= Seq::empty());
    } else {
        assert forall|i: int| 0 <= i < tail.len() - 1 implies tail.drop_last()[i] != sep by {
            assert(tail[i] != sep);
        }
        lemma_split_append(head, tail.drop_last(), sep);
        assert(s.drop_last() =~= head + seq![sep] + tail.drop_last());
        assert(s.last() == tail.last());
        assert(tail.last() != sep);
        assert(tail.drop_last().push(tail.last()) =~= tail);
        assert(split(head, sep).push(tail.drop_last()).drop_last() =~= split(head, sep));
    }
}

/// A text without the separator, put after another, lengthens its last part.
pub proof fn lemma_split_extend(head: Seq<char>, tail: Seq<char>, sep: char)
    requires
        !tail.contains(sep),
    ensures
        split(head, sep).len() > 0,
        split(head + tail, sep) == split(head, sep).drop_last().push(
            split(head, sep).last() + tail,
        ),
    decreases tail.len(),
{
    lemma_join_of_split(head, sep);
    let parts = split(head, sep);
    if tail.len() == 0 {
        assert(head + tail =~= head);
        assert(parts.last() + tail =~= parts.last());
        assert(parts.drop_last().push(parts.last()) =~= parts);
    } else {
        assert forall|i: int| 0 <= i < tail.len() - 1 implies tail.drop_last()[i] != sep by {
            assert(tail[i] != sep);
        }
        lemma_split_extend(head, tail.drop_last(), sep);
        let s = head + tail;
        assert(s.drop_last() =~= head + tail.drop_last());
        assert(s.last() == tail.last());
        assert(tail.last() != sep);
        let shorter = parts.drop_last().push(parts.last() + tail.drop_last());
        assert(shorter.drop_last() =~= parts.drop_last());
        assert((parts.last() + tail.drop_last()).push(tail.last()) =~= parts.last() + tail);
    }
}

/// Parts that are free of the separator come back when their joined text is cut.
pub proof fn lemma_split_of_join(parts: Seq<Seq<char>>, sep: char)
    requires
        parts.len() > 0,
        free_of(parts, sep),
    ensures
        split(join(parts, seq![sep]), sep) == parts,
    decreases parts.len(),
{
    if parts.len() == 1 {
        lemma_split_whole(parts[0], sep);
        assert(seq![parts[0]] =~= parts);
    } else {
        assert forall|i: int| 0 <= i < parts.len() - 1 implies !(
        #[trigger] parts.drop_last()[i]).contains(sep) by {
            assert(parts.drop_last()[i] == parts[i]);
        }
        lemma_split_of_join(parts.drop_last(), sep);
        lemma_split_append(join(parts.drop_last(), seq![sep]), parts.last(), sep);
        assert(parts.drop_last().push(parts.last()) =~= parts);
    }
}

/// Cuts `s` at every `sep`.
pub fn split_at(s: &[char], sep: char) -> (parts: Vec<Vec<char>>)
    ensures
        parts.deep_view() == split(s@, sep),
{
    let mut parts: Vec<Vec<char>> = Vec::new();
    let mut current: Vec<char> = Vec::new();
    let mut i: usize = 0;
    while i < s.len()
        invariant
            i <= s.len(),
            split(s@.take(i as int), sep) == parts.deep_view().push(current@),
        decreases s.len() - i,
    {
        let ghost done = parts.deep_view();
        let ghost open = current@;
        assert(s@.take(i + 1).drop_last() =~= s@.take(i as int));
        if s[i] == sep {
            parts.push(current);
            current = Vec::new();
            assert(parts.deep_view() =~~= done.push(open));
        } else {
            current.push(s[i]);
            assert(done.push(open).drop_last() =~= done);
        }
        i += 1;
    }
    assert(s@.take(i as int) =~= s@);
    let ghost done = parts.deep_view();
    parts.push(current);
    assert(parts.deep_view() =~~= done.push(current@));
    parts
}

/// The parts with `sep` put between each two neighbours.
pub fn join_all(parts: &Vec<String>, sep: &str) -> (joined: String)
    ensures
        joined@ == join(parts.deep_view(), sep@),
{
    let mut joined = String::new();
    let mut i: usize = 0;
    while i < parts.len()
        invariant
            i <= parts.len(),
            joined@ == join(parts.deep_view().take(i as int), sep@),
        decreases parts.len() - i,
    {
        if i > 0 {
            joined.append(sep);
        }
        joined.append(parts[i].as_str());
        proof {
            let done = parts.deep_view().take(i + 1);
            assert(done.drop_last() =~= parts.deep_view().take(i as int));
            assert(done.last() == parts[i as int]@);
        }
        i += 1;
    }
    assert(parts.deep_view().take(i as int) =~= parts.deep_view());
    joined
}

/// The number of characters that `left` and `right` have in common at their
/// start.
pub open spec fn common_length(left: Seq<char>, right: Seq<char>) -> int
    decreases left.len(),
{
    if left.len() > 0 && right.len() > 0 && left[0] == right[0] {
        1 + common_length(left.skip(1), right.skip(1))
    } else {
        0
    }
}

/// Up to their common length two texts are equal, and there they end or
/// differ.
pub proof fn lemma_common_length(left: Seq<char>, right: Seq<char>)
    ensures
        0 <= common_length(left, right) <= left.len(),
        common_length(left, right) <= right.len(),
        forall|i: int| 0 <= i < common_length(left, right) ==> left[i] == right[i],
        common_length(left, right) < left.len() && common_length(left, right) < right.len()
            ==> left[common_length(left, right)] != right[common_length(left, right)],
    decreases left.len(),
{
    if left.len() > 0 && right.len() > 0 && left[0] == right[0] {
        lemma_common_length(left.skip(1), right.skip(1));
        assert forall|i: int| 0 <= i < common_length(left, right) implies left[i] == right[i] by {
            if i > 0 {
                assert(left.skip(1)[i - 1] == right.skip(1)[i - 1]);
            }
        }
    }
}

/// The place where two texts end or differ is their common length.
proof fn lemma_common_length_is(left: Seq<char>, right: Seq<char>, place: int)
    requires
        0 <= place <= left.len(),
        place <= right.len(),
        forall|i: int| 0 <= i < place ==> left[i] == right[i],
        place < left.len() && place < right.len() ==> left[place] != right[place],
    ensures
        common_length(left, right) == place,
    decreases place,
{
    if place > 0 {
        assert(left[0] == right[0]);
        assert forall|i: int| 0 <= i < place - 1 implies left.skip(1)[i] == right.skip(1)[i] by {
            assert(left[i + 1] == right[i + 1]);
        }
        lemma_common_length_is(left.skip(1), right.skip(1), place - 1);
    }
}

/// The number of characters that `left` and `right` have in common at their
/// start.
pub fn common_prefix(left: &[char], right: &[char]) -> (place: usize)
    ensures
        place == common_length(left@, right@),
{
    let mut place: usize = 0;
    while place < left.len() && place < right.len() && left[place] == right[place]
        invariant
            place <= left.len(),
            place <= right.len(),
            forall|i: int| 0 <= i < place ==> left@[i] == right@[i],
        decreases left.len() - place,
    {
        place += 1;
    }
    proof {
        lemma_common_length_is(left@, right@, place as int);
    }
    place
}

/// The digit that writes `d`, for `d` below ten.
pub open spec fn digit_of(d: nat) -> char {
    seq!['0', '1', '2', '3', '4', '5', '6', '7', '8', '9'][d as int]
}

/// `n` written in decimal digits, without leading zeros.
pub open spec fn decimal_text(n: nat) -> Seq<char>
    decreases n,
{
    if n < 10 {
        seq![digit_of(n)]
    } else {
        decimal_text(n / 10).push(digit_of(n % 10))
    }
}

/// The digit that writes `d`.
fn digit(d: u32) -> (c: char)
    requires
        d < 10,
    ensures
        c == digit_of(d as nat),
{
    match d {
        0 => '0',
        1 => '1',
        2 => '2',
        3 => '3',
        4 => '4',
        5 => '5',
        6 => '6',
        7 => '7',
        8 => '8',
        _ => '9',
    }
}

/// Writes `n` in decimal digits at the end of `s`.
pub fn append_decimal(s: &mut String, n: u32)
    ensures
        final(s)@ == old(s)@ + decimal_text(n as nat),
    decreases n,
{
    if n >= 10 {
        append_decimal(s, n / 10);
    }
    s.push(digit(n % 10));
    assert(s@ =~= old(s)@ + decimal_text(n as nat));
}

} // verus!
