//! What holds of all texts: how they are cut, trimmed and put together.
#![allow(unused_imports)]

use vstd::prelude::*;
use vstd::utf8::*;

use crate::text::{
    ascii_lower, decimal, first_word, hex_digit, is_white, join, lines, replaced, signed_decimal,
    split, split_pieces, starts_with, strip_return, trim_end, trim_start, trim_white_end,
    trim_white_start, trimmed, utf8_lossy,
};

verus! {

// ---------------------------------------------------------------------------
// White space
// ---------------------------------------------------------------------------

/// White space is what Unicode calls so: of the ASCII characters the space and
/// those from the tabulator to the carriage return.
pub proof fn white_space_is_what_unicode_calls_so(c: char)
    ensures
        c as u32 <= 0x7f ==> (is_white(c) <==> c as u32 == 0x20 || 0x09 <= c as u32 <= 0x0d),
        c as u32 > 0x7f ==> (is_white(c) <==> c as u32 == 0x85 || c as u32 == 0xa0 || c as u32
            == 0x1680 || 0x2000 <= c as u32 <= 0x200a || c as u32 == 0x2028 || c as u32 == 0x2029
            || c as u32 == 0x202f || c as u32 == 0x205f || c as u32 == 0x3000),
{
}

proof fn white_space_at_the_end(s: Seq<char>)
    ensures
        trim_white_end(s).len() <= s.len(),
        trim_white_end(s) == s.take(trim_white_end(s).len() as int),
        forall|k: int| trim_white_end(s).len() <= k < s.len() ==> is_white(#[trigger] s[k]),
        trim_white_end(s).len() > 0 ==> !is_white(trim_white_end(s).last()),
    decreases s.len(),
{
    if s.len() > 0 && is_white(s.last()) {
        let t = s.drop_last();
        white_space_at_the_end(t);
        assert(t.take(trim_white_end(s).len() as int) == s.take(trim_white_end(s).len() as int));
        assert forall|k: int| trim_white_end(s).len() <= k < s.len() implies is_white(
            #[trigger] s[k],
        ) by {
            if k < t.len() {
                assert(t[k] == s[k]);
            }
        }
    } else {
        assert(s == s.take(s.len() as int));
    }
}

proof fn white_space_at_the_start(s: Seq<char>)
    ensures
        trim_white_start(s).len() <= s.len(),
        trim_white_start(s) == s.skip(s.len() - trim_white_start(s).len()),
        forall|k: int|
            0 <= k < s.len() - trim_white_start(s).len() ==> is_white(#[trigger] s[k]),
        trim_white_start(s).len() > 0 ==> !is_white(trim_white_start(s)[0]),
    decreases s.len(),
{
    if s.len() > 0 && is_white(s[0]) {
        let t = s.skip(1);
        white_space_at_the_start(t);
        assert(t.skip(t.len() - trim_white_start(s).len()) == s.skip(
            s.len() - trim_white_start(s).len(),
        ));
        assert forall|k: int| 0 <= k < s.len() - trim_white_start(s).len() implies is_white(
            #[trigger] s[k],
        ) by {
            if k > 0 {
                assert(t[k - 1] == s[k]);
            }
        }
    } else {
        assert(s == s.skip(0));
    }
}

/// Trimming a text takes away all the white space at its ends and nothing else.
pub proof fn trimming_takes_white_space_from_the_ends(s: Seq<char>) -> (ends: (int, int))
    ensures
        0 <= ends.0 <= ends.1 <= s.len(),
        trimmed(s) == s.subrange(ends.0, ends.1),
        forall|k: int| 0 <= k < ends.0 ==> is_white(#[trigger] s[k]),
        forall|k: int| ends.1 <= k < s.len() ==> is_white(#[trigger] s[k]),
        trimmed(s).len() > 0 ==> !is_white(trimmed(s)[0]) && !is_white(trimmed(s).last()),
{
    let t = trim_white_end(s);
    white_space_at_the_end(s);
    white_space_at_the_start(t);
    let from = t.len() - trimmed(s).len();
    assert(trimmed(s) == s.subrange(from, t.len() as int));
    assert forall|k: int| 0 <= k < from implies is_white(#[trigger] s[k]) by {
        assert(t[k] == s[k]);
    }
    (from, t.len() as int)
}

/// A text without white space at its ends is left as it is by trimming, and one
/// of white space alone is left empty.
pub proof fn trimming_leaves_the_rest(s: Seq<char>)
    ensures
        s.len() > 0 && !is_white(s[0]) && !is_white(s.last()) ==> trimmed(s) == s,
        (forall|k: int| 0 <= k < s.len() ==> is_white(#[trigger] s[k])) ==> trimmed(s).len() == 0,
{
    let (from, to) = trimming_takes_white_space_from_the_ends(s);
    if s.len() > 0 && !is_white(s[0]) && !is_white(s.last()) {
        assert(trim_white_end(s) == s);
    } else if trimmed(s).len() > 0 {
        assert(trimmed(s)[0] == s[from]);
    }
}

/// The first word of a text goes up to the first white space.
pub proof fn the_first_word_ends_at_white_space(s: Seq<char>)
    ensures
        first_word(s).is_prefix_of(s),
        forall|k: int| 0 <= k < first_word(s).len() ==> !is_white(#[trigger] first_word(s)[k]),
        first_word(s).len() < s.len() ==> is_white(s[first_word(s).len() as int]),
    decreases s.len(),
{
    if s.len() > 0 && !is_white(s[0]) {
        let rest = s.skip(1);
        let w = first_word(rest);
        the_first_word_ends_at_white_space(rest);
        assert(first_word(s) == seq![s[0]] + w);
        assert(s.take(first_word(s).len() as int) == first_word(s)) by {
            assert forall|k: int| 0 <= k < first_word(s).len() implies s[k] == first_word(s)[k] by {
                if k > 0 {
                    assert(first_word(s)[k] == w[k - 1]);
                    assert(w[k - 1] == rest.take(w.len() as int)[k - 1]);
                }
            }
        }
        assert forall|k: int| 0 <= k < first_word(s).len() implies !is_white(
            #[trigger] first_word(s)[k],
        ) by {
            if k > 0 {
                assert(first_word(s)[k] == w[k - 1]);
            }
        }
        if first_word(s).len() < s.len() {
            assert(s[first_word(s).len() as int] == rest[w.len() as int]);
        }
    }
}

// ---------------------------------------------------------------------------
// Single characters at the ends
// ---------------------------------------------------------------------------

/// Trimming a character takes all of it from the one end and nothing else.
pub proof fn trimming_a_character_takes_it_from_one_end(s: Seq<char>, c: char)
    ensures
        s == trim_end(s, c) + Seq::new((s.len() - trim_end(s, c).len()) as nat, |i: int| c),
        trim_end(s, c).len() > 0 ==> trim_end(s, c).last() != c,
        s == Seq::new((s.len() - trim_start(s, c).len()) as nat, |i: int| c) + trim_start(s, c),
        trim_start(s, c).len() > 0 ==> trim_start(s, c)[0] != c,
        trim_end(s, c).len() <= s.len(),
        trim_start(s, c).len() <= s.len(),
    decreases s.len(),
{
    if s.len() > 0 {
        if s.last() == c {
            let t = s.drop_last();
            trimming_a_character_takes_it_from_one_end(t, c);
            let n = (t.len() - trim_end(t, c).len()) as nat;
            assert(s == trim_end(t, c) + Seq::new(n + 1, |i: int| c)) by {
                assert(s == t.push(c));
                assert(Seq::new(n + 1, |i: int| c) == Seq::new(n, |i: int| c).push(c));
            }
        } else {
            assert(s == s + Seq::new(0, |i: int| c));
        }
        if s[0] == c {
            let t = s.skip(1);
            trimming_a_character_takes_it_from_one_end(t, c);
            let n = (t.len() - trim_start(t, c).len()) as nat;
            assert(s == Seq::new(n + 1, |i: int| c) + trim_start(t, c)) by {
                assert(s == seq![c] + t);
                assert(Seq::new(n + 1, |i: int| c) == seq![c] + Seq::new(n, |i: int| c));
            }
        } else {
            assert(s == Seq::new(0, |i: int| c) + s);
        }
    } else {
        assert(s == s + Seq::new(0, |i: int| c));
        assert(s == Seq::new(0, |i: int| c) + s);
    }
}

/// A text starts with another exactly when it is that text and something behind
/// it.
pub proof fn a_text_starts_with_its_beginning(s: Seq<char>, prefix: Seq<char>, rest: Seq<char>)
    ensures
        s == prefix + rest ==> starts_with(s, prefix),
        starts_with(s, prefix) ==> s == prefix + s.skip(prefix.len() as int),
{
    if s == prefix + rest {
        assert(s.take(prefix.len() as int) == prefix);
    }
    if starts_with(s, prefix) {
        assert(s == s.take(prefix.len() as int) + s.skip(prefix.len() as int));
    }
}

// ---------------------------------------------------------------------------
// Pieces and lines
// ---------------------------------------------------------------------------

/// A text is cut at each separator and nowhere else: the pieces of two texts with
/// a separator between them are the pieces of the one and then those of the
/// other, and a text without a separator is one piece.
pub proof fn texts_are_cut_at_separators(a: Seq<char>, b: Seq<char>, sep: char)
    ensures
        split(a.push(sep) + b, sep) == split(a, sep) + split(b, sep),
        !a.contains(sep) ==> split(a, sep) == seq![a],
    decreases b.len(),
{
    if !a.contains(sep) {
        one_piece(a, sep);
    }
    split_pieces(a, sep);
    split_pieces(b, sep);
    let all = a.push(sep) + b;
    if b.len() == 0 {
        assert(all == a.push(sep));
        assert(all.drop_last() == a);
        assert(split(a, sep) + split(b, sep) == split(a, sep).push(Seq::empty()));
    } else {
        let c = b.drop_last();
        texts_are_cut_at_separators(a, c, sep);
        split_pieces(c, sep);
        assert(all.drop_last() == a.push(sep) + c);
        assert(all.last() == b.last());
        let front = split(a, sep) + split(c, sep);
        if b.last() == sep {
            assert(front.push(Seq::empty()) == split(a, sep) + split(b, sep));
        } else {
            assert(front.last() == split(c, sep).last());
            assert(front.drop_last().push(front.last().push(b.last())) == split(a, sep) + split(
                b,
                sep,
            ));
        }
    }
}

proof fn one_piece(a: Seq<char>, sep: char)
    requires
        !a.contains(sep),
    ensures
        split(a, sep) == seq![a],
    decreases a.len(),
{
    if a.len() > 0 {
        let t = a.drop_last();
        assert(a.contains(a.last()));
        assert forall|k: int| 0 <= k < t.len() implies t[k] != sep by {
            assert(a.contains(a[k]));
        }
        one_piece(t, sep);
        assert(split(a, sep) == seq![t.push(a.last())]);
        assert(t.push(a.last()) == a);
    } else {
        assert(a == Seq::<char>::empty());
    }
}

/// Every line of a text is read: a line ends at a line feed, which may have a
/// carriage return before it, and what follows the last one is a line if there is
/// anything.
pub proof fn every_line_of_a_text_is_read(line: Seq<char>, rest: Seq<char>)
    requires
        !line.contains('\n'),
    ensures
        lines(line.push('\n') + rest) == seq![
            if line.len() > 0 && line.last() == '\r' {
                line.drop_last()
            } else {
                line
            },
        ] + lines(rest),
        line.len() > 0 ==> lines(line) == seq![line],
        lines(Seq::empty()) == Seq::<Seq<char>>::empty(),
{
    texts_are_cut_at_separators(line, rest, '\n');
    split_pieces(rest, '\n');
    let all = split(line.push('\n') + rest, '\n');
    let more = split(rest, '\n');
    assert(all == seq![line] + more);
    assert(all.last() == more.last());
    assert(all.drop_last() == seq![line] + more.drop_last());
    let f = |l: Seq<char>| strip_return(l);
    assert(all.drop_last().map_values(f) == seq![strip_return(line)] + more.drop_last().map_values(
        f,
    ));
    let ended = more.drop_last().map_values(f);
    assert(seq![strip_return(line)] + ended.push(more.last()) == (seq![strip_return(line)]
        + ended).push(more.last()));
    one_piece(line, '\n');
    assert(seq![line].drop_last() == Seq::<Seq<char>>::empty());
    assert(Seq::<Seq<char>>::empty().map_values(f) == Seq::<Seq<char>>::empty());
    assert(Seq::<Seq<char>>::empty().push(line) == seq![line]);
    assert(seq![Seq::<char>::empty()].drop_last() == Seq::<Seq<char>>::empty());
}

/// Each occurrence of a character is replaced, and every other character stays.
pub proof fn each_occurrence_is_replaced(
    a: Seq<char>,
    b: Seq<char>,
    c: char,
    d: char,
    with: Seq<char>,
)
    ensures
        replaced(a + b, c, with) == replaced(a, c, with) + replaced(b, c, with),
        replaced(seq![c], c, with) == with,
        d != c ==> replaced(seq![d], c, with) == seq![d],
        replaced(Seq::empty(), c, with) == Seq::<char>::empty(),
    decreases b.len(),
{
    reveal_with_fuel(replaced, 2);
    assert(seq![c].drop_last() == Seq::<char>::empty());
    assert(seq![d].drop_last() == Seq::<char>::empty());
    assert(Seq::<char>::empty() + with == with);
    if b.len() == 0 {
        assert(a + b == a);
        assert(replaced(a, c, with) + replaced(b, c, with) == replaced(a, c, with));
    } else {
        assert((a + b).drop_last() == a + b.drop_last());
        each_occurrence_is_replaced(a, b.drop_last(), c, d, with);
        let last = if b.last() == c {
            with
        } else {
            seq![b.last()]
        };
        assert(replaced(a, c, with) + (replaced(b.drop_last(), c, with) + last) == (replaced(
            a,
            c,
            with,
        ) + replaced(b.drop_last(), c, with)) + last);
    }
}

// ---------------------------------------------------------------------------
// Numbers and bytes
// ---------------------------------------------------------------------------

/// A negative number is written as its opposite behind a minus sign, any other as
/// it is.
pub proof fn numbers_below_zero_have_a_minus_sign(n: nat)
    ensures
        signed_decimal(n as int) == decimal(n),
        n > 0 ==> signed_decimal(-(n as int)) == seq!['-'] + decimal(n),
{
}

/// Bytes that encode a text are shown as that text.
pub proof fn texts_are_shown_as_they_are(s: Seq<char>)
    ensures
        utf8_lossy(encode_utf8(s)) == s,
{
    encode_utf8_valid_utf8(s);
    encode_utf8_decode_utf8(s);
}

/// Upper-case letters have their lower-case ones, and every other character is
/// its own.
pub proof fn letters_have_lower_cases(c: char)
    ensures
        'A' <= c <= 'Z' ==> ascii_lower(c) as u32 == c as u32 + 32 && 'a' <= ascii_lower(c) <= 'z',
        !('A' <= c <= 'Z') ==> ascii_lower(c) == c,
{
}

} // verus!
