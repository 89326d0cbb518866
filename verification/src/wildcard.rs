//! Patterns for the names of files and directories: `*` stands for any
//! characters, `?` for exactly one, and case makes no difference.

use vstd::prelude::*;
use vstd::slice::slice_subrange;
#[allow(unused_imports)]
use vstd::utf8::is_ascii_chars;

use crate::text::{chars_of, lower_text, part, text_of};
#[allow(unused_imports)]
use crate::text::{ascii_lower, lower_case, pieces};

verus! {

// ---------------------------------------------------------------------------
// Lower case, character by character
// ---------------------------------------------------------------------------

/// The lower case of a character that stands alone, which may be more than one
/// character.
pub open spec fn lower_alone(c: char) -> Seq<char> {
    if lower_case(seq![c]).len() == 0 {
        seq![c]
    } else {
        lower_case(seq![c])
    }
}

/// The lower case of each character, as if it stood alone.
pub open spec fn lowered_apart(s: Seq<char>) -> Seq<Seq<char>> {
    s.map_values(|c: char| lower_alone(c))
}

/// The pieces in a row.
pub open spec fn flat(v: Seq<Seq<char>>) -> Seq<char>
    decreases v.len(),
{
    if v.len() == 0 {
        Seq::empty()
    } else {
        flat(v.drop_last()) + v.last()
    }
}

/// `t` cut into pieces that are as long as those of `like`.
pub open spec fn cut(t: Seq<char>, like: Seq<Seq<char>>) -> Seq<Seq<char>>
    decreases like.len(),
{
    if like.len() == 0 {
        Seq::empty()
    } else {
        let n = like[0].len() as int;
        seq![t.take(n)] + cut(t.skip(n), like.skip(1))
    }
}

/// Whether the lower case of a text falls into those of its characters.
pub open spec fn falls_apart(s: Seq<char>) -> bool {
    flat(lowered_apart(s)).len() == lower_case(s).len()
}

/// What each character of a text has become in its lower case. That of a
/// sigma depends on where it stands, so the text is put in lower case as a
/// whole, and then cut.
pub open spec fn letters(s: Seq<char>) -> Seq<Seq<char>> {
    if falls_apart(s) {
        cut(lower_case(s), lowered_apart(s))
    } else {
        lowered_apart(s)
    }
}

/// A text in lower case.
pub open spec fn lowered(s: Seq<char>) -> Seq<char> {
    flat(letters(s))
}

/// What the characters of an ASCII text become in its lower case.
pub open spec fn ascii_letters(s: Seq<char>) -> Seq<Seq<char>> {
    s.map_values(|c: char| seq![ascii_lower(c)])
}

// ---------------------------------------------------------------------------
// Names and patterns
// ---------------------------------------------------------------------------

/// One character of the lower case of a name.
#[derive(Clone, Copy, PartialEq, Eq, Structural, Debug)]
pub struct Letter {
    pub c: char,
    /// Whether it is the first that a character of the name has become.
    pub first: bool,
}

/// One letter of those that a character has become.
pub open spec fn letter_at(l: Seq<char>, i: int) -> Letter {
    Letter { c: l[i], first: i == 0 }
}

/// What a character of a name has become.
pub open spec fn marked(l: Seq<char>) -> Seq<Letter> {
    Seq::new(l.len(), |i: int| letter_at(l, i))
}

/// What the characters of a name have become, in a row.
pub open spec fn marked_all(v: Seq<Seq<char>>) -> Seq<Letter>
    decreases v.len(),
{
    if v.len() == 0 {
        Seq::empty()
    } else {
        marked_all(v.drop_last()) + marked(v.last())
    }
}

/// How many letters belong to the first character.
pub open spec fn first_len(name: Seq<Letter>) -> nat
    decreases name.len(),
{
    if name.len() == 0 {
        0
    } else if name.len() == 1 || name[1].first {
        1
    } else {
        1 + first_len(name.skip(1))
    }
}

/// One part of a pattern.
#[derive(Clone, Copy, PartialEq, Eq, Structural, Debug)]
pub enum Token {
    /// Any characters.
    Star,
    /// One character.
    One,
    /// This letter.
    Exact(char),
}

/// A letter that stands for itself.
pub open spec fn exact(c: char) -> Token {
    Token::Exact(c)
}

/// Letters that stand for themselves.
pub open spec fn exactly(l: Seq<char>) -> Seq<Token> {
    l.map_values(|c: char| exact(c))
}

/// What a character of a pattern stands for, where `l` is what it has become
/// in lower case.
pub open spec fn token(c: char, l: Seq<char>) -> Seq<Token> {
    if c == '*' {
        seq![Token::Star]
    } else if c == '?' {
        seq![Token::One]
    } else {
        exactly(l)
    }
}

/// What the characters of a pattern stand for.
pub open spec fn tokens_by(pattern: Seq<char>, l: Seq<Seq<char>>) -> Seq<Token>
    decreases pattern.len(),
{
    if pattern.len() == 0 {
        Seq::empty()
    } else {
        tokens_by(pattern.drop_last(), l.drop_last()) + token(pattern.last(), l.last())
    }
}

/// A pattern.
pub open spec fn tokens(pattern: Seq<char>) -> Seq<Token> {
    tokens_by(pattern, letters(pattern))
}

/// Whether a name fits a pattern.
pub open spec fn fits(pattern: Seq<Token>, name: Seq<Letter>) -> bool
    decreases pattern.len(),
{
    if pattern.len() == 0 {
        name.len() == 0
    } else {
        match pattern[0] {
            Token::Star => exists|k: int|
                0 <= k <= name.len() && fits(pattern.skip(1), #[trigger] name.skip(k)),
            Token::One => name.len() > 0 && name[0].first && fits(
                pattern.skip(1),
                name.skip(first_len(name) as int),
            ),
            Token::Exact(c) => name.len() > 0 && name[0].c == c && fits(
                pattern.skip(1),
                name.skip(1),
            ),
        }
    }
}

/// Whether `name` fits `pattern` when case makes no difference.
pub open spec fn matches_name(pattern: Seq<char>, name: Seq<char>) -> bool {
    fits(tokens(pattern), marked_all(letters(name)))
}

// ---------------------------------------------------------------------------
// Matching
// ---------------------------------------------------------------------------

fn first_len_of(name: &[Letter]) -> (n: usize)
    requires
        name@.len() > 0,
    ensures
        n == first_len(name@),
        0 < n <= name@.len(),
{
    let mut n: usize = 1;
    assert(name@.skip(0) == name@);
    while n < name.len() && !name[n].first
        invariant
            0 < n <= name@.len(),
            first_len(name@) == n - 1 + first_len(name@.skip(n - 1)),
        decreases name@.len() - n,
    {
        assert(name@.skip(n - 1).skip(1) == name@.skip(n as int));
        assert(name@.skip(n - 1)[1] == name@[n as int]);
        n += 1;
    }
    proof {
        let rest = name@.skip(n - 1);
        if n < name@.len() {
            assert(rest[1] == name@[n as int]);
        }
    }
    n
}

/// Whether a name fits a pattern.
pub fn wildcard_match_inner(pattern: &[Token], name: &[Letter]) -> (b: bool)
    ensures
        b == fits(pattern@, name@),
    decreases pattern@.len() + name@.len(),
{
    let ghost p = pattern@;
    let ghost n = name@;
    if pattern.len() == 0 {
        return name.len() == 0;
    }
    let rest = slice_subrange(pattern, 1, pattern.len());
    assert(rest@ == p.skip(1));
    match pattern[0] {
        Token::Star => {
            if wildcard_match_inner(rest, name) {
                assert(n.skip(0) == n);
                return true;
            }
            if name.len() == 0 {
                assert forall|k: int| 0 <= k <= n.len() implies !fits(
                    p.skip(1),
                    #[trigger] n.skip(k),
                ) by {
                    assert(n.skip(k) == n);
                }
                return false;
            }
            let tail = slice_subrange(name, 1, name.len());
            assert(tail@ == n.skip(1));
            let b = wildcard_match_inner(pattern, tail);
            proof {
                let t = tail@;
                if b {
                    let k = choose|k: int|
                        0 <= k <= t.len() && fits(p.skip(1), #[trigger] t.skip(k));
                    assert(n.skip(k + 1) == t.skip(k));
                } else {
                    assert forall|k: int| 0 <= k <= n.len() implies !fits(
                        p.skip(1),
                        #[trigger] n.skip(k),
                    ) by {
                        if k == 0 {
                            assert(n.skip(0) == n);
                        } else {
                            assert(n.skip(k) == t.skip(k - 1));
                        }
                    }
                }
            }
            b
        },
        Token::One => {
            if name.len() == 0 || !name[0].first {
                return false;
            }
            let k = first_len_of(name);
            let tail = slice_subrange(name, k, name.len());
            assert(tail@ == n.skip(k as int));
            wildcard_match_inner(rest, tail)
        },
        Token::Exact(c) => {
            if name.len() == 0 || name[0].c != c {
                return false;
            }
            let tail = slice_subrange(name, 1, name.len());
            assert(tail@ == n.skip(1));
            wildcard_match_inner(rest, tail)
        },
    }
}

fn lower_alone_of(c: char) -> (r: Vec<char>)
    ensures
        r@ == lower_alone(c),
        c <= '\u{7f}' ==> r@ == seq![ascii_lower(c)],
{
    let mut one: Vec<char> = Vec::new();
    one.push(c);
    assert(one@ == seq![c]);
    let low = lower_text(text_of(&one).as_str());
    let r = chars_of(low.as_str());
    assert(c <= '\u{7f}' ==> r@ == seq![ascii_lower(c)]) by {
        if c <= '\u{7f}' {
            assert(is_ascii_chars(seq![c]));
            assert(seq![c].map_values(|c: char| ascii_lower(c)) == seq![ascii_lower(c)]);
        }
    }
    if r.len() == 0 {
        one
    } else {
        r
    }
}

fn lowered_apart_of(v: &[char]) -> (r: Vec<Vec<char>>)
    ensures
        pieces(r@) == lowered_apart(v@),
        is_ascii_chars(v@) ==> pieces(r@) == ascii_letters(v@),
{
    let mut r: Vec<Vec<char>> = Vec::new();
    let ghost all = lowered_apart(v@);
    let ghost ascii = ascii_letters(v@);
    let mut i: usize = 0;
    assert(pieces(r@) == all.take(0));
    while i < v.len()
        invariant
            i <= v@.len(),
            all == lowered_apart(v@),
            ascii == ascii_letters(v@),
            pieces(r@) == all.take(i as int),
            is_ascii_chars(v@) ==> pieces(r@) == ascii.take(i as int),
        decreases v@.len() - i,
    {
        let ghost before = r@;
        let l = lower_alone_of(v[i]);
        r.push(l);
        assert(pieces(r@) == pieces(before).push(l@));
        assert(all.take(i + 1) == all.take(i as int).push(all[i as int]));
        assert(ascii.take(i + 1) == ascii.take(i as int).push(ascii[i as int]));
        i += 1;
    }
    assert(all.take(i as int) == all);
    assert(ascii.take(i as int) == ascii);
    r
}

proof fn flat_grows(v: Seq<Seq<char>>, i: int)
    requires
        0 <= i <= v.len(),
    ensures
        flat(v.take(i)).len() <= flat(v).len(),
    decreases v.len() - i,
{
    if i < v.len() {
        assert(v.take(i + 1).drop_last() == v.take(i));
        flat_grows(v, i + 1);
    } else {
        assert(v.take(i) == v);
    }
}

/// Whether the pieces are together as long as `n`.
fn are_as_long(v: &[Vec<char>], n: usize) -> (b: bool)
    ensures
        b == (flat(pieces(v@)).len() == n),
{
    let ghost all = pieces(v@);
    let mut left: usize = n;
    let mut i: usize = 0;
    assert(all.take(0).len() == 0);
    while i < v.len()
        invariant
            i <= v@.len(),
            all == pieces(v@),
            flat(all.take(i as int)).len() + left == n,
        decreases v@.len() - i,
    {
        assert(all.take(i + 1).drop_last() == all.take(i as int));
        assert(all[i as int] == v@[i as int]@);
        if v[i].len() > left {
            proof {
                flat_grows(all, i + 1);
            }
            return false;
        }
        left -= v[i].len();
        i += 1;
    }
    assert(all.take(i as int) == all);
    left == 0
}

proof fn flat_from_the_front(v: Seq<Seq<char>>)
    requires
        v.len() > 0,
    ensures
        flat(v) == v[0] + flat(v.skip(1)),
    decreases v.len(),
{
    if v.len() == 1 {
        reveal_with_fuel(flat, 2);
        assert(v.drop_last().len() == 0);
        assert(v.skip(1).len() == 0);
        assert(flat(v) == v[0] + flat(v.skip(1)));
    } else {
        flat_from_the_front(v.drop_last());
        assert(v.drop_last().skip(1) == v.skip(1).drop_last());
        assert(v.skip(1).last() == v.last());
        assert(flat(v) == v[0] + flat(v.skip(1)));
    }
}

fn cut_like(t: &[char], like: &[Vec<char>]) -> (r: Vec<Vec<char>>)
    requires
        flat(pieces(like@)).len() == t@.len(),
    ensures
        pieces(r@) == cut(t@, pieces(like@)),
{
    let ghost all = pieces(like@);
    let total: usize = t.len();
    let mut r: Vec<Vec<char>> = Vec::new();
    let mut at: usize = 0;
    let mut i: usize = 0;
    assert(t@.skip(0) == t@);
    assert(all.skip(0) == all);
    assert(pieces(r@) + cut(t@, all) == cut(t@, all));
    while i < like.len()
        invariant
            i <= like@.len(),
            at <= t@.len(),
            total == t@.len(),
            all == pieces(like@),
            flat(all.skip(i as int)).len() == t@.len() - at,
            pieces(r@) + cut(t@.skip(at as int), all.skip(i as int)) == cut(t@, all),
        decreases like@.len() - i,
    {
        let ghost left = all.skip(i as int);
        let ghost before = r@;
        assert(left[0] == like@[i as int]@);
        assert(left.skip(1) == all.skip(i + 1));
        proof {
            flat_from_the_front(left);
        }
        let n = like[i].len();
        assert(flat(left).len() == n + flat(left.skip(1)).len());
        let p = part(t, at, at + n);
        assert(p@ == t@.skip(at as int).take(n as int));
        assert(t@.skip(at as int).skip(n as int) == t@.skip(at + n));
        r.push(p);
        assert(pieces(r@) == pieces(before).push(p@));
        assert(pieces(before) + (seq![p@] + cut(t@.skip(at + n), all.skip(i + 1))) == pieces(r@)
            + cut(t@.skip(at + n), all.skip(i + 1)));
        at += n;
        i += 1;
    }
    assert(all.skip(i as int).len() == 0);
    assert(pieces(r@) + cut(t@.skip(at as int), all.skip(i as int)) == pieces(r@));
    r
}

proof fn cut_into_singles(t: Seq<char>, like: Seq<Seq<char>>)
    requires
        t.len() == like.len(),
        forall|i: int| 0 <= i < like.len() ==> (#[trigger] like[i]).len() == 1,
    ensures
        cut(t, like) == t.map_values(|c: char| seq![c]),
        flat(like).len() == like.len(),
    decreases like.len(),
{
    if like.len() > 0 {
        let rest = like.skip(1);
        assert forall|i: int| 0 <= i < rest.len() implies (#[trigger] rest[i]).len() == 1 by {
            assert(rest[i] == like[i + 1]);
        }
        cut_into_singles(t.skip(1), rest);
        flat_from_the_front(like);
        assert(t.take(1) == seq![t[0]]);
        assert(cut(t, like) == t.map_values(|c: char| seq![c]));
    }
}

/// What each character of a text has become in its lower case.
pub fn letters_of(s: &str) -> (r: Vec<Vec<char>>)
    ensures
        pieces(r@) == letters(s@),
        is_ascii_chars(s@) ==> pieces(r@) == ascii_letters(s@),
{
    let v = chars_of(s);
    let low = lower_text(s);
    let whole = chars_of(low.as_str());
    let apart = lowered_apart_of(&v);
    proof {
        if is_ascii_chars(s@) {
            let like = ascii_letters(s@);
            assert(forall|i: int| 0 <= i < like.len() ==> (#[trigger] like[i]).len() == 1);
            cut_into_singles(whole@, like);
            assert(whole@.map_values(|c: char| seq![c]) == like);
        }
    }
    if are_as_long(&apart, whole.len()) {
        cut_like(&whole, &apart)
    } else {
        apart
    }
}

fn push_marked(r: &mut Vec<Letter>, l: &[char])
    ensures
        final(r)@ == old(r)@ + marked(l@),
{
    let mut i: usize = 0;
    assert(r@ == old(r)@ + marked(l@).take(0));
    while i < l.len()
        invariant
            i <= l@.len(),
            r@ == old(r)@ + marked(l@).take(i as int),
        decreases l@.len() - i,
    {
        r.push(Letter { c: l[i], first: i == 0 });
        assert(marked(l@).take(i + 1) == marked(l@).take(i as int).push(marked(l@)[i as int]));
        i += 1;
    }
    assert(marked(l@).take(i as int) == marked(l@));
}

/// A name, letter by letter.
pub fn marked_letters(v: &[Vec<char>]) -> (r: Vec<Letter>)
    ensures
        r@ == marked_all(pieces(v@)),
{
    let ghost all = pieces(v@);
    let mut r: Vec<Letter> = Vec::new();
    let mut i: usize = 0;
    assert(all.take(0).len() == 0);
    while i < v.len()
        invariant
            i <= v@.len(),
            all == pieces(v@),
            r@ == marked_all(all.take(i as int)),
        decreases v@.len() - i,
    {
        assert(all.take(i + 1).drop_last() == all.take(i as int));
        assert(all[i as int] == v@[i as int]@);
        push_marked(&mut r, &v[i]);
        i += 1;
    }
    assert(all.take(i as int) == all);
    r
}

fn push_exact(r: &mut Vec<Token>, l: &[char])
    ensures
        final(r)@ == old(r)@ + exactly(l@),
{
    let mut i: usize = 0;
    assert(r@ == old(r)@ + exactly(l@).take(0));
    while i < l.len()
        invariant
            i <= l@.len(),
            r@ == old(r)@ + exactly(l@).take(i as int),
        decreases l@.len() - i,
    {
        r.push(Token::Exact(l[i]));
        assert(exactly(l@).take(i + 1) == exactly(l@).take(i as int).push(exactly(l@)[i as int]));
        i += 1;
    }
    assert(exactly(l@).take(i as int) == exactly(l@));
}

proof fn cutting_keeps_the_number(t: Seq<char>, like: Seq<Seq<char>>)
    ensures
        cut(t, like).len() == like.len(),
    decreases like.len(),
{
    if like.len() > 0 {
        cutting_keeps_the_number(t.skip(like[0].len() as int), like.skip(1));
    }
}

/// Every character of a text has become something.
pub proof fn each_character_has_its_letters(s: Seq<char>)
    ensures
        letters(s).len() == s.len(),
        forall|i: int| 0 <= i < s.len() ==> (#[trigger] letters(s)[i]).len() > 0,
        flat(letters(s)) == (if falls_apart(s) {
            lower_case(s)
        } else {
            flat(lowered_apart(s))
        }),
{
    cutting_keeps_the_number(lower_case(s), lowered_apart(s));
    if falls_apart(s) {
        cutting_keeps_the_lengths(lower_case(s), lowered_apart(s));
    }
}

proof fn cutting_keeps_the_lengths(t: Seq<char>, like: Seq<Seq<char>>)
    requires
        flat(like).len() == t.len(),
    ensures
        cut(t, like).len() == like.len(),
        forall|i: int| 0 <= i < like.len() ==> (#[trigger] cut(t, like)[i]).len() == like[i].len(),
        flat(cut(t, like)) == t,
    decreases like.len(),
{
    let v = cut(t, like);
    if like.len() > 0 {
        let n = like[0].len() as int;
        flat_from_the_front(like);
        cutting_keeps_the_lengths(t.skip(n), like.skip(1));
        flat_from_the_front(v);
        let rest = cut(t.skip(n), like.skip(1));
        assert(v.skip(1) == rest);
        assert(t == t.take(n) + t.skip(n));
        assert forall|i: int| 0 <= i < like.len() implies (#[trigger] v[i]).len()
            == like[i].len() by {
            if i > 0 {
                assert(v[i] == rest[i - 1]);
                assert(like.skip(1)[i - 1] == like[i]);
            }
        }
    } else {
        assert(t == Seq::<char>::empty());
    }
}

/// A pattern.
pub fn tokens_of(pattern: &str) -> (r: Vec<Token>)
    ensures
        r@ == tokens(pattern@),
        is_ascii_chars(pattern@) ==> r@ == tokens_by(pattern@, ascii_letters(pattern@)),
{
    let v = chars_of(pattern);
    let l = letters_of(pattern);
    let ghost all = pieces(l@);
    proof {
        each_character_has_its_letters(pattern@);
    }
    let mut r: Vec<Token> = Vec::new();
    let mut i: usize = 0;
    assert(v@.take(0).len() == 0);
    while i < v.len()
        invariant
            i <= v@.len(),
            v@.len() == l@.len(),
            all == pieces(l@),
            r@ == tokens_by(v@.take(i as int), all.take(i as int)),
        decreases v@.len() - i,
    {
        assert(v@.take(i + 1).drop_last() == v@.take(i as int));
        assert(all.take(i + 1).drop_last() == all.take(i as int));
        assert(all[i as int] == l@[i as int]@);
        let ghost before = r@;
        if v[i] == '*' {
            r.push(Token::Star);
            assert(r@ == before + seq![Token::Star]);
        } else if v[i] == '?' {
            r.push(Token::One);
            assert(r@ == before + seq![Token::One]);
        } else {
            push_exact(&mut r, &l[i]);
        }
        i += 1;
    }
    assert(v@.take(i as int) == v@);
    assert(all.take(i as int) == all);
    r
}

/// Matches a name against a pattern that may hold `*` (any characters) and
/// `?` (a single character). Case makes no difference: both are put in lower
/// case first. A `?` stands for one character of the name as it was, however
/// many its lower case has.
pub fn wildcard_matches(pattern: &str, name: &str) -> (b: bool)
    ensures
        b == matches_name(pattern@, name@),
        is_ascii_chars(pattern@) && is_ascii_chars(name@) ==> b == fits(
            tokens_by(pattern@, ascii_letters(pattern@)),
            marked_all(ascii_letters(name@)),
        ),
        is_ascii_chars(pattern@) && is_ascii_chars(name@) ==> b == fits_ascii(pattern@, name@),
{
    let p = tokens_of(pattern);
    let n = marked_letters(&letters_of(name));
    proof {
        ascii_patterns_go_character_by_character(pattern@, name@);
    }
    wildcard_match_inner(&p, &n)
}

// ---------------------------------------------------------------------------
// Laws
// ---------------------------------------------------------------------------

/// Whether an ASCII name fits an ASCII pattern: a star stands for any characters,
/// a question mark for one, and any other character for itself in either case.
pub open spec fn fits_ascii(pattern: Seq<char>, name: Seq<char>) -> bool
    decreases pattern.len(),
{
    if pattern.len() == 0 {
        name.len() == 0
    } else if pattern[0] == '*' {
        exists|k: int|
            0 <= k <= name.len() && fits_ascii(pattern.skip(1), #[trigger] name.skip(k))
    } else {
        &&& name.len() > 0
        &&& pattern[0] == '?' || ascii_lower(pattern[0]) == ascii_lower(name[0])
        &&& fits_ascii(pattern.skip(1), name.skip(1))
    }
}

/// An ASCII letter of a name.
spec fn ascii_letter(c: char) -> Letter {
    Letter { c: ascii_lower(c), first: true }
}

proof fn ascii_names_have_single_letters(name: Seq<char>)
    ensures
        marked_all(ascii_letters(name)) == name.map_values(|c: char| ascii_letter(c)),
    decreases name.len(),
{
    let v = ascii_letters(name);
    let all = name.map_values(|c: char| ascii_letter(c));
    if name.len() > 0 {
        let front = name.drop_last();
        ascii_names_have_single_letters(front);
        assert(ascii_letters(front) == v.drop_last());
        assert(marked(v.last()) == seq![ascii_letter(name.last())]);
        assert(front.map_values(|c: char| ascii_letter(c)) == all.drop_last());
        assert(all == all.drop_last() + seq![ascii_letter(name.last())]);
    } else {
        assert(all == Seq::<Letter>::empty());
    }
}

/// On ASCII texts a pattern fits as it reads, one character after the other.
pub proof fn ascii_patterns_go_character_by_character(pattern: Seq<char>, name: Seq<char>)
    ensures
        fits(tokens_by(pattern, ascii_letters(pattern)), marked_all(ascii_letters(name)))
            == fits_ascii(pattern, name),
    decreases pattern.len(),
{
    let l = ascii_letters(pattern);
    let all = marked_all(ascii_letters(name));
    ascii_names_have_single_letters(name);
    if pattern.len() > 0 {
        let c = pattern[0];
        let rest = pattern.skip(1);
        tokens_of_two(pattern.take(1), rest, l);
        assert(pattern == pattern.take(1) + rest);
        assert(l.skip(1) == ascii_letters(rest));
        let t = tokens_by(pattern, l);
        let one = tokens_by(pattern.take(1), l.take(1));
        reveal_with_fuel(tokens_by, 2);
        assert(pattern.take(1).drop_last() == Seq::<char>::empty());
        assert(one == token(c, seq![ascii_lower(c)]));
        assert(one.len() == 1);
        if c != '*' && c != '?' {
            assert(exactly(seq![ascii_lower(c)])[0] == exact(ascii_lower(c)));
        }
        assert(t.skip(1) == tokens_by(rest, ascii_letters(rest)));
        assert(t[0] == one[0]);
        if c == '*' {
            assert forall|k: int| 0 <= k <= name.len() implies fits(
                t.skip(1),
                #[trigger] all.skip(k),
            ) == fits_ascii(rest, name.skip(k)) by {
                ascii_patterns_go_character_by_character(rest, name.skip(k));
                ascii_names_have_single_letters(name.skip(k));
                assert(all.skip(k) == name.skip(k).map_values(|c: char| ascii_letter(c)));
            }
            if fits(t, all) {
                let k = choose|k: int|
                    0 <= k <= all.len() && fits(t.skip(1), #[trigger] all.skip(k));
                assert(fits_ascii(rest, name.skip(k)));
            }
            if fits_ascii(pattern, name) {
                let k = choose|k: int|
                    0 <= k <= name.len() && fits_ascii(rest, #[trigger] name.skip(k));
                assert(fits(t.skip(1), all.skip(k)));
            }
        } else if name.len() > 0 {
            ascii_patterns_go_character_by_character(rest, name.skip(1));
            ascii_names_have_single_letters(name.skip(1));
            assert(all.skip(1) == name.skip(1).map_values(|c: char| ascii_letter(c)));
            assert(all[0] == ascii_letter(name[0]));
            if name.len() > 1 {
                assert(all[1] == ascii_letter(name[1]));
            }
            assert(first_len(all) == 1);
        }
    } else {
        assert(tokens_by(pattern, l) == Seq::<Token>::empty());
    }
}

/// A pattern is read from its front: nothing fits the empty pattern but nothing,
/// a letter takes itself away from the name, a question mark a whole character,
/// and a star any number of letters.
pub proof fn a_pattern_is_read_from_its_front(rest: Seq<Token>, name: Seq<Letter>, c: char)
    ensures
        fits(Seq::empty(), name) <==> name.len() == 0,
        fits(seq![Token::Exact(c)] + rest, name) <==> name.len() > 0 && name[0].c == c && fits(
            rest,
            name.skip(1),
        ),
        fits(seq![Token::One] + rest, name) <==> name.len() > 0 && name[0].first && fits(
            rest,
            name.skip(first_len(name) as int),
        ),
        fits(seq![Token::Star] + rest, name) <==> exists|k: int|
            0 <= k <= name.len() && fits(rest, #[trigger] name.skip(k)),
{
    let a = seq![Token::Exact(c)] + rest;
    let b = seq![Token::One] + rest;
    let d = seq![Token::Star] + rest;
    assert(a[0] == Token::Exact(c));
    assert(b[0] == Token::One);
    assert(d[0] == Token::Star);
    assert(a.skip(1) == rest);
    assert(b.skip(1) == rest);
    assert(d.skip(1) == rest);
}

/// A character of a name goes up to the letter that begins the next one.
pub proof fn a_character_goes_up_to_the_next(name: Seq<Letter>)
    requires
        name.len() > 0,
    ensures
        0 < first_len(name) <= name.len(),
        forall|i: int| 0 < i < first_len(name) ==> !(#[trigger] name[i]).first,
        first_len(name) < name.len() ==> name[first_len(name) as int].first,
    decreases name.len(),
{
    if name.len() > 1 && !name[1].first {
        let rest = name.skip(1);
        a_character_goes_up_to_the_next(rest);
        assert forall|i: int| 0 < i < first_len(name) implies !(#[trigger] name[i]).first by {
            if i > 1 {
                assert(rest[i - 1] == name[i]);
            }
        }
        if first_len(name) < name.len() {
            assert(rest[first_len(rest) as int] == name[first_len(name) as int]);
        }
    }
}

/// A pattern stands for what its characters stand for, one after the other: a
/// star, a question mark, or the letters of the character.
pub proof fn patterns_are_read_character_by_character(
    a: Seq<char>,
    b: Seq<char>,
    l: Seq<Seq<char>>,
    c: char,
    lower: Seq<char>,
)
    requires
        l.len() == a.len() + b.len(),
    ensures
        tokens_by(a + b, l) == tokens_by(a, l.take(a.len() as int)) + tokens_by(
            b,
            l.skip(a.len() as int),
        ),
        tokens_by(seq!['*'], seq![lower]) == seq![Token::Star],
        tokens_by(seq!['?'], seq![lower]) == seq![Token::One],
        c != '*' && c != '?' ==> tokens_by(seq![c], seq![lower]).len() == lower.len() && forall|
            i: int,
        |
            0 <= i < lower.len() ==> (#[trigger] tokens_by(seq![c], seq![lower])[i]) == exact(
                lower[i],
            ),
        tokens(a) == tokens_by(a, letters(a)),
{
    tokens_of_two(a, b, l);
    reveal_with_fuel(tokens_by, 2);
    assert(seq!['*'].drop_last() == Seq::<char>::empty());
    assert(seq!['?'].drop_last() == Seq::<char>::empty());
    assert(seq![c].drop_last() == Seq::<char>::empty());
}

/// The letters of a name.
pub open spec fn bare(name: Seq<Letter>) -> Seq<char> {
    name.map_values(|l: Letter| l.c)
}

proof fn bare_letters(v: Seq<Seq<char>>)
    ensures
        bare(marked_all(v)) == flat(v),
    decreases v.len(),
{
    if v.len() > 0 {
        bare_letters(v.drop_last());
        assert(bare(marked(v.last())) == v.last());
        assert(bare(marked_all(v)) == bare(marked_all(v.drop_last())) + bare(marked(v.last())));
    } else {
        assert(bare(marked_all(v)) == flat(v));
    }
}

proof fn only_the_letters_matter(p: Seq<Token>, a: Seq<Letter>, b: Seq<Letter>)
    requires
        !p.contains(Token::One),
        bare(a) == bare(b),
    ensures
        fits(p, a) == fits(p, b),
    decreases p.len(),
{
    assert(a.len() == bare(a).len() && b.len() == bare(b).len());
    if p.len() > 0 {
        let rest = p.skip(1);
        assert(p.contains(p[0]));
        assert forall|k: int| 0 <= k < rest.len() implies rest[k] != Token::One by {
            assert(p.contains(p[k + 1]));
        }
        assert forall|k: int| 0 <= k <= a.len() implies #[trigger] fits(rest, a.skip(k)) == fits(
            rest,
            b.skip(k),
        ) by {
            assert(bare(a.skip(k)) == bare(a).skip(k));
            assert(bare(b.skip(k)) == bare(b).skip(k));
            only_the_letters_matter(rest, a.skip(k), b.skip(k));
        }
        if a.len() > 0 {
            assert(bare(a)[0] == a[0].c);
            assert(bare(b)[0] == b[0].c);
            assert(fits(rest, a.skip(1)) == fits(rest, b.skip(1)));
        }
        if p[0] == Token::Star {
            if fits(p, a) {
                let k = choose|k: int| 0 <= k <= a.len() && fits(rest, #[trigger] a.skip(k));
                assert(fits(rest, a.skip(k)) == fits(rest, b.skip(k)));
                assert(fits(rest, b.skip(k)));
            }
            if fits(p, b) {
                let k = choose|k: int| 0 <= k <= b.len() && fits(rest, #[trigger] b.skip(k));
                assert(fits(rest, a.skip(k)) == fits(rest, b.skip(k)));
            }
        }
    }
}

proof fn no_mark_no_one(pattern: Seq<char>, l: Seq<Seq<char>>)
    requires
        !pattern.contains('?'),
        pattern.len() == l.len(),
    ensures
        !tokens_by(pattern, l).contains(Token::One),
    decreases pattern.len(),
{
    if pattern.len() > 0 {
        let front = pattern.drop_last();
        assert(pattern.contains(pattern.last()));
        assert forall|k: int| 0 <= k < front.len() implies front[k] != '?' by {
            assert(pattern.contains(pattern[k]));
        }
        no_mark_no_one(front, l.drop_last());
        let some = tokens_by(front, l.drop_last());
        let all = tokens_by(pattern, l);
        assert forall|k: int| 0 <= k < all.len() implies all[k] != Token::One by {
            if k < some.len() {
                assert(some.contains(some[k]));
            }
        }
    }
}

/// Case makes no difference: two names with the same lower case fit the same
/// patterns. For a pattern with a `?` in it, the characters of both must have
/// become the same.
pub proof fn case_makes_no_difference(
    pattern: Seq<char>,
    name: Seq<char>,
    other_name: Seq<char>,
)
    requires
        lowered(name) == lowered(other_name),
        pattern.contains('?') ==> letters(name) == letters(other_name),
    ensures
        matches_name(pattern, name) == matches_name(pattern, other_name),
{
    if !pattern.contains('?') {
        each_character_has_its_letters(pattern);
        no_mark_no_one(pattern, letters(pattern));
        bare_letters(letters(name));
        bare_letters(letters(other_name));
        only_the_letters_matter(
            tokens(pattern),
            marked_all(letters(name)),
            marked_all(letters(other_name)),
        );
    }
}

/// A lone `*` fits every name.
pub proof fn star_fits_everything(name: Seq<char>)
    ensures
        matches_name(seq!['*'], name),
{
    let p = tokens(seq!['*']);
    let n = marked_all(letters(name));
    reveal_with_fuel(tokens_by, 2);
    assert(p == seq![Token::Star]);
    assert(p.skip(1).len() == 0);
    assert(fits(p.skip(1), n.skip(n.len() as int)));
}

/// A pattern of this many question marks.
pub open spec fn question_marks(n: nat) -> Seq<char> {
    Seq::new(n, |i: int| '?')
}

proof fn tokens_of_question_marks(n: nat, l: Seq<Seq<char>>)
    requires
        l.len() == n,
    ensures
        tokens_by(question_marks(n), l) == Seq::new(n, |i: int| Token::One),
    decreases n,
{
    let want = Seq::new(n, |i: int| Token::One);
    if n > 0 {
        let less = (n - 1) as nat;
        assert(question_marks(n).drop_last() == question_marks(less));
        tokens_of_question_marks(less, l.drop_last());
        assert(want == Seq::new(less, |i: int| Token::One) + seq![Token::One]);
    } else {
        assert(tokens_by(question_marks(n), l) == want);
    }
}

proof fn marked_from_the_front(v: Seq<Seq<char>>)
    requires
        v.len() > 0,
    ensures
        marked_all(v) == marked(v[0]) + marked_all(v.skip(1)),
    decreases v.len(),
{
    if v.len() == 1 {
        reveal_with_fuel(marked_all, 2);
        assert(v.drop_last().len() == 0);
        assert(v.skip(1).len() == 0);
        assert(marked_all(v) == marked(v[0]) + marked_all(v.skip(1)));
    } else {
        marked_from_the_front(v.drop_last());
        assert(v.drop_last().skip(1) == v.skip(1).drop_last());
        assert(v.skip(1).last() == v.last());
        assert(marked_all(v) == marked(v[0]) + marked_all(v.skip(1)));
    }
}

proof fn first_len_of_the_first(l: Seq<Letter>, rest: Seq<Letter>)
    requires
        l.len() > 0,
        forall|i: int| 0 < i < l.len() ==> !(#[trigger] l[i]).first,
        rest.len() > 0 ==> rest[0].first,
    ensures
        first_len(l + rest) == l.len(),
    decreases l.len(),
{
    let all = l + rest;
    if l.len() == 1 {
        if rest.len() > 0 {
            assert(all[1] == rest[0]);
        }
    } else {
        assert(all[1] == l[1]);
        assert(all.skip(1) == l.skip(1) + rest);
        assert forall|i: int| 0 < i < l.skip(1).len() implies !(#[trigger] l.skip(1)[i]).first by {
            assert(l.skip(1)[i] == l[i + 1]);
        }
        first_len_of_the_first(l.skip(1), rest);
    }
}

proof fn ones_fit_as_many(n: nat, v: Seq<Seq<char>>)
    requires
        forall|i: int| 0 <= i < v.len() ==> (#[trigger] v[i]).len() > 0,
    ensures
        fits(Seq::new(n, |i: int| Token::One), marked_all(v)) <==> v.len() == n,
        v.len() > 0 ==> marked_all(v).len() > 0 && marked_all(v)[0].first,
    decreases v.len(),
{
    let p = Seq::new(n, |i: int| Token::One);
    let name = marked_all(v);
    if v.len() > 0 {
        let rest = v.skip(1);
        assert forall|i: int| 0 <= i < rest.len() implies (#[trigger] rest[i]).len() > 0 by {
            assert(rest[i] == v[i + 1]);
        }
        marked_from_the_front(v);
        assert(v[0].len() > 0);
        assert(name[0] == marked(v[0])[0]);
        let less: nat = if n > 0 {
            (n - 1) as nat
        } else {
            0
        };
        ones_fit_as_many(less, rest);
        first_len_of_the_first(marked(v[0]), marked_all(rest));
        if n > 0 {
            assert(p.skip(1) == Seq::new(less, |i: int| Token::One));
            assert(name.skip(v[0].len() as int) == marked_all(rest));
        }
    }
}

/// Question marks fit exactly the names of as many characters.
pub proof fn question_marks_fit_as_many_characters(n: nat, name: Seq<char>)
    ensures
        matches_name(question_marks(n), name) <==> name.len() == n,
{
    each_character_has_its_letters(name);
    each_character_has_its_letters(question_marks(n));
    tokens_of_question_marks(n, letters(question_marks(n)));
    ones_fit_as_many(n, letters(name));
}

/// A lone `?` fits exactly the names of one character.
pub proof fn question_mark_fits_one_character(name: Seq<char>)
    ensures
        matches_name(seq!['?'], name) <==> name.len() == 1,
{
    question_marks_fit_as_many_characters(1, name);
    assert(question_marks(1) == seq!['?']);
}

/// Whether the pattern has no wildcard in it.
pub open spec fn is_plain(pattern: Seq<char>) -> bool {
    !pattern.contains('*') && !pattern.contains('?')
}

proof fn plain_tokens(pattern: Seq<char>, l: Seq<Seq<char>>)
    requires
        is_plain(pattern),
        pattern.len() == l.len(),
    ensures
        tokens_by(pattern, l) == exactly(flat(l)),
    decreases pattern.len(),
{
    if pattern.len() > 0 {
        let front = pattern.drop_last();
        assert(pattern.contains(pattern.last()));
        assert forall|k: int| 0 <= k < front.len() implies front[k] != '*' && front[k] != '?' by {
            assert(pattern.contains(pattern[k]));
        }
        plain_tokens(front, l.drop_last());
        assert(exactly(flat(l)) == exactly(flat(l.drop_last())) + exactly(l.last()));
    } else {
        assert(tokens_by(pattern, l) == exactly(flat(l)));
    }
}

proof fn exact_letters_fit_themselves(l: Seq<char>, name: Seq<Letter>)
    ensures
        fits(exactly(l), name) <==> l == bare(name),
    decreases l.len(),
{
    let p = exactly(l);
    let n = bare(name);
    if l.len() == 0 {
        if name.len() == 0 {
            assert(l == n);
        }
    } else if name.len() > 0 {
        assert(p.skip(1) == exactly(l.skip(1)));
        exact_letters_fit_themselves(l.skip(1), name.skip(1));
        assert(bare(name.skip(1)) == n.skip(1));
        assert(n[0] == name[0].c);
        if n[0] == l[0] && l.skip(1) == n.skip(1) {
            assert(l == seq![l[0]] + l.skip(1));
            assert(n == seq![n[0]] + n.skip(1));
        }
    } else {
        assert(n.len() == 0);
    }
}

/// A pattern without wildcards fits exactly the names with the same lower
/// case, and so it fits itself.
pub proof fn plain_pattern_fits_itself(pattern: Seq<char>, name: Seq<char>)
    requires
        is_plain(pattern),
    ensures
        matches_name(pattern, name) <==> lowered(pattern) == lowered(name),
        matches_name(pattern, pattern),
{
    each_character_has_its_letters(pattern);
    plain_tokens(pattern, letters(pattern));
    bare_letters(letters(name));
    bare_letters(letters(pattern));
    exact_letters_fit_themselves(lowered(pattern), marked_all(letters(name)));
    exact_letters_fit_themselves(lowered(pattern), marked_all(letters(pattern)));
}

proof fn tokens_of_two(a: Seq<char>, b: Seq<char>, l: Seq<Seq<char>>)
    requires
        l.len() == a.len() + b.len(),
    ensures
        tokens_by(a + b, l) == tokens_by(a, l.take(a.len() as int)) + tokens_by(
            b,
            l.skip(a.len() as int),
        ),
    decreases b.len(),
{
    let n = a.len() as int;
    if b.len() == 0 {
        assert(a + b == a);
        assert(l.take(n) == l);
    } else {
        assert((a + b).drop_last() == a + b.drop_last());
        tokens_of_two(a, b.drop_last(), l.drop_last());
        assert(l.drop_last().take(n) == l.take(n));
        assert(l.drop_last().skip(n) == l.skip(n).drop_last());
        assert(tokens_by(a + b, l) == tokens_by(a, l.take(n)) + tokens_by(b, l.skip(n)));
    }
}

/// `*` before a plain ending fits exactly the names with that ending, but for
/// case.
pub proof fn star_before_a_plain_ending(ending: Seq<char>, name: Seq<char>)
    requires
        is_plain(ending),
    ensures
        matches_name(seq!['*'] + ending, name) <==> flat(
            letters(seq!['*'] + ending).skip(1),
        ).is_suffix_of(lowered(name)),
{
    let whole = seq!['*'] + ending;
    let p = tokens(whole);
    each_character_has_its_letters(whole);
    let l = letters(whole);
    tokens_of_two(seq!['*'], ending, l);
    reveal_with_fuel(tokens_by, 2);
    assert(tokens_by(seq!['*'], l.take(1)) == seq![Token::Star]);
    plain_tokens(ending, l.skip(1));
    let end = flat(l.skip(1));
    assert(p[0] == Token::Star);
    assert(p.skip(1) == exactly(end));
    let n = marked_all(letters(name));
    bare_letters(letters(name));
    let low = lowered(name);
    assert(n.len() == low.len());
    if fits(p, n) {
        let k = choose|k: int| 0 <= k <= n.len() && fits(p.skip(1), #[trigger] n.skip(k));
        exact_letters_fit_themselves(end, n.skip(k));
        assert(bare(n.skip(k)) == low.skip(k));
        assert(k == low.len() - end.len());
    }
    if end.is_suffix_of(low) {
        let k = low.len() - end.len();
        exact_letters_fit_themselves(end, n.skip(k));
        assert(bare(n.skip(k)) == low.skip(k));
        assert(fits(p.skip(1), n.skip(k)));
    }
}

proof fn exact_front_and_star(l: Seq<char>, name: Seq<Letter>)
    ensures
        fits(exactly(l) + seq![Token::Star], name) <==> l.is_prefix_of(bare(name)),
    decreases l.len(),
{
    let p = exactly(l) + seq![Token::Star];
    let n = bare(name);
    if l.len() == 0 {
        assert(p[0] == Token::Star);
        assert(p.skip(1).len() == 0);
        assert(fits(p.skip(1), name.skip(name.len() as int)));
        assert(n.take(0) == l);
    } else if name.len() > 0 {
        assert(p.skip(1) == exactly(l.skip(1)) + seq![Token::Star]);
        assert(p[0] == Token::Exact(l[0]));
        exact_front_and_star(l.skip(1), name.skip(1));
        assert(bare(name.skip(1)) == n.skip(1));
        assert(n[0] == name[0].c);
        let k = l.len() as int;
        if k <= n.len() {
            assert(n.skip(1).take(k - 1) == n.take(k).skip(1));
            assert(n.take(k)[0] == n[0]);
            if n[0] == l[0] && n.take(k).skip(1) == l.skip(1) {
                assert(n.take(k) == seq![n[0]] + n.take(k).skip(1));
                assert(l == seq![l[0]] + l.skip(1));
            }
        }
    } else {
        assert(p[0] == Token::Exact(l[0]));
        assert(n.len() == 0);
    }
}

/// A plain beginning before `*` fits exactly the names with that beginning,
/// but for case.
pub proof fn star_after_a_plain_beginning(beginning: Seq<char>, name: Seq<char>)
    requires
        is_plain(beginning),
    ensures
        matches_name(beginning + seq!['*'], name) <==> flat(
            letters(beginning + seq!['*']).take(beginning.len() as int),
        ).is_prefix_of(lowered(name)),
{
    let whole = beginning + seq!['*'];
    let n = beginning.len() as int;
    each_character_has_its_letters(whole);
    let l = letters(whole);
    tokens_of_two(beginning, seq!['*'], l);
    reveal_with_fuel(tokens_by, 2);
    assert(tokens_by(seq!['*'], l.skip(n)) == seq![Token::Star]);
    plain_tokens(beginning, l.take(n));
    bare_letters(letters(name));
    exact_front_and_star(flat(l.take(n)), marked_all(letters(name)));
}

} // verus!
