//! Text as a sequence of characters: conversions, splitting, trimming, and
//! the few things that only the standard library can say about it.

use vstd::prelude::*;
use vstd::string::*;
use vstd::utf8::*;

verus! {

// ---------------------------------------------------------------------------
// Between strings and characters
// ---------------------------------------------------------------------------

/// `String::push` puts one character behind the text.
pub assume_specification[ String::push ](s: &mut String, c: char)
    ensures
        final(s)@ == old(s)@.push(c),
;

/// The characters of `s`, in order.
pub fn chars_of(s: &str) -> (v: Vec<char>)
    ensures
        v@ == s@,
{
    let mut v: Vec<char> = Vec::new();
    for c in it: s.chars()
        invariant
            v@ == it.seq().take(it.index() as int),
            it.seq() == s@,
    {
        v.push(c);
        assert(it.seq().take(it.index() as int + 1) == it.seq().take(it.index() as int).push(c));
    }
    v
}

/// The string made of the characters of `v`.
pub fn text_of(v: &[char]) -> (s: String)
    ensures
        s@ == v@,
{
    let mut s = String::new();
    let mut i: usize = 0;
    while i < v.len()
        invariant
            i <= v@.len(),
            s@ == v@.take(i as int),
        decreases v@.len() - i,
    {
        s.push(v[i]);
        assert(v@.take(i + 1) == v@.take(i as int).push(v@[i as int]));
        i += 1;
    }
    s
}

/// A string with the text of `s`.
pub fn owned(s: &str) -> (r: String)
    ensures
        r@ == s@,
{
    String::from_str(s)
}

/// `a` followed by `b`.
pub fn concat2(a: &str, b: &str) -> (r: String)
    ensures
        r@ == a@ + b@,
{
    let mut r = String::from_str(a);
    r.append(b);
    r
}

/// `a`, `b` and `c` in a row.
pub fn concat3(a: &str, b: &str, c: &str) -> (r: String)
    ensures
        r@ == a@ + b@ + c@,
{
    let mut r = String::from_str(a);
    r.append(b);
    r.append(c);
    r
}

/// Whether two slices hold the same characters.
pub fn same_chars(a: &[char], b: &[char]) -> (same: bool)
    ensures
        same == (a@ == b@),
{
    if a.len() != b.len() {
        return false;
    }
    let mut i: usize = 0;
    while i < a.len()
        invariant
            a@.len() == b@.len(),
            i <= a@.len(),
            a@.take(i as int) == b@.take(i as int),
        decreases a@.len() - i,
    {
        if a[i] != b[i] {
            return false;
        }
        assert(a@.take(i + 1) == a@.take(i as int).push(a@[i as int]));
        assert(b@.take(i + 1) == b@.take(i as int).push(b@[i as int]));
        i += 1;
    }
    assert(a@.take(i as int) == a@);
    assert(b@.take(i as int) == b@);
    true
}

/// Whether two strings are the same text.
pub fn same_text(a: &str, b: &str) -> (same: bool)
    ensures
        same == (a@ == b@),
{
    let x = chars_of(a);
    let y = chars_of(b);
    same_chars(&x, &y)
}

// ---------------------------------------------------------------------------
// Lists of strings
// ---------------------------------------------------------------------------

/// The texts of a list of strings.
pub open spec fn texts(v: Seq<String>) -> Seq<Seq<char>> {
    v.map_values(|s: String| s@)
}

/// Whether `s` is one of the texts of `v`.
pub fn lists(v: &[String], s: &str) -> (found: bool)
    ensures
        found == texts(v@).contains(s@),
{
    let mut i: usize = 0;
    while i < v.len()
        invariant
            i <= v@.len(),
            forall|j: int| 0 <= j < i ==> texts(v@)[j] != s@,
        decreases v@.len() - i,
    {
        if same_text(v[i].as_str(), s) {
            assert(texts(v@)[i as int] == s@);
            return true;
        }
        i += 1;
    }
    false
}

/// A copy of a list of strings.
pub fn copied_list(v: &[String]) -> (r: Vec<String>)
    ensures
        texts(r@) == texts(v@),
{
    let mut r: Vec<String> = Vec::new();
    let mut i: usize = 0;
    while i < v.len()
        invariant
            i <= v@.len(),
            texts(r@) == texts(v@).take(i as int),
        decreases v@.len() - i,
    {
        let ghost before = r@;
        r.push(v[i].clone());
        assert(texts(r@) == texts(before).push(v@[i as int]@));
        assert(texts(v@).take(i + 1) == texts(v@).take(i as int).push(texts(v@)[i as int]));
        i += 1;
    }
    assert(texts(v@).take(i as int) == texts(v@));
    r
}

// ---------------------------------------------------------------------------
// Splitting and joining
// ---------------------------------------------------------------------------

/// The pieces of `s` between the occurrences of `sep`; always at least one.
pub open spec fn split(s: Seq<char>, sep: char) -> Seq<Seq<char>>
    decreases s.len(),
{
    if s.len() == 0 {
        seq![Seq::<char>::empty()]
    } else {
        let front = split(s.drop_last(), sep);
        if s.last() == sep {
            front.push(Seq::empty())
        } else {
            front.drop_last().push(front.last().push(s.last()))
        }
    }
}

/// The texts of `parts` with `sep` between neighbours.
pub open spec fn join(parts: Seq<Seq<char>>, sep: Seq<char>) -> Seq<char>
    decreases parts.len(),
{
    if parts.len() == 0 {
        Seq::empty()
    } else if parts.len() == 1 {
        parts[0]
    } else {
        join(parts.drop_last(), sep) + sep + parts.last()
    }
}

/// Two lists that are joined together are each joined, with the separator
/// between them; one text is joined to itself.
pub proof fn joining_two_lists(a: Seq<Seq<char>>, b: Seq<Seq<char>>, sep: Seq<char>)
    requires
        a.len() > 0,
        b.len() > 0,
    ensures
        join(a + b, sep) == join(a, sep) + sep + join(b, sep),
        join(seq![a[0]], sep) == a[0],
        join(Seq::<Seq<char>>::empty(), sep) == Seq::<char>::empty(),
    decreases b.len(),
{
    if b.len() == 1 {
        assert((a + b).drop_last() == a);
    } else {
        joining_two_lists(a, b.drop_last(), sep);
        assert((a + b).drop_last() == a + b.drop_last());
        assert(join(a + b, sep) == join(a, sep) + sep + join(b, sep));
    }
}

/// The characters of each piece of a split text.
pub open spec fn pieces(v: Seq<Vec<char>>) -> Seq<Seq<char>> {
    v.map_values(|p: Vec<char>| p@)
}

/// Splitting leaves at least one piece, none of which holds the separator.
pub proof fn split_pieces(s: Seq<char>, sep: char)
    ensures
        split(s, sep).len() >= 1,
        forall|i: int| 0 <= i < split(s, sep).len() ==> !(#[trigger] split(s, sep)[i]).contains(sep),
    decreases s.len(),
{
    if s.len() > 0 {
        split_pieces(s.drop_last(), sep);
        let front = split(s.drop_last(), sep);
        if s.last() != sep {
            let grown = front.last().push(s.last());
            assert forall|i: int| 0 <= i < split(s, sep).len() implies !(
            #[trigger] split(s, sep)[i]).contains(sep) by {
                if i == front.len() - 1 {
                    assert(!front[i].contains(sep));
                    assert forall|k: int| 0 <= k < grown.len() implies grown[k] != sep by {
                        if k < front.last().len() {
                            assert(front.last()[k] == grown[k]);
                        }
                    }
                } else {
                    assert(split(s, sep)[i] == front[i]);
                }
            }
        } else {
            assert forall|i: int| 0 <= i < split(s, sep).len() implies !(
            #[trigger] split(s, sep)[i]).contains(sep) by {
                if i < front.len() {
                    assert(split(s, sep)[i] == front[i]);
                }
            }
        }
    }
}

/// Joining the pieces of a text with the separator gives the text back.
pub proof fn join_of_split(s: Seq<char>, sep: char)
    ensures
        join(split(s, sep), seq![sep]) == s,
    decreases s.len(),
{
    if s.len() > 0 {
        let front = split(s.drop_last(), sep);
        split_pieces(s.drop_last(), sep);
        join_of_split(s.drop_last(), sep);
        let all = split(s, sep);
        assert(s == s.drop_last().push(s.last()));
        if s.last() == sep {
            assert(all.drop_last() == front);
            assert(join(all, seq![sep]) == s);
        } else {
            assert(all.drop_last() == front.drop_last());
            assert(join(all, seq![sep]) == s);
        }
    }
}

/// The pieces of `s` between the occurrences of `sep`.
pub fn split_chars(s: &[char], sep: char) -> (r: Vec<Vec<char>>)
    ensures
        pieces(r@) == split(s@, sep),
{
    let mut done: Vec<Vec<char>> = Vec::new();
    let mut cur: Vec<char> = Vec::new();
    let mut i: usize = 0;
    assert(pieces(done@).push(cur@) == split(s@.take(0), sep));
    while i < s.len()
        invariant
            i <= s@.len(),
            pieces(done@).push(cur@) == split(s@.take(i as int), sep),
        decreases s@.len() - i,
    {
        let ghost front = split(s@.take(i as int), sep);
        assert(s@.take(i + 1).drop_last() == s@.take(i as int));
        if s[i] == sep {
            let ghost done_before = done@;
            let ghost piece = cur@;
            done.push(cur);
            cur = Vec::new();
            assert(pieces(done@) == pieces(done_before).push(piece));
        } else {
            cur.push(s[i]);
            assert(front.drop_last() == pieces(done@));
        }
        i += 1;
    }
    assert(s@.take(i as int) == s@);
    let ghost done_before = done@;
    let ghost piece = cur@;
    done.push(cur);
    assert(pieces(done@) == pieces(done_before).push(piece));
    done
}

/// The texts of `parts` with `sep` between neighbours.
pub fn join_strings(parts: &[String], sep: &str) -> (r: String)
    ensures
        r@ == join(texts(parts@), sep@),
{
    let mut r = String::new();
    let mut i: usize = 0;
    assert(texts(parts@).take(0) == Seq::<Seq<char>>::empty());
    while i < parts.len()
        invariant
            i <= parts@.len(),
            r@ == join(texts(parts@).take(i as int), sep@),
        decreases parts@.len() - i,
    {
        let ghost so_far = texts(parts@).take(i + 1);
        assert(so_far.drop_last() == texts(parts@).take(i as int));
        if i > 0 {
            r.append(sep);
        }
        r.append(parts[i].as_str());
        i += 1;
    }
    assert(texts(parts@).take(i as int) == texts(parts@));
    r
}

/// `s` with every `c` replaced by `with`.
pub open spec fn replaced(s: Seq<char>, c: char, with: Seq<char>) -> Seq<char>
    decreases s.len(),
{
    if s.len() == 0 {
        Seq::empty()
    } else {
        replaced(s.drop_last(), c, with) + (if s.last() == c {
            with
        } else {
            seq![s.last()]
        })
    }
}

/// `s` with every `c` replaced by `with`.
pub fn replace_char(s: &[char], c: char, with: &[char]) -> (r: Vec<char>)
    ensures
        r@ == replaced(s@, c, with@),
{
    let mut r: Vec<char> = Vec::new();
    let mut i: usize = 0;
    while i < s.len()
        invariant
            i <= s@.len(),
            r@ == replaced(s@.take(i as int), c, with@),
        decreases s@.len() - i,
    {
        assert(s@.take(i + 1).drop_last() == s@.take(i as int));
        if s[i] == c {
            extend_chars(&mut r, with);
        } else {
            r.push(s[i]);
        }
        i += 1;
    }
    assert(s@.take(i as int) == s@);
    r
}

/// Puts the characters of `more` behind `v`.
pub fn extend_chars(v: &mut Vec<char>, more: &[char])
    ensures
        final(v)@ == old(v)@ + more@,
{
    let mut i: usize = 0;
    assert(v@ == old(v)@ + more@.take(0));
    while i < more.len()
        invariant
            i <= more@.len(),
            v@ == old(v)@ + more@.take(i as int),
        decreases more@.len() - i,
    {
        v.push(more[i]);
        assert(more@.take(i + 1) == more@.take(i as int).push(more@[i as int]));
        i += 1;
    }
    assert(more@.take(i as int) == more@);
}

/// What `s` holds without its space characters.
pub open spec fn without_spaces(s: Seq<char>) -> Seq<char> {
    replaced(s, ' ', Seq::empty())
}

/// The text of `s` without its space characters.
pub fn remove_spaces(s: &str) -> (r: String)
    ensures
        r@ == without_spaces(s@),
{
    let v = chars_of(s);
    let none: Vec<char> = Vec::new();
    text_of(&replace_char(&v, ' ', &none))
}

/// No space survives `without_spaces`, and every other character does.
pub proof fn without_spaces_keeps_the_rest(s: Seq<char>)
    ensures
        !without_spaces(s).contains(' '),
        without_spaces(s) == s.filter(|c: char| c != ' '),
    decreases s.len(),
{
    reveal(Seq::filter);
    if s.len() > 0 {
        without_spaces_keeps_the_rest(s.drop_last());
        let front = without_spaces(s.drop_last());
        assert forall|k: int| 0 <= k < without_spaces(s).len() implies without_spaces(s)[k]
            != ' ' by {
            if k < front.len() {
                assert(front[k] == without_spaces(s)[k]);
            }
        }
    }
}

proof fn nothing_to_remove(s: Seq<char>)
    requires
        !s.contains(' '),
    ensures
        without_spaces(s) == s,
    decreases s.len(),
{
    if s.len() > 0 {
        let front = s.drop_last();
        assert(s.contains(s.last()));
        assert forall|k: int| 0 <= k < front.len() implies front[k] != ' ' by {
            assert(s.contains(s[k]));
        }
        nothing_to_remove(front);
    }
}

/// Removing the spaces twice is removing them once.
pub proof fn spaces_are_removed_for_good(s: Seq<char>)
    ensures
        without_spaces(without_spaces(s)) == without_spaces(s),
{
    without_spaces_keeps_the_rest(s);
    nothing_to_remove(without_spaces(s));
}

// ---------------------------------------------------------------------------
// Trimming, words and lines
// ---------------------------------------------------------------------------

/// The characters with the Unicode property White_Space.
pub open spec fn is_white(c: char) -> bool {
    ||| '\u{9}' <= c <= '\u{d}'
    ||| c == ' '
    ||| c == '\u{85}'
    ||| c == '\u{a0}'
    ||| c == '\u{1680}'
    ||| '\u{2000}' <= c <= '\u{200a}'
    ||| c == '\u{2028}'
    ||| c == '\u{2029}'
    ||| c == '\u{202f}'
    ||| c == '\u{205f}'
    ||| c == '\u{3000}'
}

/// Whether `c` is white space.
pub fn white(c: char) -> (b: bool)
    ensures
        b == is_white(c),
{
    ('\u{9}' <= c && c <= '\u{d}') || c == ' ' || c == '\u{85}' || c == '\u{a0}' || c == '\u{1680}'
        || ('\u{2000}' <= c && c <= '\u{200a}') || c == '\u{2028}' || c == '\u{2029}' || c
        == '\u{202f}' || c == '\u{205f}' || c == '\u{3000}'
}

/// `s` without the white space at its end.
pub open spec fn trim_white_end(s: Seq<char>) -> Seq<char>
    decreases s.len(),
{
    if s.len() > 0 && is_white(s.last()) {
        trim_white_end(s.drop_last())
    } else {
        s
    }
}

/// `s` without the white space at its start.
pub open spec fn trim_white_start(s: Seq<char>) -> Seq<char>
    decreases s.len(),
{
    if s.len() > 0 && is_white(s[0]) {
        trim_white_start(s.skip(1))
    } else {
        s
    }
}

/// `s` without the white space at either end.
pub open spec fn trimmed(s: Seq<char>) -> Seq<char> {
    trim_white_start(trim_white_end(s))
}

/// `s` without the occurrences of `c` at its end.
pub open spec fn trim_end(s: Seq<char>, c: char) -> Seq<char>
    decreases s.len(),
{
    if s.len() > 0 && s.last() == c {
        trim_end(s.drop_last(), c)
    } else {
        s
    }
}

/// `s` without the occurrences of `c` at its start.
pub open spec fn trim_start(s: Seq<char>, c: char) -> Seq<char>
    decreases s.len(),
{
    if s.len() > 0 && s[0] == c {
        trim_start(s.skip(1), c)
    } else {
        s
    }
}

/// The characters of `s` from `from` up to, not including, `to`.
pub fn part<T: Copy>(s: &[T], from: usize, to: usize) -> (r: Vec<T>)
    requires
        from <= to <= s@.len(),
    ensures
        r@ == s@.subrange(from as int, to as int),
{
    let mut r: Vec<T> = Vec::new();
    let mut i: usize = from;
    while i < to
        invariant
            from <= i <= to <= s@.len(),
            r@ == s@.subrange(from as int, i as int),
        decreases to - i,
    {
        r.push(s[i]);
        assert(s@.subrange(from as int, i + 1) == s@.subrange(from as int, i as int).push(
            s@[i as int],
        ));
        i += 1;
    }
    r
}

/// `s` without the white space at either end.
pub fn trim_chars(s: &[char]) -> (r: Vec<char>)
    ensures
        r@ == trimmed(s@),
{
    let mut to: usize = s.len();
    assert(s@.take(to as int) == s@);
    while to > 0 && white(s[to - 1])
        invariant
            to <= s@.len(),
            trim_white_end(s@) == trim_white_end(s@.take(to as int)),
        decreases to,
    {
        assert(s@.take(to as int).drop_last() == s@.take(to - 1));
        to -= 1;
    }
    let ghost front = s@.take(to as int);
    assert(trim_white_end(s@) == front);
    let mut from: usize = 0;
    assert(front.skip(0) == front);
    while from < to && white(s[from])
        invariant
            from <= to <= s@.len(),
            front == s@.take(to as int),
            trim_white_start(front) == trim_white_start(front.skip(from as int)),
        decreases to - from,
    {
        assert(front.skip(from as int).skip(1) == front.skip(from + 1));
        from += 1;
    }
    assert(front.skip(from as int) == s@.subrange(from as int, to as int));
    part(s, from, to)
}

/// The text of `s` without the white space at either end.
pub fn trim_text(s: &str) -> (r: String)
    ensures
        r@ == trimmed(s@),
{
    let v = chars_of(s);
    text_of(&trim_chars(&v))
}

/// `s` without the occurrences of `c` at its end.
pub fn trim_end_chars(s: &[char], c: char) -> (r: Vec<char>)
    ensures
        r@ == trim_end(s@, c),
{
    let mut to: usize = s.len();
    assert(s@.take(to as int) == s@);
    while to > 0 && s[to - 1] == c
        invariant
            to <= s@.len(),
            trim_end(s@, c) == trim_end(s@.take(to as int), c),
        decreases to,
    {
        assert(s@.take(to as int).drop_last() == s@.take(to - 1));
        to -= 1;
    }
    assert(s@.take(to as int) == s@.subrange(0, to as int));
    part(s, 0, to)
}

/// `s` without the occurrences of `c` at its start.
pub fn trim_start_chars(s: &[char], c: char) -> (r: Vec<char>)
    ensures
        r@ == trim_start(s@, c),
{
    let mut from: usize = 0;
    assert(s@.skip(0) == s@);
    while from < s.len() && s[from] == c
        invariant
            from <= s@.len(),
            trim_start(s@, c) == trim_start(s@.skip(from as int), c),
        decreases s@.len() - from,
    {
        assert(s@.skip(from as int).skip(1) == s@.skip(from + 1));
        from += 1;
    }
    assert(s@.skip(from as int) == s@.subrange(from as int, s@.len() as int));
    part(s, from, s.len())
}

/// The text of `s` without the slashes at its end.
pub fn trim_end_slashes(s: &str) -> (r: String)
    ensures
        r@ == trim_end(s@, '/'),
{
    let v = chars_of(s);
    text_of(&trim_end_chars(&v, '/'))
}

/// The characters of `s` up to the first white space.
pub open spec fn first_word(s: Seq<char>) -> Seq<char>
    decreases s.len(),
{
    if s.len() == 0 || is_white(s[0]) {
        Seq::empty()
    } else {
        seq![s[0]] + first_word(s.skip(1))
    }
}

/// The characters of `s` up to the first white space.
pub fn first_word_chars(s: &[char]) -> (r: Vec<char>)
    ensures
        r@ == first_word(s@),
{
    let mut to: usize = 0;
    assert(s@ == s@.take(0) + s@.skip(0));
    assert(first_word(s@) == s@.take(0) + first_word(s@.skip(0)));
    while to < s.len() && !white(s[to])
        invariant
            to <= s@.len(),
            first_word(s@) == s@.take(to as int) + first_word(s@.skip(to as int)),
        decreases s@.len() - to,
    {
        assert(s@.skip(to as int).skip(1) == s@.skip(to + 1));
        assert(s@.take(to as int) + (seq![s@[to as int]] + first_word(s@.skip(to + 1)))
            == s@.take(to + 1) + first_word(s@.skip(to + 1)));
        to += 1;
    }
    assert(s@.take(to as int) + Seq::<char>::empty() == s@.subrange(0, to as int));
    part(s, 0, to)
}

/// A line that ended in a line feed, without the carriage return before it.
pub open spec fn strip_return(line: Seq<char>) -> Seq<char> {
    if line.len() > 0 && line.last() == '\r' {
        line.drop_last()
    } else {
        line
    }
}

/// The lines of `s`: each ends in a line feed or in a carriage return and a
/// line feed, which are not part of it; the ending of the last one is optional.
pub open spec fn lines(s: Seq<char>) -> Seq<Seq<char>> {
    let parts = split(s, '\n');
    let ended = parts.drop_last().map_values(|line: Seq<char>| strip_return(line));
    if parts.last().len() == 0 {
        ended
    } else {
        ended.push(parts.last())
    }
}

/// The lines of `s`.
pub fn line_chars(s: &[char]) -> (r: Vec<Vec<char>>)
    ensures
        pieces(r@) == lines(s@),
{
    let parts = split_chars(s, '\n');
    proof {
        split_pieces(s@, '\n');
    }
    let ghost all = split(s@, '\n');
    let ghost ended = all.drop_last().map_values(|line: Seq<char>| strip_return(line));
    assert(pieces(parts@).len() == parts@.len());
    let mut r: Vec<Vec<char>> = Vec::new();
    let mut i: usize = 0;
    while i < parts.len() - 1
        invariant
            i <= parts@.len() - 1,
            pieces(parts@) == all,
            all.len() == parts@.len(),
            ended == all.drop_last().map_values(|line: Seq<char>| strip_return(line)),
            pieces(r@) == ended.take(i as int),
        decreases parts@.len() - i,
    {
        let piece = &parts[i];
        assert(piece@ == all[i as int]);
        let n = piece.len();
        let line = if n > 0 && piece[n - 1] == '\r' {
            assert(piece@.subrange(0, n - 1) == piece@.drop_last());
            part(piece, 0, n - 1)
        } else {
            assert(piece@.subrange(0, n as int) == piece@);
            part(piece, 0, n)
        };
        let ghost before = r@;
        r.push(line);
        assert(pieces(r@) == pieces(before).push(line@));
        assert(ended.take(i + 1) == ended.take(i as int).push(ended[i as int]));
        i += 1;
    }
    assert(ended.take(i as int) == ended);
    let last = &parts[i];
    assert(last@ == all.last());
    if last.len() > 0 {
        let ghost before = r@;
        let line = part(last, 0, last.len());
        assert(line@ == last@);
        r.push(line);
        assert(pieces(r@) == pieces(before).push(line@));
    }
    r
}

// ---------------------------------------------------------------------------
// Prefixes
// ---------------------------------------------------------------------------

/// The lines of a text, as strings.
pub fn line_texts(s: &str) -> (r: Vec<String>)
    ensures
        texts(r@) == lines(s@),
{
    let units = chars_of(s);
    let all = line_chars(&units);
    let mut r: Vec<String> = Vec::new();
    let mut i: usize = 0;
    assert(texts(r@) == pieces(all@).take(0));
    while i < all.len()
        invariant
            i <= all@.len(),
            texts(r@) == pieces(all@).take(i as int),
        decreases all@.len() - i,
    {
        let ghost before = r@;
        let line = text_of(&all[i]);
        r.push(line);
        assert(texts(r@) == texts(before).push(line@));
        assert(pieces(all@).take(i + 1) == pieces(all@).take(i as int).push(pieces(all@)[i as int]));
        i += 1;
    }
    assert(pieces(all@).take(i as int) == pieces(all@));
    r
}

/// Whether `s` starts with `prefix`.
pub open spec fn starts_with(s: Seq<char>, prefix: Seq<char>) -> bool {
    prefix.len() <= s.len() && s.take(prefix.len() as int) == prefix
}

/// Whether `s` starts with `prefix`.
pub fn has_prefix(s: &[char], prefix: &[char]) -> (b: bool)
    ensures
        b == starts_with(s@, prefix@),
{
    if prefix.len() > s.len() {
        return false;
    }
    assert(s@.take(prefix@.len() as int) == s@.subrange(0, prefix@.len() as int));
    same_chars(&part(s, 0, prefix.len()), prefix)
}

/// Whether `s` holds `c`.
pub fn has_char(s: &[char], c: char) -> (b: bool)
    ensures
        b == s@.contains(c),
{
    let mut i: usize = 0;
    while i < s.len()
        invariant
            i <= s@.len(),
            forall|j: int| 0 <= j < i ==> s@[j] != c,
        decreases s@.len() - i,
    {
        if s[i] == c {
            return true;
        }
        i += 1;
    }
    false
}

// ---------------------------------------------------------------------------
// Numbers
// ---------------------------------------------------------------------------

/// The decimal digit of `n`.
pub open spec fn digit(n: nat) -> char {
    (48 + n) as u8 as char
}

/// `n` in decimal digits.
pub open spec fn decimal(n: nat) -> Seq<char>
    decreases n,
{
    if n < 10 {
        seq![digit(n)]
    } else {
        decimal(n / 10).push(digit(n % 10))
    }
}

/// `n` in decimal digits, with a minus sign in front where it is negative.
pub open spec fn signed_decimal(n: int) -> Seq<char> {
    if n < 0 {
        seq!['-'] + decimal((-n) as nat)
    } else {
        decimal(n as nat)
    }
}

/// `n` in decimal digits.
pub fn decimal_chars(n: u64) -> (r: Vec<char>)
    ensures
        r@ == decimal(n as nat),
    decreases n,
{
    if n < 10 {
        let mut r: Vec<char> = Vec::new();
        r.push((48 + n as u8) as char);
        r
    } else {
        let mut r = decimal_chars(n / 10);
        r.push((48 + (n % 10) as u8) as char);
        r
    }
}

/// `n` in decimal digits.
pub fn decimal_text(n: usize) -> (r: String)
    ensures
        r@ == decimal(n as nat),
{
    text_of(&decimal_chars(n as u64))
}

/// `n` in decimal digits, with a minus sign in front where it is negative.
pub fn signed_decimal_text(n: i32) -> (r: String)
    ensures
        r@ == signed_decimal(n as int),
{
    if n < 0 {
        let digits = decimal_chars((-(n as i64)) as u64);
        let mut r: Vec<char> = Vec::new();
        r.push('-');
        extend_chars(&mut r, &digits);
        text_of(&r)
    } else {
        text_of(&decimal_chars(n as u64))
    }
}

/// The lower-case hexadecimal digit of a number below sixteen.
pub open spec fn hex_digit(n: u8) -> char {
    if n < 10 {
        (48 + n) as u8 as char
    } else {
        (87 + n) as u8 as char
    }
}

/// The lower-case hexadecimal digit of a number below sixteen.
pub fn hex_digit_of(n: u8) -> (c: char)
    requires
        n < 16,
    ensures
        c == hex_digit(n),
{
    if n < 10 {
        (48 + n) as char
    } else {
        (87 + n) as char
    }
}

/// Two numbers with the same digits are the same number.
pub proof fn decimal_is_injective(a: nat, b: nat)
    requires
        decimal(a) == decimal(b),
    ensures
        a == b,
    decreases a,
{
    assert(digit(a % 10) as int == 48 + a % 10);
    assert(digit(b % 10) as int == 48 + b % 10);
    assert(decimal(a).last() == digit(a % 10));
    assert(decimal(b).last() == digit(b % 10));
    assert(a % 10 == b % 10);
    if a < 10 && b < 10 {
    } else if a < 10 {
        decimal_is_not_empty(b / 10);
    } else if b < 10 {
        decimal_is_not_empty(a / 10);
    } else {
        assert(decimal(a).drop_last() == decimal(a / 10));
        assert(decimal(b).drop_last() == decimal(b / 10));
        decimal_is_injective(a / 10, b / 10);
    }
}

proof fn decimal_is_not_empty(n: nat)
    ensures
        decimal(n).len() > 0,
    decreases n,
{
}

// ---------------------------------------------------------------------------
// What the standard library says of text
// ---------------------------------------------------------------------------

/// The text that bytes which are not UTF-8 stand for when what is wrong in them
/// is shown as the replacement character.
pub uninterp spec fn mended(bytes: Seq<u8>) -> Seq<char>;

/// The text that bytes stand for: what they encode where they are UTF-8, and
/// otherwise what is left of that.
pub open spec fn utf8_lossy(bytes: Seq<u8>) -> Seq<char> {
    if valid_utf8(bytes) {
        decode_utf8(bytes)
    } else {
        mended(bytes)
    }
}

/// `String::from_utf8_lossy`: bytes that are UTF-8 give the text that they
/// encode, the same other bytes always give the same text, and where the byte
/// of a slash is not among the bytes, no slash is in the text.
#[verifier::external_body]
pub(crate) fn lossy_text(bytes: &[u8]) -> (r: String)
    ensures
        valid_utf8(bytes@) ==> r@ == decode_utf8(bytes@),
        !valid_utf8(bytes@) ==> r@ == mended(bytes@),
        !bytes@.contains(47u8) ==> !r@.contains('/'),
{
    String::from_utf8_lossy(bytes).into_owned()
}

/// The lower case of a text, by the rules of Unicode.
pub uninterp spec fn lower_case(s: Seq<char>) -> Seq<char>;

/// The lower case of an ASCII character.
pub open spec fn ascii_lower(c: char) -> char {
    if 'A' <= c <= 'Z' {
        (c as u8 + 32) as u8 as char
    } else {
        c
    }
}

/// `str::to_lowercase`: the same text always gives the same lower case, and
/// the characters of an ASCII text are put in lower case one by one.
#[verifier::external_body]
pub(crate) fn lower_text(s: &str) -> (r: String)
    ensures
        r@ == lower_case(s@),
        is_ascii_chars(s@) ==> r@ == s@.map_values(|c: char| ascii_lower(c)),
{
    s.to_lowercase()
}

} // verus!
