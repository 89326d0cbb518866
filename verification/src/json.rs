//! Texts, numbers and lists in the lines for programs: how they are written,
//! and how a reader of JSON gets them back.

use vstd::prelude::*;

use crate::text::{
    chars_of, concat2, concat3, extend_chars, hex_digit_of, join_strings, text_of,
};
#[allow(unused_imports)]
use crate::text::{decimal, digit, hex_digit, join, texts};

verus! {

// ---------------------------------------------------------------------------
// Writing
// ---------------------------------------------------------------------------

/// What stands for a character in a string: a backslash goes before a
/// backslash and a quote, and a control character is written by its code.
pub open spec fn escaped_char(c: char) -> Seq<char> {
    if c == '\\' || c == '"' {
        seq!['\\', c]
    } else if (c as u32) < 32 {
        let code = c as u8;
        seq!['\\', 'u', '0', '0', hex_digit(code / 16), hex_digit(code % 16)]
    } else {
        seq![c]
    }
}

/// A text as it stands between the quotes of a string.
pub open spec fn escaped(s: Seq<char>) -> Seq<char>
    decreases s.len(),
{
    if s.len() == 0 {
        Seq::empty()
    } else {
        escaped_char(s[0]) + escaped(s.skip(1))
    }
}

/// A text as a string.
pub open spec fn json_string(s: Seq<char>) -> Seq<char> {
    "\""@ + escaped(s) + "\""@
}

/// Texts as a list of strings.
pub open spec fn json_list(v: Seq<Seq<char>>) -> Seq<char> {
    "["@ + join(v.map_values(|s: Seq<char>| json_string(s)), ","@) + "]"@
}

/// A member of an object.
pub open spec fn member(name: Seq<char>, value: Seq<char>) -> Seq<char> {
    json_string(name) + ":"@ + value
}

fn escape_char(c: char) -> (r: Vec<char>)
    ensures
        r@ == escaped_char(c),
{
    let mut r: Vec<char> = Vec::new();
    let code: u32 = c as u32;
    if c == '\\' || c == '"' {
        r.push('\\');
        r.push(c);
    } else if code < 32 {
        r.push('\\');
        r.push('u');
        r.push('0');
        r.push('0');
        r.push(hex_digit_of(code as u8 / 16));
        r.push(hex_digit_of(code as u8 % 16));
    } else {
        r.push(c);
    }
    assert(r@ == escaped_char(c));
    r
}

/// A text as it stands between the quotes of a string.
pub fn escape(s: &str) -> (r: String)
    ensures
        r@ == escaped(s@),
{
    let v = chars_of(s);
    let mut out: Vec<char> = Vec::new();
    let mut i: usize = 0;
    assert(v@.skip(0) == v@);
    assert(out@ + escaped(v@.skip(0)) == escaped(v@));
    while i < v.len()
        invariant
            i <= v@.len(),
            v@ == s@,
            out@ + escaped(v@.skip(i as int)) == escaped(v@),
        decreases v@.len() - i,
    {
        let ghost before = out@;
        let unit = escape_char(v[i]);
        extend_chars(&mut out, &unit);
        assert(v@.skip(i as int).skip(1) == v@.skip(i + 1));
        assert(out@ + escaped(v@.skip(i + 1)) == before + escaped(v@.skip(i as int)));
        i += 1;
    }
    assert(out@ + escaped(v@.skip(i as int)) == out@);
    text_of(&out)
}

/// A text as a string.
pub fn string_text(s: &str) -> (r: String)
    ensures
        r@ == json_string(s@),
{
    concat3("\"", escape(s).as_str(), "\"")
}

/// Texts as a list of strings.
pub fn list_text(v: &[String]) -> (r: String)
    ensures
        r@ == json_list(texts(v@)),
{
    let mut words: Vec<String> = Vec::new();
    let ghost all = texts(v@).map_values(|s: Seq<char>| json_string(s));
    let mut i: usize = 0;
    assert(texts(words@) == all.take(0));
    while i < v.len()
        invariant
            i <= v@.len(),
            all == texts(v@).map_values(|s: Seq<char>| json_string(s)),
            texts(words@) == all.take(i as int),
        decreases v@.len() - i,
    {
        let ghost before = words@;
        let word = string_text(v[i].as_str());
        words.push(word);
        assert(word@ == all[i as int]);
        assert(texts(words@) == texts(before).push(word@));
        assert(all.take(i + 1) == all.take(i as int).push(all[i as int]));
        i += 1;
    }
    assert(all.take(i as int) == all);
    concat3("[", join_strings(&words, ",").as_str(), "]")
}

/// A member of an object.
pub fn member_text(name: &str, value: &str) -> (r: String)
    ensures
        r@ == member(name@, value@),
{
    let front = concat2(string_text(name).as_str(), ":");
    concat2(front.as_str(), value)
}

// ---------------------------------------------------------------------------
// Reading
// ---------------------------------------------------------------------------

/// What a line for programs says.
pub enum Json {
    Text(Seq<char>),
    Number(nat),
    List(Seq<Json>),
    Object(Seq<(Seq<char>, Json)>),
}

/// What a hexadecimal digit stands for.
pub open spec fn hex_value(c: char) -> Option<nat> {
    if '0' <= c <= '9' {
        Some((c as int - 48) as nat)
    } else if 'a' <= c <= 'f' {
        Some((c as int - 87) as nat)
    } else if 'A' <= c <= 'F' {
        Some((c as int - 55) as nat)
    } else {
        None
    }
}

/// The character that four hexadecimal digits stand for; half a pair stands
/// for none.
pub open spec fn coded_char(s: Seq<char>) -> Option<char> {
    match (hex_value(s[0]), hex_value(s[1]), hex_value(s[2]), hex_value(s[3])) {
        (Some(a), Some(b), Some(c), Some(d)) => {
            let code = ((a * 16 + b) * 16 + c) * 16 + d;
            if 0xD800 <= code <= 0xDFFF {
                None
            } else {
                Some(code as u32 as char)
            }
        },
        _ => None,
    }
}

/// The character that stands behind a backslash.
pub open spec fn named_char(c: char) -> Option<char> {
    if c == '"' || c == '\\' || c == '/' {
        Some(c)
    } else if c == 'b' {
        Some('\u{8}')
    } else if c == 'f' {
        Some('\u{c}')
    } else if c == 'n' {
        Some('\n')
    } else if c == 'r' {
        Some('\r')
    } else if c == 't' {
        Some('\t')
    } else {
        None
    }
}

/// The first character of a string behind its opening quote, and what follows
/// it. A control character may not stand for itself.
pub open spec fn read_char(s: Seq<char>) -> Option<(char, Seq<char>)> {
    if s.len() == 0 || (s[0] as u32) < 32 {
        None
    } else if s[0] != '\\' {
        Some((s[0], s.skip(1)))
    } else if s.len() >= 6 && s[1] == 'u' {
        match coded_char(s.subrange(2, 6)) {
            Some(c) => Some((c, s.skip(6))),
            None => None,
        }
    } else if s.len() >= 2 {
        match named_char(s[1]) {
            Some(c) => Some((c, s.skip(2))),
            None => None,
        }
    } else {
        None
    }
}

/// A string behind its opening quote: what it says, and what follows its
/// closing quote.
pub open spec fn read_string(s: Seq<char>) -> Option<(Seq<char>, Seq<char>)>
    decreases s.len(),
{
    if s.len() > 0 && s[0] == '"' {
        Some((Seq::empty(), s.skip(1)))
    } else {
        match read_char(s) {
            Some((c, rest)) => match read_string(rest) {
                Some((text, end)) => Some((seq![c] + text, end)),
                None => None,
            },
            None => None,
        }
    }
}

/// Whether a character is a decimal digit.
pub open spec fn is_digit(c: char) -> bool {
    '0' <= c <= '9'
}

/// How many digits a text begins with.
pub open spec fn digits_ahead(s: Seq<char>) -> nat
    decreases s.len(),
{
    if s.len() > 0 && is_digit(s[0]) {
        1 + digits_ahead(s.skip(1))
    } else {
        0
    }
}

/// The number that digits stand for.
pub open spec fn number_of(digits: Seq<char>) -> nat
    decreases digits.len(),
{
    if digits.len() == 0 {
        0
    } else {
        number_of(digits.drop_last()) * 10 + (digits.last() as int - 48) as nat
    }
}

/// A number and what follows it. A zero is written before no other digit.
pub open spec fn read_number(s: Seq<char>) -> Option<(nat, Seq<char>)> {
    let n = digits_ahead(s);
    if n == 0 || (n > 1 && s[0] == '0') {
        None
    } else {
        Some((number_of(s.take(n as int)), s.skip(n as int)))
    }
}

/// A value without blanks in it, and what follows it.
#[verifier::opaque]
pub open spec fn read_value(s: Seq<char>) -> Option<(Json, Seq<char>)>
    decreases s.len(), 0nat,
{
    if s.len() == 0 {
        None
    } else if s[0] == '"' {
        match read_string(s.skip(1)) {
            Some((text, rest)) => Some((Json::Text(text), rest)),
            None => None,
        }
    } else if s[0] == '[' {
        if s.len() > 1 && s[1] == ']' {
            Some((Json::List(Seq::empty()), s.skip(2)))
        } else {
            match read_items(s.skip(1)) {
                Some((items, rest)) => Some((Json::List(items), rest)),
                None => None,
            }
        }
    } else if s[0] == '{' {
        if s.len() > 1 && s[1] == '}' {
            Some((Json::Object(Seq::empty()), s.skip(2)))
        } else {
            match read_members(s.skip(1)) {
                Some((members, rest)) => Some((Json::Object(members), rest)),
                None => None,
            }
        }
    } else {
        match read_number(s) {
            Some((n, rest)) => Some((Json::Number(n), rest)),
            None => None,
        }
    }
}

/// The items of a list behind its opening bracket, and what follows its
/// closing bracket.
#[verifier::opaque]
pub open spec fn read_items(s: Seq<char>) -> Option<(Seq<Json>, Seq<char>)>
    decreases s.len(), 1nat,
{
    match read_value(s) {
        Some((v, rest)) => if 0 < rest.len() <= s.len() && rest[0] == ',' {
            match read_items(rest.skip(1)) {
                Some((items, end)) => Some((seq![v] + items, end)),
                None => None,
            }
        } else if 0 < rest.len() && rest[0] == ']' {
            Some((seq![v], rest.skip(1)))
        } else {
            None
        },
        None => None,
    }
}

/// The members of an object behind its opening brace, and what follows its
/// closing brace.
#[verifier::opaque]
pub open spec fn read_members(s: Seq<char>) -> Option<(Seq<(Seq<char>, Json)>, Seq<char>)>
    decreases s.len(), 1nat,
{
    if s.len() == 0 || s[0] != '"' {
        None
    } else {
        match read_string(s.skip(1)) {
            Some((name, value)) => if 0 < value.len() < s.len() && value[0] == ':' {
                match read_value(value.skip(1)) {
                    Some((v, rest)) => if 0 < rest.len() < s.len() && rest[0] == ',' {
                        match read_members(rest.skip(1)) {
                            Some((members, end)) => Some((seq![(name, v)] + members, end)),
                            None => None,
                        }
                    } else if 0 < rest.len() && rest[0] == '}' {
                        Some((seq![(name, v)], rest.skip(1)))
                    } else {
                        None
                    },
                    None => None,
                }
            } else {
                None
            },
            None => None,
        }
    }
}

/// What a line says, where it is one JSON value and nothing else.
pub open spec fn parsed(line: Seq<char>) -> Option<Json> {
    match read_value(line) {
        Some((v, rest)) => if rest.len() == 0 {
            Some(v)
        } else {
            None
        },
        None => None,
    }
}

/// Texts as a reader gets them.
pub open spec fn json_texts(v: Seq<Seq<char>>) -> Json {
    Json::List(v.map_values(|s: Seq<char>| Json::Text(s)))
}

// ---------------------------------------------------------------------------
// What was written is read back
// ---------------------------------------------------------------------------

proof fn a_character_reads_back(c: char, rest: Seq<char>)
    ensures
        escaped_char(c)[0] != '"',
        read_char(escaped_char(c) + rest) == Some((c, rest)),
{
    let all = escaped_char(c) + rest;
    assert(escaped_char(c).len() > 0);
    assert(all[0] == escaped_char(c)[0]);
    if c == '\\' || c == '"' {
        assert(all[1] == c);
        assert(all.skip(2) == rest);
    } else if (c as u32) < 32 {
        let code = c as u8;
        let four = all.subrange(2, 6);
        assert(four == seq!['0', '0', hex_digit(code / 16), hex_digit(code % 16)]);
        assert(hex_value('0') == Some(0nat));
        let high = code / 16;
        let low = code % 16;
        assert(high < 2);
        assert(hex_digit(high) as int == 48 + high);
        assert(hex_value(hex_digit(high)) == Some(high as nat));
        if low < 10 {
            assert(hex_digit(low) as int == 48 + low);
        } else {
            assert(hex_digit(low) as int == 87 + low);
        }
        assert(hex_value(hex_digit(low)) == Some(low as nat));
        assert(high * 16 + low == code);
        let whole = ((0nat * 16 + 0nat) * 16 + high as nat) * 16 + low as nat;
        assert(whole == code);
        assert(whole as u32 as char == c);
        assert(coded_char(four) == Some(c));
        assert(all[1] == 'u');
        assert(all.skip(6) == rest);
    } else {
        assert(all.skip(1) == rest);
    }
}

/// A reader gets back every text that was written as a string, and knows
/// where it ends.
pub proof fn strings_read_back(s: Seq<char>, rest: Seq<char>)
    ensures
        read_string(escaped(s) + seq!['"'] + rest) == Some((s, rest)),
    decreases s.len(),
{
    let all = escaped(s) + seq!['"'] + rest;
    if s.len() == 0 {
        assert(all.skip(1) == rest);
        assert(s == Seq::<char>::empty());
    } else {
        let tail = escaped(s.skip(1)) + seq!['"'] + rest;
        assert(all == escaped_char(s[0]) + tail);
        a_character_reads_back(s[0], tail);
        strings_read_back(s.skip(1), rest);
        assert(seq![s[0]] + s.skip(1) == s);
    }
}

proof fn a_character_holds_no_control_character(c: char)
    ensures
        forall|i: int|
            0 <= i < escaped_char(c).len() ==> (#[trigger] escaped_char(c)[i]) as u32 >= 32,
{
    if (c as u32) < 32 {
        let code = c as u8;
        assert(hex_digit(code / 16) as int == 48 + code / 16);
        assert(code % 16 < 10 ==> hex_digit(code % 16) as int == 48 + code % 16);
        assert(code % 16 >= 10 ==> hex_digit(code % 16) as int == 87 + code % 16);
    }
}

/// No control character stands in a string, so that a line that holds it stays
/// one line.
pub proof fn strings_hold_no_control_character(s: Seq<char>)
    ensures
        forall|i: int| 0 <= i < escaped(s).len() ==> (#[trigger] escaped(s)[i]) as u32 >= 32,
    decreases s.len(),
{
    if s.len() > 0 {
        strings_hold_no_control_character(s.skip(1));
        let first = escaped_char(s[0]);
        a_character_holds_no_control_character(s[0]);
        assert forall|i: int| 0 <= i < escaped(s).len() implies (#[trigger] escaped(s)[i]) as u32
            >= 32 by {
            if i < first.len() {
                assert(escaped(s)[i] == first[i]);
            } else {
                assert(escaped(s)[i] == escaped(s.skip(1))[i - first.len()]);
            }
        }
    }
}

/// A number is written in decimal digits, without a needless zero in front, and
/// the digits stand for it.
pub proof fn decimals_are_digits(n: nat)
    ensures
        decimal(n).len() > 0,
        forall|i: int| 0 <= i < decimal(n).len() ==> is_digit(#[trigger] decimal(n)[i]),
        number_of(decimal(n)) == n,
        decimal(n)[0] == '0' ==> n == 0,
    decreases n,
{
    reveal_with_fuel(number_of, 2);
    if n < 10 {
        assert(digit(n) as int == 48 + n);
        assert(decimal(n).drop_last() == Seq::<char>::empty());
    } else {
        decimals_are_digits(n / 10);
        assert(digit(n % 10) as int == 48 + n % 10);
        assert(decimal(n).drop_last() == decimal(n / 10));
        assert(decimal(n)[0] == decimal(n / 10)[0]);
    }
}

proof fn digits_are_counted(digits: Seq<char>, rest: Seq<char>)
    requires
        forall|i: int| 0 <= i < digits.len() ==> is_digit(#[trigger] digits[i]),
        rest.len() == 0 || !is_digit(rest[0]),
    ensures
        digits_ahead(digits + rest) == digits.len(),
    decreases digits.len(),
{
    let all = digits + rest;
    if digits.len() == 0 {
        assert(all == rest);
    } else {
        assert(is_digit(digits[0]));
        assert(all[0] == digits[0]);
        assert(all.skip(1) == digits.skip(1) + rest);
        assert forall|i: int| 0 <= i < digits.skip(1).len() implies is_digit(
            #[trigger] digits.skip(1)[i],
        ) by {
            assert(digits.skip(1)[i] == digits[i + 1]);
        }
        digits_are_counted(digits.skip(1), rest);
    }
}

/// A reader gets back every number.
pub proof fn numbers_read_back(n: nat, rest: Seq<char>)
    requires
        rest.len() == 0 || !is_digit(rest[0]),
    ensures
        read_value(decimal(n) + rest) == Some((Json::Number(n), rest)),
{
    reveal(read_value);
    reveal(read_items);
    reveal(read_members);
    let all = decimal(n) + rest;
    decimals_are_digits(n);
    digits_are_counted(decimal(n), rest);
    assert(all[0] == decimal(n)[0]);
    assert(is_digit(decimal(n)[0]));
    assert(all.take(decimal(n).len() as int) == decimal(n));
    assert(all.skip(decimal(n).len() as int) == rest);
    if decimal(n)[0] == '0' {
        assert(n == 0);
        assert(decimal(0).len() == 1);
    }
}

/// A reader gets back every text.
pub proof fn texts_read_back(s: Seq<char>, rest: Seq<char>)
    ensures
        read_value(json_string(s) + rest) == Some((Json::Text(s), rest)),
{
    reveal(read_value);
    reveal(read_items);
    reveal(read_members);
    reveal_strlit("\"");
    let all = json_string(s) + rest;
    assert(all[0] == '"');
    assert(all.skip(1) == escaped(s) + seq!['"'] + rest);
    strings_read_back(s, rest);
}

proof fn items_read_back(v: Seq<Seq<char>>, rest: Seq<char>)
    requires
        v.len() > 0,
    ensures
        read_items(join(v.map_values(|s: Seq<char>| json_string(s)), ","@) + "]"@ + rest) == Some(
            (v.map_values(|s: Seq<char>| Json::Text(s)), rest),
        ),
    decreases v.len(),
{
    reveal(read_value);
    reveal(read_items);
    reveal(read_members);
    reveal_strlit(",");
    reveal_strlit("]");
    let words = v.map_values(|s: Seq<char>| json_string(s));
    let read = v.map_values(|s: Seq<char>| Json::Text(s));
    let all = join(words, ","@) + "]"@ + rest;
    if v.len() == 1 {
        let tail = "]"@ + rest;
        assert(all == json_string(v[0]) + tail);
        texts_read_back(v[0], tail);
        assert(tail.skip(1) == rest);
        assert(read == seq![Json::Text(v[0])]);
    } else {
        let later = v.skip(1);
        items_read_back(later, rest);
        let later_words = later.map_values(|s: Seq<char>| json_string(s));
        assert(later_words == words.skip(1));
        joined_from_the_front(words, ","@);
        let tail = join(later_words, ","@) + "]"@ + rest;
        assert(all == json_string(v[0]) + (","@ + tail));
        texts_read_back(v[0], ","@ + tail);
        assert((","@ + tail).skip(1) == tail);
        assert(read == seq![Json::Text(v[0])] + later.map_values(|s: Seq<char>| Json::Text(s)));
    }
}

proof fn joined_from_the_front(parts: Seq<Seq<char>>, sep: Seq<char>)
    requires
        parts.len() > 1,
    ensures
        join(parts, sep) == parts[0] + sep + join(parts.skip(1), sep),
    decreases parts.len(),
{
    if parts.len() == 2 {
        assert(join(parts.drop_last(), sep) == parts[0]);
        assert(parts.skip(1)[0] == parts[1]);
    } else {
        joined_from_the_front(parts.drop_last(), sep);
        assert(parts.drop_last().skip(1) == parts.skip(1).drop_last());
        assert(parts.skip(1).last() == parts.last());
        assert(join(parts, sep) == parts[0] + sep + join(parts.skip(1), sep));
    }
}

/// A reader gets back every list of texts.
pub proof fn lists_read_back(v: Seq<Seq<char>>, rest: Seq<char>)
    ensures
        read_value(json_list(v) + rest) == Some((json_texts(v), rest)),
{
    reveal(read_value);
    reveal(read_items);
    reveal(read_members);
    reveal_strlit("[");
    reveal_strlit("]");
    let words = v.map_values(|s: Seq<char>| json_string(s));
    let all = json_list(v) + rest;
    assert(all[0] == '[');
    if v.len() == 0 {
        assert(join(words, ","@) == Seq::<char>::empty());
        assert(all[1] == ']');
        assert(all.skip(2) == rest);
        assert(v.map_values(|s: Seq<char>| Json::Text(s)) == Seq::<Json>::empty());
    } else {
        let tail = join(words, ","@) + "]"@ + rest;
        assert(all.skip(1) == tail);
        items_read_back(v, rest);
        reveal_strlit("\"");
        if v.len() > 1 {
            joined_from_the_front(words, ","@);
        }
        assert(words[0][0] == '"');
        assert(join(words, ","@)[0] == '"');
        assert(all[1] == tail[0]);
    }
}

/// A reader gets back the last member of an object.
pub proof fn last_members_read_back(name: Seq<char>, value: Seq<char>, v: Json, rest: Seq<char>)
    requires
        read_value(value + ("}"@ + rest)) == Some((v, "}"@ + rest)),
    ensures
        read_members(member(name, value) + ("}"@ + rest)) == Some((seq![(name, v)], rest)),
{
    reveal(read_value);
    reveal(read_items);
    reveal(read_members);
    reveal_strlit("\"");
    reveal_strlit(":");
    reveal_strlit("}");
    let tail = value + ("}"@ + rest);
    let all = member(name, value) + ("}"@ + rest);
    assert(all[0] == '"');
    assert(all.skip(1) == escaped(name) + seq!['"'] + (":"@ + tail));
    strings_read_back(name, ":"@ + tail);
    assert((":"@ + tail).skip(1) == tail);
    assert(("}"@ + rest).skip(1) == rest);
}

/// A reader gets back a member of an object before others.
pub proof fn members_read_back(
    name: Seq<char>,
    value: Seq<char>,
    v: Json,
    others: Seq<char>,
    members: Seq<(Seq<char>, Json)>,
    rest: Seq<char>,
)
    requires
        read_value(value + (","@ + others)) == Some((v, ","@ + others)),
        read_members(others) == Some((members, rest)),
    ensures
        read_members(member(name, value) + (","@ + others)) == Some(
            (seq![(name, v)] + members, rest),
        ),
{
    reveal(read_value);
    reveal(read_items);
    reveal(read_members);
    reveal_strlit("\"");
    reveal_strlit(":");
    reveal_strlit(",");
    let tail = value + (","@ + others);
    let all = member(name, value) + (","@ + others);
    assert(all[0] == '"');
    assert(all.skip(1) == escaped(name) + seq!['"'] + (":"@ + tail));
    strings_read_back(name, ":"@ + tail);
    assert((":"@ + tail).skip(1) == tail);
    assert((","@ + others).skip(1) == others);
}

/// A reader gets back an object from its members.
pub proof fn objects_read_back(
    body: Seq<char>,
    members: Seq<(Seq<char>, Json)>,
    rest: Seq<char>,
)
    requires
        read_members(body) == Some((members, rest)),
    ensures
        read_value("{"@ + body) == Some((Json::Object(members), rest)),
{
    reveal(read_value);
    reveal(read_items);
    reveal(read_members);
    reveal_strlit("{");
    let all = "{"@ + body;
    assert(all[0] == '{');
    assert(all.skip(1) == body);
    assert(body[0] == '"');
}

} // verus!
