//! The names of files: the part before the extension, the numbered names that
//! stand in for one that is taken, and names without spaces.

use vstd::prelude::*;
use vstd::utf8::*;

#[allow(unused_imports)]
use crate::json::{decimals_are_digits, is_digit};
use crate::paths::{components_of, file_name_of, join_paths, parent_of, strip_base_of, Unit};
#[allow(unused_imports)]
use crate::paths::{
    a_file_name_has_no_slash, a_path_has_components, body_components, body_of_the_joined, body_start, components,
    components_are_pieces, components_below_a_base, components_below_nothing,
    components_by_the_body, components_have_no_slash, components_of_one_piece,
    components_of_the_joined, file_name, has_root, head_len, is_void, join_path,
    joined_below_the_base, leads_with_dot, parent, parts, strip_base, tail,
    the_directory_has_all_components_but_the_last, the_name_is_the_last_component,
    the_path_below_a_base_has_no_root,
};
use crate::text::{
    chars_of, decimal_chars, extend_chars, lists, lossy_text, owned, part, remove_spaces, text_of,
};
#[allow(unused_imports)]
use crate::text::{
    decimal, decimal_is_injective, replaced, spaces_are_removed_for_good, texts, utf8_lossy,
    without_spaces, without_spaces_keeps_the_rest,
};

verus! {

// ---------------------------------------------------------------------------
// Stem and extension
// ---------------------------------------------------------------------------

/// Where the last full stop of a name stands, or -1.
pub open spec fn last_dot<T: Unit>(name: Seq<T>) -> int
    decreases name.len(),
{
    if name.len() == 0 {
        -1
    } else if name.last() == T::dot() {
        name.len() - 1
    } else {
        last_dot(name.drop_last())
    }
}

/// The name without its extension; a leading full stop begins none.
pub open spec fn stem<T: Unit>(name: Seq<T>) -> Seq<T> {
    if last_dot(name) <= 0 {
        name
    } else {
        name.take(last_dot(name))
    }
}

/// What stands behind the full stop that begins the extension.
pub open spec fn extension<T: Unit>(name: Seq<T>) -> Option<Seq<T>> {
    if last_dot(name) <= 0 {
        None
    } else {
        Some(name.skip(last_dot(name) + 1))
    }
}

proof fn last_dot_bounds<T: Unit>(name: Seq<T>)
    ensures
        -1 <= last_dot(name) < name.len() || name.len() == 0,
        last_dot(name) >= 0 ==> name[last_dot(name)] == T::dot(),
    decreases name.len(),
{
    if name.len() > 0 && name.last() != T::dot() {
        last_dot_bounds(name.drop_last());
    }
}

/// The stem of a name and its extension.
pub fn split_extension<T: Unit>(name: &[T]) -> (r: (Vec<T>, Option<Vec<T>>))
    ensures
        r.0@ == stem(name@),
        (match r.1 {
            Some(v) => Some(v@),
            None => None,
        }) == extension(name@),
{
    let mut i: usize = name.len();
    assert(name@.take(i as int) == name@);
    while i > 0 && !name[i - 1].is_dot()
        invariant
            i <= name@.len(),
            last_dot(name@) == last_dot(name@.take(i as int)),
        decreases i,
    {
        assert(name@.take(i as int).drop_last() == name@.take(i - 1));
        i -= 1;
    }
    assert(last_dot(name@) == i - 1);
    if i <= 1 {
        assert(name@.subrange(0, name@.len() as int) == name@);
        (part(name, 0, name.len()), None)
    } else {
        assert(name@.subrange(0, i - 1) == name@.take(i - 1));
        assert(name@.subrange(i as int, name@.len() as int) == name@.skip(i as int));
        (part(name, 0, i - 1), Some(part(name, i, name.len())))
    }
}

/// The extension is what stands behind the last full stop: none is in it, and
/// something stands before it. A name without an extension has no full stop
/// behind its first unit.
pub proof fn the_extension_begins_at_the_last_full_stop<T: Unit>(name: Seq<T>)
    ensures
        match extension(name) {
            Some(e) => !e.contains(T::dot()) && stem(name).len() > 0,
            None => forall|k: int| 1 <= k < name.len() ==> name[k] != T::dot(),
        },
{
    last_dot_bounds(name);
    no_dot_behind_the_last(name);
    if let Some(e) = extension(name) {
        assert forall|k: int| 0 <= k < e.len() implies e[k] != T::dot() by {
            assert(e[k] == name[last_dot(name) + 1 + k]);
        }
    }
}

proof fn no_dot_behind_the_last<T: Unit>(name: Seq<T>)
    ensures
        forall|k: int| last_dot(name) < k < name.len() && 0 <= k ==> name[k] != T::dot(),
    decreases name.len(),
{
    if name.len() > 0 && name.last() != T::dot() {
        let front = name.drop_last();
        no_dot_behind_the_last(front);
        assert forall|k: int| last_dot(name) < k < name.len() && 0 <= k implies name[k]
            != T::dot() by {
            if k < front.len() {
                assert(front[k] == name[k]);
            }
        }
    }
}

/// A name that splits into stem and extension is the stem, a full stop and
/// the extension; one that does not is its own stem.
pub proof fn stem_and_extension_make_the_name<T: Unit>(name: Seq<T>)
    ensures
        match extension(name) {
            Some(e) => stem(name).push(T::dot()) + e == name,
            None => stem(name) == name,
        },
{
    last_dot_bounds(name);
}

// ---------------------------------------------------------------------------
// Numbered names
// ---------------------------------------------------------------------------

/// `stem (n)ext`.
pub open spec fn numbered(stem: Seq<char>, n: nat, ext: Seq<char>) -> Seq<char> {
    stem + seq![' ', '('] + decimal(n) + seq![')'] + ext
}

/// The directory of a path, or `.` where it has none.
pub open spec fn parent_or_here<T: Unit>(p: Seq<T>) -> Seq<T> {
    match parent(p) {
        Some(d) => d,
        None => seq![T::dot()],
    }
}

/// The stem of the path's name.
pub open spec fn name_stem<T: Unit>(p: Seq<T>) -> Seq<T> {
    match file_name(p) {
        Some(f) => stem(f),
        None => Seq::empty(),
    }
}

/// The extension of the path's name.
pub open spec fn name_extension<T: Unit>(p: Seq<T>) -> Option<Seq<T>> {
    match file_name(p) {
        Some(f) => extension(f),
        None => None,
    }
}

/// An extension with its full stop, as text.
pub open spec fn dotted(ext: Option<Seq<char>>) -> Seq<char> {
    match ext {
        Some(e) => seq!['.'] + e,
        None => Seq::empty(),
    }
}

/// The remote path that stands in for `original` at the `n`th try.
pub open spec fn remote_candidate(original: Seq<char>, n: nat) -> Seq<char> {
    join_path(
        parent_or_here(original),
        numbered(name_stem(original), n, dotted(name_extension(original))),
    )
}

/// An extension of bytes as text.
pub open spec fn shown_extension(ext: Option<Seq<u8>>) -> Option<Seq<char>> {
    match ext {
        Some(e) => Some(utf8_lossy(e)),
        None => None,
    }
}

/// The local path that stands in for `original` at the `n`th try.
pub open spec fn local_candidate(original: Seq<u8>, n: nat) -> Seq<u8> {
    join_path(
        parent_or_here(original),
        encode_utf8(
            numbered(
                utf8_lossy(name_stem(original)),
                n,
                dotted(shown_extension(name_extension(original))),
            ),
        ),
    )
}

/// `stem (n)ext`.
pub fn numbered_name(stem: &[char], n: u32, ext: &[char]) -> (r: Vec<char>)
    ensures
        r@ == numbered(stem@, n as nat, ext@),
{
    assert(stem@.subrange(0, stem@.len() as int) == stem@);
    let mut r = part(stem, 0, stem.len());
    r.push(' ');
    r.push('(');
    extend_chars(&mut r, &decimal_chars(n as u64));
    r.push(')');
    extend_chars(&mut r, ext);
    assert(r@ == numbered(stem@, n as nat, ext@));
    r
}

fn parent_or_here_of<T: Unit>(p: &[T]) -> (r: Vec<T>)
    ensures
        r@ == parent_or_here(p@),
{
    match parent_of(p) {
        Some(d) => d,
        None => {
            let mut r: Vec<T> = Vec::new();
            r.push(T::dot_unit());
            assert(r@ == seq![T::dot()]);
            r
        },
    }
}

fn name_parts<T: Unit>(p: &[T]) -> (r: (Vec<T>, Option<Vec<T>>))
    ensures
        r.0@ == name_stem(p@),
        (match r.1 {
            Some(v) => Some(v@),
            None => None,
        }) == name_extension(p@),
{
    match file_name_of(p) {
        Some(f) => split_extension(&f),
        None => {
            let none: Vec<T> = Vec::new();
            assert(none@ == Seq::<T>::empty());
            (none, None)
        },
    }
}

/// The remote path that stands in for `original` at the `n`th try.
pub fn remote_candidate_path(original: &str, n: u32) -> (r: String)
    ensures
        r@ == remote_candidate(original@, n as nat),
{
    let p = chars_of(original);
    let dir = parent_or_here_of(&p);
    let (stem, ext) = name_parts(&p);
    let mut tail: Vec<char> = Vec::new();
    if let Some(e) = &ext {
        tail.push('.');
        extend_chars(&mut tail, e);
    }
    assert(tail@ == dotted(name_extension(original@)));
    text_of(&join_paths(&dir, &numbered_name(&stem, n, &tail)))
}

/// The local path that stands in for a path in the directory `dir` with the
/// stem and the extension that are given as text.
pub fn candidate_in(dir: &[u8], stem: &str, ext: Option<&str>, n: u32) -> (r: Vec<u8>)
    ensures
        r@ == join_path(
            dir@,
            encode_utf8(
                numbered(
                    stem@,
                    n as nat,
                    dotted(
                        match ext {
                            Some(e) => Some(e@),
                            None => None,
                        },
                    ),
                ),
            ),
        ),
{
    let mut tail: Vec<char> = Vec::new();
    if let Some(e) = ext {
        tail.push('.');
        extend_chars(&mut tail, &chars_of(e));
        assert(tail@ == seq!['.'] + e@);
    }
    let stem_chars = chars_of(stem);
    let name = text_of(&numbered_name(&stem_chars, n, &tail));
    join_paths(dir, name.as_str().as_bytes())
}

/// The local path that stands in for `original` at the `n`th try.
/// It lies in the same directory; its name has the number in brackets behind
/// the stem, and keeps the extension.
pub fn local_candidate_path(original: &[u8], n: u32) -> (r: Vec<u8>)
    ensures
        r@ == local_candidate(original@, n as nat),
        file_name(original@) is Some ==> {
            let f = file_name(original@)->0;
            let name = utf8_lossy(stem(f)) + seq![' ', '('] + decimal(n as nat) + seq![')'] + (
            match extension(f) {
                Some(e) => seq!['.'] + utf8_lossy(e),
                None => Seq::empty(),
            });
            components(r@) == components(original@).drop_last().push(encode_utf8(name))
        },
{
    let dir = parent_or_here_of(original);
    let (stem, ext) = name_parts(original);
    let stem_text = lossy_text(&stem);
    proof {
        if file_name(original@) is Some {
            a_file_name_has_no_slash(original@);
            parts_of_a_name_have_no_slash(file_name(original@)->0);
        }
    }
    match &ext {
        Some(e) => {
            let ext_text = lossy_text(e);
            proof {
                let name = numbered(stem_text@, n as nat, dotted(Some(ext_text@)));
                if file_name(original@) is Some {
                    a_numbered_name_has_no_slash(stem_text@, n as nat, Some(ext_text@));
                    no_text_of_several_characters_is_void(name);
                    no_ascii_among_the_bytes(name, '/');
                    a_new_name_in_the_directory(original@, encode_utf8(name));
                }
            }
            candidate_in(&dir, stem_text.as_str(), Some(ext_text.as_str()), n)
        },
        None => {
            proof {
                let name = numbered(stem_text@, n as nat, dotted(None));
                if file_name(original@) is Some {
                    a_numbered_name_has_no_slash(stem_text@, n as nat, None);
                    no_text_of_several_characters_is_void(name);
                    no_ascii_among_the_bytes(name, '/');
                    a_new_name_in_the_directory(original@, encode_utf8(name));
                }
            }
            candidate_in(&dir, stem_text.as_str(), None, n)
        },
    }
}

/// A name that is put in the place of another in a path leaves the directory as
/// it is.
proof fn a_new_name_in_the_directory<T: Unit>(p: Seq<T>, name: Seq<T>)
    requires
        file_name(p) is Some,
        !name.contains(T::slash()),
        !is_void(name),
    ensures
        components(join_path(parent_or_here(p), name)) == components(p).drop_last().push(name),
{
    the_name_is_the_last_component(p);
    the_directory_has_all_components_but_the_last(p);
    if components(p) == seq![seq![T::slash()]] {
        assert(components(p).last() == seq![T::slash()]);
    }
    let dir = parent(p)->0;
    if has_root(name) {
        assert(name.contains(name[0]));
    }
    components_of_one_piece(name);
    if dir.len() > 0 {
        components_of_the_joined(dir, name);
        assert(components(dir) + seq![name] == components(dir).push(name));
    } else {
        assert(join_path(dir, name) == name);
        assert(dir == Seq::<T>::empty());
        assert(components(dir) == Seq::<Seq<T>>::empty());
        if leads_with_dot(name) && name.len() > 1 {
            assert(name.contains(name[1]));
        }
        assert(body_start(name) == 0);
        assert(components(p).drop_last().push(name) == seq![name]);
    }
}

/// The name that stands in for another holds no slash where the parts of that
/// hold none.
proof fn a_numbered_name_has_no_slash(stem: Seq<char>, n: nat, ext: Option<Seq<char>>)
    requires
        !stem.contains('/'),
        ext is Some ==> !ext->0.contains('/'),
    ensures
        !numbered(stem, n, dotted(ext)).contains('/'),
        numbered(stem, n, dotted(ext)).len() >= 4,
{
    decimals_are_digits(n);
    let name = numbered(stem, n, dotted(ext));
    let d = decimal(n);
    let a = stem.len() as int;
    let b = a + 2 + d.len();
    assert forall|k: int| 0 <= k < name.len() implies name[k] != '/' by {
        if k < a {
            assert(name[k] == stem[k]);
            assert(stem.contains(stem[k]));
        } else if k < a + 2 {
        } else if k < b {
            assert(name[k] == d[k - a - 2]);
            assert(is_digit(d[k - a - 2]));
        } else if k == b {
        } else {
            assert(name[k] == dotted(ext)[k - b - 1]);
            if k > b + 1 {
                assert(dotted(ext)[k - b - 1] == ext->0[k - b - 2]);
                assert(ext->0.contains(ext->0[k - b - 2]));
            }
        }
    }
}

proof fn parts_of_a_name_have_no_slash<T: Unit>(name: Seq<T>)
    requires
        !name.contains(T::slash()),
    ensures
        !stem(name).contains(T::slash()),
        extension(name) is Some ==> !extension(name)->0.contains(T::slash()),
{
    last_dot_bounds(name);
    let s = stem(name);
    assert forall|k: int| 0 <= k < s.len() implies s[k] != T::slash() by {
        assert(name.contains(name[k]));
    }
    if let Some(e) = extension(name) {
        assert forall|k: int| 0 <= k < e.len() implies e[k] != T::slash() by {
            assert(name.contains(name[last_dot(name) + 1 + k]));
        }
    }
}

/// The path that stands in for another lies in the same directory. Its name is
/// that of the other with the number in brackets behind the stem, and it keeps
/// the extension.
pub proof fn a_stand_in_keeps_directory_and_extension(original: Seq<char>, n: nat)
    requires
        file_name(original) is Some,
    ensures
        ({
            let f = file_name(original)->0;
            let name = stem(f) + seq![' ', '('] + decimal(n) + seq![')'] + (match extension(f) {
                Some(e) => seq!['.'] + e,
                None => Seq::empty(),
            });
            components(remote_candidate(original, n)) == components(original).drop_last().push(name)
        }),
{
    let f = file_name(original)->0;
    a_file_name_has_no_slash(original);
    parts_of_a_name_have_no_slash(f);
    a_numbered_name_has_no_slash(stem(f), n, extension(f));
    a_new_name_in_the_directory(original, numbered(stem(f), n, dotted(extension(f))));
}

proof fn no_text_of_several_characters_is_void(s: Seq<char>)
    requires
        s.len() > 1,
    ensures
        !is_void(encode_utf8(s)),
{
    encode_utf8_decode_utf8(s);
    alone('.');
    encode_utf8_decode_utf8(seq!['.']);
    encode_utf8_decode_utf8(Seq::<char>::empty());
    if encode_utf8(s).len() == 0 {
        assert(encode_utf8(s) == Seq::<u8>::empty());
        assert(encode_utf8(Seq::<char>::empty()) == Seq::<u8>::empty());
        assert(s == Seq::<char>::empty());
    } else if is_void(encode_utf8(s)) {
        assert(encode_utf8(s) == seq![46u8]);
        assert(s == seq!['.']);
    }
}

/// Whether the `n`th try is the first one that is not taken.
pub open spec fn first_free(original: Seq<char>, taken: Seq<Seq<char>>, n: nat) -> bool {
    &&& n >= 1
    &&& !taken.contains(remote_candidate(original, n))
    &&& forall|m: nat| 1 <= m < n ==> taken.contains(#[trigger] remote_candidate(original, m))
}

/// Whether one of the numbers that a `u32` holds gives a path that is not taken.
pub open spec fn some_free(original: Seq<char>, taken: Seq<Seq<char>>) -> bool {
    exists|n: nat|
        1 <= n <= u32::MAX && !taken.contains(#[trigger] remote_candidate(original, n))
}

/// The first try from the `n`th on that is not taken.
pub open spec fn free_from(original: Seq<char>, taken: Seq<Seq<char>>, n: nat) -> Option<Seq<char>>
    decreases u32::MAX + 1 - n,
{
    if n > u32::MAX {
        None
    } else if taken.contains(remote_candidate(original, n)) {
        free_from(original, taken, n + 1)
    } else {
        Some(remote_candidate(original, n))
    }
}

/// Looks for a remote path that is not in `existing`, by putting ` (1)`, ` (2)`
/// and so on before the extension; there is none only when all the numbers
/// are used up.
pub fn free_remote_path(original: &str, existing: &[String]) -> (r: Option<String>)
    ensures
        (match r {
            Some(p) => Some(p@),
            None => None,
        }) == free_from(original@, texts(existing@), 1),
{
    let mut n: u32 = 1;
    loop
        invariant
            1 <= n,
            free_from(original@, texts(existing@), 1) == free_from(
                original@,
                texts(existing@),
                n as nat,
            ),
        decreases u32::MAX - n,
    {
        let candidate = remote_candidate_path(original, n);
        if !lists(existing, candidate.as_str()) {
            return Some(candidate);
        }
        if n == u32::MAX {
            assert(free_from(original@, texts(existing@), (n + 1) as nat) is None);
            return None;
        }
        n += 1;
    }
}

/// What the search finds is the first try that is not taken, and it finds
/// nothing only when every try is.
pub proof fn free_from_is_the_first(original: Seq<char>, taken: Seq<Seq<char>>, n: nat)
    requires
        n >= 1,
        forall|m: nat| 1 <= m < n ==> taken.contains(#[trigger] remote_candidate(original, m)),
    ensures
        match free_from(original, taken, n) {
            Some(path) => exists|k: nat| #[trigger]
                first_free(original, taken, k) && path == remote_candidate(original, k),
            None => !some_free(original, taken),
        },
    decreases u32::MAX + 1 - n,
{
    if n <= u32::MAX {
        if taken.contains(remote_candidate(original, n)) {
            free_from_is_the_first(original, taken, n + 1);
        } else {
            assert(first_free(original, taken, n));
        }
    }
}

/// Finds a remote path that is not in `existing`, by putting ` (1)`, ` (2)`
/// and so on before the extension.
pub fn find_unique_remote_path_from_set(original: &str, existing: &[String]) -> (r: String)
    requires
        some_free(original@, texts(existing@)),
    ensures
        Some(r@) == free_from(original@, texts(existing@), 1),
        !texts(existing@).contains(r@),
        exists|n: nat| #[trigger]
            first_free(original@, texts(existing@), n) && r@ == remote_candidate(original@, n),
{
    proof {
        free_from_is_the_first(original@, texts(existing@), 1);
    }
    match free_remote_path(original, existing) {
        Some(path) => path,
        None => owned(original),
    }
}

/// How the search for a remote path goes on.
#[derive(Debug)]
pub enum Search {
    /// The path is free.
    Found(String),
    /// The next number is to be tried.
    Next(u32),
    /// All the numbers are used up.
    Exhausted,
}

/// How the search for a remote path goes on behind the `n`th try, where
/// `taken` says whether the host has something at that path.
pub fn search_remote_path(original: &str, n: u32, taken: bool) -> (r: Search)
    ensures
        match r {
            Search::Found(path) => !taken && path@ == remote_candidate(original@, n as nat),
            Search::Next(m) => taken && m == n + 1,
            Search::Exhausted => taken && n == u32::MAX,
        },
        // Where the host answers by what is on it, the search finds the first
        // path that is free.
        forall|there: Seq<Seq<char>>|
            n >= 1 && taken == there.contains(remote_candidate(original@, n as nat)) ==> (
            match r {
                Search::Found(path) => #[trigger] free_from(original@, there, n as nat) == Some(
                    path@,
                ),
                Search::Next(m) => free_from(original@, there, n as nat) == free_from(
                    original@,
                    there,
                    m as nat,
                ),
                Search::Exhausted => free_from(original@, there, n as nat) is None,
            }),
{
    assert forall|there: Seq<Seq<char>>|
        #![trigger free_from(original@, there, n as nat)]
        there.contains(remote_candidate(original@, n as nat)) implies (if n == u32::MAX {
        free_from(original@, there, n as nat) is None
    } else {
        free_from(original@, there, n as nat) == free_from(original@, there, (n + 1) as nat)
    }) by {
        reveal_with_fuel(free_from, 2);
    }
    if !taken {
        Search::Found(remote_candidate_path(original, n))
    } else if n == u32::MAX {
        Search::Exhausted
    } else {
        Search::Next(n + 1)
    }
}

/// Different tries give different paths.
pub proof fn candidates_differ(original: Seq<char>, a: nat, b: nat)
    requires
        remote_candidate(original, a) == remote_candidate(original, b),
    ensures
        a == b,
{
    let ext = dotted(name_extension(original));
    let stem = name_stem(original);
    let x = remote_candidate(original, a);
    let y = remote_candidate(original, b);
    assert(numbered(stem, a, ext)[0] == numbered(stem, b, ext)[0]);
    let base = parent_or_here(original);
    let dir = if has_root(numbered(stem, a, ext)) {
        Seq::empty()
    } else if base.len() > 0 && base.last() != '/' {
        base.push('/')
    } else {
        base
    };
    let front = dir + stem + seq![' ', '('];
    assert(x == front + decimal(a) + seq![')'] + ext);
    assert(y == front + decimal(b) + seq![')'] + ext);
    let from = front.len() as int;
    assert(decimal(a).len() == x.len() - from - 1 - ext.len());
    assert(decimal(b).len() == y.len() - from - 1 - ext.len());
    let to = from + decimal(a).len();
    assert(x.subrange(from, to) == decimal(a));
    assert(y.subrange(from, to) == decimal(b));
    decimal_is_injective(a, b);
}

/// The first `k` tries for `original`.
pub open spec fn tries(original: Seq<char>, k: nat) -> Set<Seq<char>>
    decreases k,
{
    if k == 0 {
        Set::empty()
    } else {
        tries(original, (k - 1) as nat).insert(remote_candidate(original, k))
    }
}

proof fn tries_are_many(original: Seq<char>, k: nat)
    ensures
        tries(original, k).finite(),
        tries(original, k).len() == k,
        forall|s: Seq<char>| #[trigger]
            tries(original, k).contains(s) ==> exists|n: nat|
                1 <= n <= k && s == #[trigger] remote_candidate(original, n),
    decreases k,
{
    if k > 0 {
        let fewer = (k - 1) as nat;
        tries_are_many(original, fewer);
        let last = remote_candidate(original, k);
        if tries(original, fewer).contains(last) {
            let n = choose|n: nat| 1 <= n <= fewer && last == #[trigger] remote_candidate(original, n);
            candidates_differ(original, n, k);
        }
        assert forall|s: Seq<char>| #[trigger] tries(original, k).contains(s) implies exists|n: nat|
            1 <= n <= k && s == #[trigger] remote_candidate(original, n) by {
            if s != last {
                assert(tries(original, fewer).contains(s));
                let n = choose|n: nat| 1 <= n <= fewer && s == #[trigger] remote_candidate(original, n);
                assert(1 <= n <= k && s == remote_candidate(original, n));
            }
        }
    }
}

/// A list that is shorter than the numbers at hand leaves a name free.
pub proof fn a_short_list_leaves_a_name(original: Seq<char>, taken: Seq<Seq<char>>)
    requires
        taken.len() < u32::MAX,
    ensures
        some_free(original, taken),
{
    let k = (taken.len() + 1) as nat;
    if !some_free(original, taken) {
        tries_are_many(original, k);
        taken.lemma_cardinality_of_set();
        assert(tries(original, k).subset_of(taken.to_set())) by {
            assert forall|s: Seq<char>| #[trigger] tries(original, k).contains(s) implies
                taken.to_set().contains(s) by {
                let n = choose|n: nat| 1 <= n <= k && s == #[trigger] remote_candidate(original, n);
                assert(taken.contains(remote_candidate(original, n)));
            }
        }
        vstd::set_lib::lemma_len_subset(tries(original, k), taken.to_set());
    }
}

// ---------------------------------------------------------------------------
// Names without spaces
// ---------------------------------------------------------------------------

/// A component without its spaces.
pub open spec fn cleaned(c: Seq<u8>) -> Seq<u8> {
    encode_utf8(without_spaces(utf8_lossy(c)))
}

/// The path made of components, one below the other, each without its spaces.
pub open spec fn cleaned_path(components: Seq<Seq<u8>>) -> Seq<u8>
    decreases components.len(),
{
    if components.len() == 0 {
        Seq::empty()
    } else {
        join_path(cleaned_path(components.drop_last()), cleaned(components.last()))
    }
}

/// `full` without the spaces in its components below `base`.
pub open spec fn stripped_of_spaces(base: Seq<u8>, full: Seq<u8>) -> Seq<u8> {
    match strip_base(full, base) {
        Some(rel) => join_path(base, cleaned_path(components(rel))),
        None => full,
    }
}

/// A name of bytes as text without its spaces, in bytes again.
pub open spec fn spaceless(c: Seq<u8>) -> Seq<u8> {
    encode_utf8(utf8_lossy(c).filter(|x: char| x != ' '))
}

/// The names of which something is left without their spaces, as they are then,
/// in their order. A name of which a single full stop is left names nothing.
pub open spec fn spaceless_names(names: Seq<Seq<u8>>) -> Seq<Seq<u8>> {
    names.map_values(|c: Seq<u8>| spaceless(c)).filter(
        |c: Seq<u8>| c.len() > 0 && c != seq![46u8],
    )
}

proof fn cleaned_names_stand_one_below_the_other(all: Seq<Seq<u8>>)
    requires
        forall|i: int| 0 <= i < all.len() ==> !cleaned(#[trigger] all[i]).contains(47u8),
    ensures
        body_components(cleaned_path(all)) == spaceless_names(all),
    decreases all.len(),
{
    reveal(Seq::filter);
    let names = all.map_values(|c: Seq<u8>| spaceless(c));
    if all.len() == 0 {
        assert(body_components(cleaned_path(all)) == Seq::<Seq<u8>>::empty());
    } else {
        let before = all.drop_last();
        assert forall|i: int| 0 <= i < before.len() implies !cleaned(
            #[trigger] before[i],
        ).contains(47u8) by {
            assert(before[i] == all[i]);
        }
        cleaned_names_stand_one_below_the_other(before);
        assert(before.map_values(|c: Seq<u8>| spaceless(c)) == names.drop_last());
        let x = cleaned(all.last());
        assert(all.last() == all[all.len() - 1]);
        without_spaces_keeps_the_rest(utf8_lossy(all.last()));
        assert(x == names.last());
        if has_root(x) {
            assert(x.contains(x[0]));
        }
        body_of_the_joined(cleaned_path(before), x);
        components_of_one_piece(x);
        if is_void(x) && x.len() > 0 {
            assert(x == seq![46u8]);
        }
        let rest = body_components(cleaned_path(before));
        assert(rest + seq![x] == rest.push(x));
        assert(rest + Seq::<Seq<u8>>::empty() == rest);
    }
}

proof fn spaces_hide_no_character(s: Seq<char>, c: char)
    requires
        !s.contains(c),
    ensures
        !without_spaces(s).contains(c),
    decreases s.len(),
{
    if s.len() > 0 {
        let front = s.drop_last();
        assert(s.contains(s.last()));
        assert forall|k: int| 0 <= k < front.len() implies front[k] != c by {
            assert(s.contains(s[k]));
        }
        spaces_hide_no_character(front, c);
        let all = without_spaces(s);
        let less = without_spaces(front);
        assert forall|k: int| 0 <= k < all.len() implies all[k] != c by {
            if k < less.len() {
                assert(less.contains(less[k]));
            }
        }
    }
}

proof fn alone(c: char)
    requires
        c == '/' || c == '.',
    ensures
        encode_utf8(seq![c]) == seq![c as u8],
        cleaned(seq![c as u8]) == seq![c as u8],
{
    let s = seq![c];
    reveal_with_fuel(encode_utf8, 2);
    assert(s.drop_first() == Seq::<char>::empty());
    assert((47u32 & 0x7f) as u8 == 47) by (bit_vector);
    assert((46u32 & 0x7f) as u8 == 46) by (bit_vector);
    assert(encode_utf8(s) == seq![c as u8]);
    encode_utf8_valid_utf8(s);
    encode_utf8_decode_utf8(s);
    reveal_with_fuel(replaced, 2);
    assert(s.drop_last() == Seq::<char>::empty());
    assert(without_spaces(s) == s);
}

proof fn cleaning_twice_is_cleaning_once(c: Seq<u8>)
    ensures
        cleaned(cleaned(c)) == cleaned(c),
{
    let t = without_spaces(utf8_lossy(c));
    encode_utf8_valid_utf8(t);
    encode_utf8_decode_utf8(t);
    spaces_are_removed_for_good(utf8_lossy(c));
}

/// Whether cleaning these components brings no slash into any of them; the
/// first may be the root.
spec fn stay_pieces(components: Seq<Seq<u8>>) -> bool {
    forall|i: int|
        0 <= i < components.len() ==> !cleaned(#[trigger] components[i]).contains(47u8) || (i == 0
            && components[i] == seq![47u8])
}

proof fn what_was_cleaned_is_clean(all: Seq<Seq<u8>>)
    requires
        stay_pieces(all),
    ensures
        forall|i: int|
            0 <= i < body_components(cleaned_path(all)).len() ==> cleaned(
                #[trigger] body_components(cleaned_path(all))[i],
            ) == body_components(cleaned_path(all))[i],
        all.len() > 0 && all[0] != seq![47u8] ==> !has_root(cleaned_path(all)),
    decreases all.len(),
{
    if all.len() > 0 {
        let before = all.drop_last();
        assert forall|i: int| 0 <= i < before.len() implies !cleaned(
            #[trigger] before[i],
        ).contains(47u8) || (i == 0 && before[i] == seq![47u8]) by {
            assert(before[i] == all[i]);
        }
        what_was_cleaned_is_clean(before);
        let front = cleaned_path(before);
        let x = cleaned(all.last());
        assert(all.last() == all[all.len() - 1]);
        if x.contains(47u8) {
            assert(all.len() == 1);
            alone('/');
            assert(x == seq![47u8]);
            assert(cleaned_path(all) == x);
            reveal_with_fuel(body_components, 3);
            reveal_with_fuel(head_len, 2);
            assert(head_len(x) == 0);
            assert(tail(x) == Seq::<u8>::empty());
            assert(body_components(x).len() == 0);
        } else {
            if has_root(x) {
                assert(x.contains(x[0]));
            }
            body_of_the_joined(front, x);
            components_of_one_piece(x);
            cleaning_twice_is_cleaning_once(all.last());
            let some = body_components(front);
            let whole = body_components(cleaned_path(all));
            assert forall|i: int| 0 <= i < whole.len() implies cleaned(#[trigger] whole[i])
                == whole[i] by {
                if i < some.len() {
                    assert(whole[i] == some[i]);
                } else {
                    assert(whole[i] == x);
                }
            }
            if all[0] != seq![47u8] {
                if front.len() > 0 {
                    assert(cleaned_path(all)[0] == front[0]);
                    assert(before[0] == all[0]);
                } else {
                    assert(cleaned_path(all) == x);
                }
            }
        }
    }
}

/// Whether cleaning these leaves them as they are, and each of them is one
/// component of a path that they make.
spec fn are_clean(all: Seq<Seq<u8>>) -> bool {
    &&& forall|i: int| 0 <= i < all.len() ==> cleaned(#[trigger] all[i]) == all[i]
    &&& forall|i: int|
        0 < i < all.len() ==> !is_void(#[trigger] all[i]) && !all[i].contains(47u8)
    &&& all.len() > 0 ==> components(all[0]) == seq![all[0]]
}

proof fn clean_components_make_their_path(all: Seq<Seq<u8>>)
    requires
        are_clean(all),
    ensures
        components(cleaned_path(all)) == all,
    decreases all.len(),
{
    if all.len() == 0 {
        assert(cleaned_path(all) == Seq::<u8>::empty());
        assert(all == Seq::<Seq<u8>>::empty());
    } else {
        let before = all.drop_last();
        let x = all.last();
        assert(x == all[all.len() - 1]);
        let front = cleaned_path(before);
        if all.len() == 1 {
            assert(front == Seq::<u8>::empty());
            assert(cleaned_path(all) == x);
            assert(all == seq![x]);
        } else {
            assert forall|i: int| 0 <= i < before.len() implies cleaned(#[trigger] before[i])
                == before[i] by {
                assert(before[i] == all[i]);
            }
            assert forall|i: int| 0 < i < before.len() implies !is_void(#[trigger] before[i])
                && !before[i].contains(47u8) by {
                assert(before[i] == all[i]);
            }
            clean_components_make_their_path(before);
            if has_root(x) {
                assert(x.contains(x[0]));
            }
            components_of_the_joined(front, x);
            components_of_one_piece(x);
            assert(all == before + seq![x]);
        }
    }
}

proof fn clean_components_hold_no_space(all: Seq<Seq<u8>>)
    requires
        are_clean(all),
    ensures
        forall|i: int| 0 <= i < all.len() ==> !(#[trigger] all[i]).contains(32u8),
{
    assert forall|i: int| 0 <= i < all.len() implies !(#[trigger] all[i]).contains(32u8) by {
        assert(cleaned(all[i]) == all[i]);
        without_spaces_keeps_the_rest(utf8_lossy(all[i]));
        no_ascii_among_the_bytes(without_spaces(utf8_lossy(all[i])), ' ');
    }
}

proof fn one_component(d: Seq<u8>)
    requires
        (!is_void(d) && !d.contains(47u8)) || d == seq![47u8] || d == seq![46u8],
    ensures
        components(d) == seq![d],
{
    components_by_the_body(d);
    if d == seq![47u8] || d == seq![46u8] {
        assert(d.take(1) == d);
        assert(body_start(d) == 1);
        assert(d.skip(1) == Seq::<u8>::empty());
        assert(components(d) == seq![d] + body_components(d.skip(1)));
        assert(seq![d] + Seq::<Seq<u8>>::empty() == seq![d]);
    } else {
        if has_root(d) {
            assert(d.contains(d[0]));
        }
        if leads_with_dot(d) && d.len() > 1 {
            assert(d.contains(d[1]));
        }
        components_of_one_piece(d);
    }
}

proof fn clean_from_the_start(p: Seq<u8>)
    requires
        forall|i: int|
            0 <= i < body_components(p).len() ==> cleaned(#[trigger] body_components(p)[i])
                == body_components(p)[i],
    ensures
        are_clean(components(p)),
        are_clean(body_components(p)),
{
    let body = body_components(p);
    let all = components(p);
    components_by_the_body(p);
    components_are_pieces(p);
    if body.len() > 0 {
        one_component(body[0]);
    }
    if body_start(p) == 1 {
        let first = p.take(1);
        assert(first == seq![47u8] || first == seq![46u8]);
        alone('/');
        alone('.');
        one_component(first);
        assert(all[0] == first);
        assert forall|i: int| 0 <= i < all.len() implies cleaned(#[trigger] all[i]) == all[i] by {
            if i > 0 {
                assert(all[i] == body[i - 1]);
            }
        }
        assert forall|i: int| 0 < i < all.len() implies !is_void(#[trigger] all[i])
            && !all[i].contains(47u8) by {
            assert(all[i] == body[i - 1]);
        }
    } else {
        assert(all == body);
    }
}

proof fn cleaning_brings_no_slash(c: Seq<u8>)
    requires
        !utf8_lossy(c).contains('/'),
    ensures
        !cleaned(c).contains(47u8),
{
    let t = without_spaces(utf8_lossy(c));
    spaces_hide_no_character(utf8_lossy(c), '/');
    no_ascii_among_the_bytes(t, '/');
}

proof fn stripping_twice_is_stripping_once(base: Seq<u8>, full: Seq<u8>)
    requires
        strip_base(full, base) is Some,
        ({
            let all = components(strip_base(full, base)->0);
            forall|k: int|
                0 <= k < all.len() && !(#[trigger] all[k]).contains(47u8) ==> !utf8_lossy(
                    all[k],
                ).contains('/')
        }),
    ensures
        ({
            let once = stripped_of_spaces(base, full);
            &&& components(stripped_of_spaces(base, once)) == components(once)
            &&& strip_base(once, base) is Some
            &&& forall|i: int|
                0 <= i < components(strip_base(once, base)->0).len() ==> !(
                #[trigger] components(strip_base(once, base)->0)[i]).contains(32u8)
        }),
{
    let rel = strip_base(full, base)->0;
    let all = components(rel);
    let clean = cleaned_path(all);
    let once = join_path(base, clean);
    components_by_the_body(rel);
    components_are_pieces(rel);
    alone('.');
    assert forall|i: int| 0 <= i < all.len() implies !cleaned(#[trigger] all[i]).contains(47u8) || (
    i == 0 && all[i] == seq![47u8]) by {
        if all[i] != seq![47u8] {
            let front: int = if body_start(rel) == 1 {
                1
            } else {
                0
            };
            if i >= front {
                assert(all[i] == body_components(rel)[i - front]);
            } else {
                assert(all[0] == rel.take(1));
                if has_root(rel) {
                    assert(rel.take(1) == seq![47u8]);
                }
                assert(rel.take(1) == seq![46u8]);
            }
            cleaning_brings_no_slash(all[i]);
        } else if body_start(rel) == 1 && i > 0 {
            assert(all[i] == body_components(rel)[i - 1]);
            assert(all[i].contains(47u8)) by {
                assert(all[i][0] == 47u8);
            }
        } else if body_start(rel) == 0 {
            assert(all[i] == body_components(rel)[i]);
            assert(all[i][0] == 47u8);
        }
    }
    what_was_cleaned_is_clean(all);
    clean_from_the_start(clean);
    if base.len() == 0 {
        assert(base == Seq::<u8>::empty());
        assert(once == clean);
        components_below_nothing(once);
        clean_components_make_their_path(components(clean));
        let again = cleaned_path(components(clean));
        assert(join_path(base, again) == again);
        clean_components_hold_no_space(components(clean));
    } else {
        let d = body_components(clean);
        a_path_has_components(base);
        the_path_below_a_base_has_no_root(full, base);
        if all.len() > 0 && all[0] == seq![47u8] {
            components_have_no_slash(rel);
            assert(all[0][0] == 47u8);
            assert(all[0].contains(47u8));
        }
        assert(!has_root(clean));
        components_of_the_joined(base, clean);
        components_below_a_base(once, base);
        assert(components(base) == components(once).take(components(base).len() as int));
        let rel2 = strip_base(once, base)->0;
        assert(components(rel2) == d) by {
            let n = components(base).len() as int;
            assert((components(base) + components(rel2)).skip(n) == components(rel2));
            assert((components(base) + d).skip(n) == d);
        }
        let again = cleaned_path(d);
        clean_components_make_their_path(d);
        components_by_the_body(again);
        components_are_pieces(clean);
        if body_start(again) == 1 {
            assert(components(again)[0] == again.take(1));
            assert(d[0] == again.take(1));
            if has_root(again) {
                assert(d[0][0] == 47u8);
                assert(d[0].contains(47u8));
            }
            assert(is_void(d[0]) || d[0].contains(47u8));
        }
        assert(body_components(again) == d);
        components_of_the_joined(base, again);
        clean_components_hold_no_space(d);
    }
}

/// Strips the spaces from the components of a path below `base`. A path below
/// the base stays below it with all its names in their order, each without its
/// spaces, and keeps its components when it is stripped again.
pub fn strip_spaces_from_path(base: &[u8], full: &[u8]) -> (r: Vec<u8>)
    ensures
        r@ == stripped_of_spaces(base@, full@),
        strip_base(full@, base@) is Some || base@.is_prefix_of(full@) ==> base@.is_prefix_of(r@),
        strip_base(full@, base@) is Some ==> strip_base(r@, base@) is Some && forall|i: int|
            0 <= i < components(strip_base(r@, base@)->0).len() ==> !(
            #[trigger] components(strip_base(r@, base@)->0)[i]).contains(32u8),
        base@.len() > 0 && strip_base(full@, base@) is Some ==> components(r@) == components(base@)
            + spaceless_names(components(strip_base(full@, base@)->0)),
        // Stripping twice is stripping once.
        strip_base(full@, base@) is Some ==> components(stripped_of_spaces(base@, r@))
            == components(r@),
        strip_base(full@, base@) is None ==> stripped_of_spaces(base@, r@) == r@,
{
    match strip_base_of(full, base) {
        None => {
            assert(full@.subrange(0, full@.len() as int) == full@);
            part(full, 0, full.len())
        },
        Some(rel) => {
            let steps = components_of(&rel);
            let ghost all = parts(steps@);
            assert(all.len() == steps@.len());
            proof {
                a_path_has_components(base@);
                if base@.len() > 0 {
                    the_path_below_a_base_has_no_root(full@, base@);
                    components_have_no_slash(rel@);
                }
            }
            let mut clean: Vec<u8> = Vec::new();
            let mut i: usize = 0;
            assert(all.take(0).len() == 0);
            assert(clean@ == cleaned_path(all.take(0)));
            while i < steps.len()
                invariant
                    i <= steps@.len(),
                    all == parts(steps@),
                    base@.len() > 0 ==> forall|k: int|
                        0 <= k < all.len() ==> !(#[trigger] all[k]).contains(47u8),
                    base@.len() > 0 ==> !has_root(clean@),
                    forall|k: int|
                        0 <= k < i && !(#[trigger] all[k]).contains(47u8) ==> !utf8_lossy(
                            all[k],
                        ).contains('/'),
                    clean@ == cleaned_path(all.take(i as int)),
                decreases steps@.len() - i,
            {
                let shown = lossy_text(&steps[i]);
                let name = remove_spaces(shown.as_str());
                assert(all[i as int] == steps@[i as int]@);
                assert(all.take(i + 1).drop_last() == all.take(i as int));
                proof {
                    if base@.len() > 0 {
                        spaces_hide_no_character(shown@, '/');
                        encoding_keeps_the_root(name@);
                        if has_root(name@) {
                            assert(name@.contains(name@[0]));
                        }
                    }
                }
                clean = join_paths(&clean, name.as_str().as_bytes());
                i += 1;
            }
            assert(all.take(i as int) == all);
            proof {
                if base@.len() > 0 {
                    joined_below_the_base(base@, clean@);
                    assert forall|k: int| 0 <= k < all.len() implies !cleaned(
                        #[trigger] all[k],
                    ).contains(47u8) by {
                        cleaning_brings_no_slash(all[k]);
                    }
                    cleaned_names_stand_one_below_the_other(all);
                    components_of_the_joined(base@, clean@);
                }
                stripping_twice_is_stripping_once(base@, full@);
            }
            join_paths(base, &clean)
        },
    }
}

proof fn ascii_byte_of_a_character(u: u32, i: int)
    requires
        is_scalar(u),
        0 <= i < encode_scalar(u).len(),
        encode_scalar(u)[i] < 0x80,
    ensures
        encode_scalar(u)[i] == u,
{
    assert(u <= 0x7f ==> (u & 0x7f) as u8 == u) by (bit_vector);
    assert(forall|x: u8| #[trigger] (0xc0u8 | x) >= 0x80) by (bit_vector);
    assert(forall|x: u8| #[trigger] (0xe0u8 | x) >= 0x80) by (bit_vector);
    assert(forall|x: u8| #[trigger] (0xf0u8 | x) >= 0x80) by (bit_vector);
    assert(forall|x: u8| #[trigger] (0x80u8 | x) >= 0x80) by (bit_vector);
}

/// A text without an ASCII character has no such byte among its bytes.
pub proof fn no_ascii_among_the_bytes(s: Seq<char>, c: char)
    requires
        c <= '\u{7f}',
        !s.contains(c),
    ensures
        !encode_utf8(s).contains(c as u8),
    decreases s.len(),
{
    if s.len() > 0 {
        let first = encode_scalar(s[0] as u32);
        let rest = s.drop_first();
        assert(s.contains(s[0]));
        assert forall|d: char| #[trigger] rest.contains(d) implies s.contains(d) by {
            let i = choose|i: int| 0 <= i < rest.len() && rest[i] == d;
            assert(s[i + 1] == d);
        }
        no_ascii_among_the_bytes(rest, c);
        assert forall|k: int| 0 <= k < encode_utf8(s).len() implies encode_utf8(s)[k]
            != c as u8 by {
            char_is_scalar(s[0]);
            if k < first.len() {
                if first[k] == c as u8 {
                    ascii_byte_of_a_character(s[0] as u32, k);
                    char_u32_cast(s[0], c as u32);
                    assert(s[0] == c);
                }
            } else {
                assert(encode_utf8(s)[k] == encode_utf8(rest)[k - first.len()]);
                assert(encode_utf8(rest).contains(encode_utf8(rest)[k - first.len()]));
            }
        }
    }
}

/// The bytes of a path start at the root only where the path does.
pub proof fn encoding_keeps_the_root(s: Seq<char>)
    ensures
        has_root(encode_utf8(s)) == has_root(s),
{
    if s.len() > 0 {
        let first = encode_scalar(s[0] as u32);
        char_is_scalar(s[0]);
        assert(first.len() > 0);
        assert(encode_utf8(s)[0] == first[0]);
        if s[0] == '/' {
            assert((47u32 & 0x7f) as u8 == 47) by (bit_vector);
        }
        if first[0] == 47 {
            ascii_byte_of_a_character(s[0] as u32, 0);
            char_u32_cast(s[0], 47u32);
        }
    }
}

/// The components of a path, cleaned and put one below the other, hold no space.
pub proof fn cleaned_path_has_no_space(components: Seq<Seq<u8>>)
    ensures
        !cleaned_path(components).contains(32u8),
    decreases components.len(),
{
    if components.len() > 0 {
        let front = cleaned_path(components.drop_last());
        let last = cleaned(components.last());
        cleaned_path_has_no_space(components.drop_last());
        without_spaces_keeps_the_rest(utf8_lossy(components.last()));
        no_ascii_among_the_bytes(without_spaces(utf8_lossy(components.last())), ' ');
        let all = cleaned_path(components);
        assert forall|k: int| 0 <= k < all.len() implies all[k] != 32 by {
            if all == last {
                assert(last.contains(last[k]));
            } else if k < front.len() {
                assert(front.contains(front[k]));
            } else if k >= all.len() - last.len() {
                assert(last.contains(last[k - (all.len() - last.len())]));
            }
        }
    }
}

/// Where a path lies below the base, stripping it of spaces keeps the base
/// and leaves no space in what stands behind it; where it does not, the path
/// stays as it is.
pub proof fn no_space_below_the_base(base: Seq<u8>, full: Seq<u8>)
    ensures
        match strip_base(full, base) {
            Some(rel) => exists|tail: Seq<u8>|
                !tail.contains(32u8) && stripped_of_spaces(base, full) == #[trigger] join_path(
                    base,
                    tail,
                ),
            None => stripped_of_spaces(base, full) == full,
        },
{
    if let Some(rel) = strip_base(full, base) {
        cleaned_path_has_no_space(components(rel));
        assert(stripped_of_spaces(base, full) == join_path(base, cleaned_path(components(rel))));
    }
}

} // verus!
