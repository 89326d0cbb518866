//! Unix paths as sequences of units: bytes for a path on this machine,
//! characters for a path on a remote host. A path is read the way
//! `std::path::Path` reads it: components between slashes, where empty
//! components and `.` count for nothing except for a leading `.`.

use vstd::prelude::*;
use vstd::slice::slice_subrange;

use crate::text::part;

verus! {

/// What a path is made of.
pub trait Unit: Copy + Sized {
    /// The separator of components.
    spec fn slash() -> Self;

    /// The full stop.
    spec fn dot() -> Self;

    proof fn slash_is_not_dot()
        ensures
            Self::slash() != Self::dot(),
    ;

    fn is_slash(self) -> (b: bool)
        ensures
            b == (self == Self::slash()),
    ;

    fn is_dot(self) -> (b: bool)
        ensures
            b == (self == Self::dot()),
    ;

    fn same(self, other: Self) -> (b: bool)
        ensures
            b == (self == other),
    ;

    fn slash_unit() -> (c: Self)
        ensures
            c == Self::slash(),
    ;

    fn dot_unit() -> (c: Self)
        ensures
            c == Self::dot(),
    ;
}

impl Unit for u8 {
    open spec fn slash() -> u8 {
        47
    }

    open spec fn dot() -> u8 {
        46
    }

    proof fn slash_is_not_dot() {
    }

    fn is_slash(self) -> (b: bool) {
        self == 47
    }

    fn is_dot(self) -> (b: bool) {
        self == 46
    }

    fn same(self, other: u8) -> (b: bool) {
        self == other
    }

    fn slash_unit() -> (c: u8) {
        47
    }

    fn dot_unit() -> (c: u8) {
        46
    }
}

impl Unit for char {
    open spec fn slash() -> char {
        '/'
    }

    open spec fn dot() -> char {
        '.'
    }

    proof fn slash_is_not_dot() {
    }

    fn is_slash(self) -> (b: bool) {
        self == '/'
    }

    fn is_dot(self) -> (b: bool) {
        self == '.'
    }

    fn same(self, other: char) -> (b: bool) {
        self == other
    }

    fn slash_unit() -> (c: char) {
        '/'
    }

    fn dot_unit() -> (c: char) {
        '.'
    }
}

// ---------------------------------------------------------------------------
// Where the components of a path lie
// ---------------------------------------------------------------------------

/// Whether the path starts at the root.
pub open spec fn has_root<T: Unit>(p: Seq<T>) -> bool {
    p.len() > 0 && p[0] == T::slash()
}

/// Whether the first component of the path is `.`.
pub open spec fn leads_with_dot<T: Unit>(p: Seq<T>) -> bool {
    p.len() > 0 && p[0] == T::dot() && (p.len() == 1 || p[1] == T::slash())
}

/// Where the components behind the root or the leading `.` begin.
pub open spec fn body_start<T: Unit>(p: Seq<T>) -> nat {
    if has_root(p) || leads_with_dot(p) {
        1
    } else {
        0
    }
}

/// Whether a piece between slashes is no component.
pub open spec fn is_void<T: Unit>(piece: Seq<T>) -> bool {
    piece.len() == 0 || (piece.len() == 1 && piece[0] == T::dot())
}

/// Whether a component is `..`.
pub open spec fn is_up<T: Unit>(piece: Seq<T>) -> bool {
    piece.len() == 2 && piece[0] == T::dot() && piece[1] == T::dot()
}

/// Where the last piece between slashes begins, at `start` or behind it.
pub open spec fn last_start<T: Unit>(p: Seq<T>, start: nat) -> int
    decreases p.len(),
{
    if p.len() <= start || p.last() == T::slash() {
        p.len() as int
    } else {
        last_start(p.drop_last(), start)
    }
}

/// The last piece of the path.
pub open spec fn last_piece<T: Unit>(p: Seq<T>, start: nat) -> Seq<T> {
    p.skip(last_start(p, start))
}

/// What stands before the last piece and the slash in front of it.
pub open spec fn before_last<T: Unit>(p: Seq<T>, start: nat) -> Seq<T> {
    let i = last_start(p, start);
    p.take(
        if i > start {
            i - 1
        } else {
            i
        },
    )
}

/// The path without the pieces at its end that are no components.
pub open spec fn trim_path<T: Unit>(p: Seq<T>, start: nat) -> Seq<T>
    decreases p.len(),
{
    if p.len() <= start {
        p
    } else if is_void(last_piece(p, start)) {
        proof {
            last_start_bounds(p, start);
        }
        trim_path(before_last(p, start), start)
    } else {
        p
    }
}

/// The last component, where it is a name.
pub open spec fn file_name<T: Unit>(p: Seq<T>) -> Option<Seq<T>> {
    let start = body_start(p);
    let q = trim_path(p, start);
    if q.len() <= start || is_up(last_piece(q, start)) {
        None
    } else {
        Some(last_piece(q, start))
    }
}

/// The path without its last component; a path without components and the
/// root have none.
pub open spec fn parent<T: Unit>(p: Seq<T>) -> Option<Seq<T>> {
    let start = body_start(p);
    let q = trim_path(p, start);
    if q.len() > start {
        Some(trim_path(before_last(q, start), start))
    } else if leads_with_dot(p) {
        Some(Seq::empty())
    } else {
        None
    }
}

/// `rel` below `base`; a `rel` with a root stands for itself.
pub open spec fn join_path<T: Unit>(base: Seq<T>, rel: Seq<T>) -> Seq<T> {
    if has_root(rel) {
        rel
    } else if base.len() > 0 && base.last() != T::slash() {
        base.push(T::slash()) + rel
    } else {
        base + rel
    }
}

/// The last piece begins behind the last slash, and not before `start`.
pub proof fn last_start_bounds<T: Unit>(p: Seq<T>, start: nat)
    requires
        start <= p.len(),
    ensures
        start <= last_start(p, start) <= p.len(),
        start < last_start(p, start) ==> p[last_start(p, start) - 1] == T::slash(),
        forall|k: int| last_start(p, start) <= k < p.len() ==> p[k] != T::slash(),
    decreases p.len(),
{
    if p.len() > start && p.last() != T::slash() {
        last_start_bounds(p.drop_last(), start);
        assert forall|k: int| last_start(p, start) <= k < p.len() implies p[k] != T::slash() by {
            if k < p.len() - 1 {
                assert(p.drop_last()[k] == p[k]);
            }
        }
    }
}

/// Trimming a path leaves a beginning of it.
pub proof fn trim_path_bounds<T: Unit>(p: Seq<T>, start: nat)
    requires
        start <= p.len(),
    ensures
        start <= trim_path(p, start).len() <= p.len(),
        trim_path(p, start) == p.take(trim_path(p, start).len() as int),
    decreases p.len(),
{
    last_start_bounds(p, start);
    if p.len() > start && is_void(last_piece(p, start)) {
        let q = before_last(p, start);
        trim_path_bounds(q, start);
        assert(q.take(trim_path(q, start).len() as int) == p.take(
            trim_path(q, start).len() as int,
        ));
    } else {
        assert(p == p.take(p.len() as int));
    }
}

fn body_start_of<T: Unit>(p: &[T]) -> (start: usize)
    ensures
        start == body_start(p@),
        start <= p@.len(),
{
    proof {
        T::slash_is_not_dot();
    }
    if p.len() == 0 {
        0
    } else if p[0].is_slash() {
        1
    } else if p[0].is_dot() && (p.len() == 1 || p[1].is_slash()) {
        1
    } else {
        0
    }
}

/// Where the last piece of the first `len` units begins.
fn last_start_of<T: Unit>(p: &[T], len: usize, start: usize) -> (i: usize)
    requires
        start <= len <= p@.len(),
    ensures
        i == last_start(p@.take(len as int), start as nat),
        start <= i <= len,
{
    let mut i: usize = len;
    while i > start && !p[i - 1].is_slash()
        invariant
            start <= i <= len <= p@.len(),
            last_start(p@.take(len as int), start as nat) == last_start(
                p@.take(i as int),
                start as nat,
            ),
        decreases i,
    {
        assert(p@.take(i as int).drop_last() == p@.take(i - 1));
        i -= 1;
    }
    i
}

fn void_between<T: Unit>(p: &[T], from: usize, to: usize) -> (b: bool)
    requires
        from <= to <= p@.len(),
    ensures
        b == is_void(p@.subrange(from as int, to as int)),
{
    from == to || (to - from == 1 && p[from].is_dot())
}

/// How much of the first `len` units is left without the pieces at their end
/// that are no components.
fn trimmed_len<T: Unit>(p: &[T], len: usize, start: usize) -> (n: usize)
    requires
        start <= len <= p@.len(),
    ensures
        start <= n <= len,
        p@.take(n as int) == trim_path(p@.take(len as int), start as nat),
{
    let mut n: usize = len;
    while n > start
        invariant
            start <= n <= len <= p@.len(),
            trim_path(p@.take(len as int), start as nat) == trim_path(
                p@.take(n as int),
                start as nat,
            ),
        ensures
            start <= n <= len,
            p@.take(n as int) == trim_path(p@.take(n as int), start as nat),
        decreases n,
    {
        let i = last_start_of(p, n, start);
        let ghost q = p@.take(n as int);
        assert(last_piece(q, start as nat) == p@.subrange(i as int, n as int));
        if !void_between(p, i, n) {
            break;
        }
        let next: usize = if i > start {
            i - 1
        } else {
            i
        };
        assert(before_last(q, start as nat) == p@.take(next as int));
        proof {
            last_start_bounds(q, start as nat);
        }
        n = next;
    }
    n
}

/// The last component, where it is a name.
pub fn file_name_of<T: Unit>(p: &[T]) -> (r: Option<Vec<T>>)
    ensures
        (match r {
            Some(v) => Some(v@),
            None => None,
        }) == file_name(p@),
{
    let start = body_start_of(p);
    assert(p@.take(p@.len() as int) == p@);
    let n = trimmed_len(p, p.len(), start);
    if n <= start {
        return None;
    }
    let i = last_start_of(p, n, start);
    assert(last_piece(p@.take(n as int), start as nat) == p@.subrange(i as int, n as int));
    if n - i == 2 && p[i].is_dot() && p[i + 1].is_dot() {
        None
    } else {
        Some(part(p, i, n))
    }
}

/// The path without its last component.
pub fn parent_of<T: Unit>(p: &[T]) -> (r: Option<Vec<T>>)
    ensures
        (match r {
            Some(v) => Some(v@),
            None => None,
        }) == parent(p@),
{
    let start = body_start_of(p);
    assert(p@.take(p@.len() as int) == p@);
    let n = trimmed_len(p, p.len(), start);
    if n > start {
        let i = last_start_of(p, n, start);
        let next: usize = if i > start {
            i - 1
        } else {
            i
        };
        assert(before_last(p@.take(n as int), start as nat) == p@.take(next as int));
        let m = trimmed_len(p, next, start);
        assert(p@.take(m as int) == p@.subrange(0, m as int));
        Some(part(p, 0, m))
    } else if p.len() > 0 && p[0].is_dot() && (p.len() == 1 || p[1].is_slash()) {
        let none: Vec<T> = Vec::new();
        assert(none@ == Seq::<T>::empty());
        Some(none)
    } else {
        None
    }
}

/// Puts the units of `more` behind `v`.
pub fn extend_units<T: Unit>(v: &mut Vec<T>, more: &[T])
    ensures
        final(v)@ == old(v)@ + more@,
{
    let mut i: usize = 0;
    assert(v@ == old(v)@ + more@.take(0));
    while i < more.len()
        invariant
            i <= more@.len(),
            v@ == old(v)@ + more@.take(i as int),
        decreases more@.len() - i,
    {
        v.push(more[i]);
        assert(more@.take(i + 1) == more@.take(i as int).push(more@[i as int]));
        i += 1;
    }
    assert(more@.take(i as int) == more@);
}

/// `rel` below `base`; a `rel` with a root stands for itself.
pub fn join_paths<T: Unit>(base: &[T], rel: &[T]) -> (r: Vec<T>)
    ensures
        r@ == join_path(base@, rel@),
{
    if rel.len() > 0 && rel[0].is_slash() {
        assert(rel@.subrange(0, rel@.len() as int) == rel@);
        return part(rel, 0, rel.len());
    }
    assert(base@.subrange(0, base@.len() as int) == base@);
    let mut r = part(base, 0, base.len());
    if base.len() > 0 && !base[base.len() - 1].is_slash() {
        r.push(T::slash_unit());
    }
    extend_units(&mut r, rel);
    r
}

// ---------------------------------------------------------------------------
// Components, from the front
// ---------------------------------------------------------------------------

/// How many units stand before the first slash.
pub open spec fn head_len<T: Unit>(p: Seq<T>) -> nat
    decreases p.len(),
{
    if p.len() == 0 || p[0] == T::slash() {
        0
    } else {
        1 + head_len(p.skip(1))
    }
}

/// What stands before the first slash.
pub open spec fn head<T: Unit>(p: Seq<T>) -> Seq<T> {
    p.take(head_len(p) as int)
}

/// What stands behind the first slash.
pub open spec fn tail<T: Unit>(p: Seq<T>) -> Seq<T> {
    if head_len(p) < p.len() {
        p.skip(head_len(p) as int + 1)
    } else {
        Seq::empty()
    }
}

/// The pieces of `p` between slashes that are components.
pub open spec fn body_components<T: Unit>(p: Seq<T>) -> Seq<Seq<T>>
    decreases p.len(),
{
    if p.len() == 0 {
        Seq::empty()
    } else if is_void(head(p)) {
        proof {
            head_len_bounds(p);
        }
        body_components(tail(p))
    } else {
        proof {
            head_len_bounds(p);
        }
        seq![head(p)] + body_components(tail(p))
    }
}

/// The components of a path; the root is the component `/`.
pub open spec fn components<T: Unit>(p: Seq<T>) -> Seq<Seq<T>> {
    if body_start(p) == 1 {
        seq![p.take(1)] + body_components(p.skip(1))
    } else {
        body_components(p)
    }
}

/// The path from its first component on.
pub open spec fn trim_front<T: Unit>(p: Seq<T>) -> Seq<T>
    decreases p.len(),
{
    if p.len() > 0 && is_void(head(p)) {
        proof {
            head_len_bounds(p);
        }
        trim_front(tail(p))
    } else {
        p
    }
}

/// What is left of `p` behind the components `steps`, where it starts with them.
pub open spec fn follow<T: Unit>(p: Seq<T>, steps: Seq<Seq<T>>) -> Option<Seq<T>>
    decreases steps.len(),
{
    if steps.len() == 0 {
        Some(p)
    } else {
        let q = trim_front(p);
        if q.len() > 0 && head(q) == steps[0] {
            follow(tail(q), steps.skip(1))
        } else {
            None
        }
    }
}

/// The path that leads from `base` to `full`, where `full` lies at `base` or
/// below it: where the components of `base` are the first ones of `full`.
pub open spec fn strip_base<T: Unit>(full: Seq<T>, base: Seq<T>) -> Option<Seq<T>> {
    let steps = components(base);
    if steps.len() == 0 {
        Some(trim_path(full, body_start(full)))
    } else {
        let rest = if body_start(full) == 1 {
            if steps[0] == full.take(1) {
                follow(full.skip(1), steps.skip(1))
            } else {
                None
            }
        } else {
            follow(full, steps)
        };
        match rest {
            Some(r) => Some(trim_path(trim_front(r), 0)),
            None => None,
        }
    }
}

/// The units of each component of a path.
pub open spec fn parts<T: Unit>(v: Seq<Vec<T>>) -> Seq<Seq<T>> {
    v.map_values(|c: Vec<T>| c@)
}

/// The first piece is no longer than the path.
pub proof fn head_len_bounds<T: Unit>(p: Seq<T>)
    ensures
        head_len(p) <= p.len(),
    decreases p.len(),
{
    if p.len() > 0 && p[0] != T::slash() {
        head_len_bounds(p.skip(1));
    }
}

/// Where the piece that begins at `from` ends.
fn head_end<T: Unit>(p: &[T], from: usize) -> (i: usize)
    requires
        from <= p@.len(),
    ensures
        from <= i <= p@.len(),
        i - from == head_len(p@.skip(from as int)),
{
    let mut i: usize = from;
    while i < p.len() && !p[i].is_slash()
        invariant
            from <= i <= p@.len(),
            head_len(p@.skip(from as int)) == (i - from) + head_len(p@.skip(i as int)),
        decreases p@.len() - i,
    {
        assert(p@.skip(i as int).skip(1) == p@.skip(i + 1));
        i += 1;
    }
    i
}

/// Where the first component at `from` or behind it begins.
fn front_of<T: Unit>(p: &[T], from: usize) -> (r: (usize, usize))
    requires
        from <= p@.len(),
    ensures
        from <= r.0 <= r.1 <= p@.len(),
        p@.skip(r.0 as int) == trim_front(p@.skip(from as int)),
        r.0 < p@.len() ==> p@.subrange(r.0 as int, r.1 as int) == head(p@.skip(r.0 as int)),
        body_components(p@.skip(from as int)) == body_components(p@.skip(r.0 as int)),
        r.0 < p@.len() ==> !is_void(head(p@.skip(r.0 as int))) && r.0 < r.1,
        r.1 < p@.len() ==> tail(p@.skip(r.0 as int)) == p@.skip(r.1 + 1),
        r.1 == p@.len() ==> tail(p@.skip(r.0 as int)) == p@.skip(r.1 as int),
{
    let mut i: usize = from;
    loop
        invariant
            from <= i <= p@.len(),
            trim_front(p@.skip(from as int)) == trim_front(p@.skip(i as int)),
            body_components(p@.skip(from as int)) == body_components(p@.skip(i as int)),
        decreases p@.len() - i,
    {
        let ghost q = p@.skip(i as int);
        if i == p.len() {
            assert(tail(q) == p@.skip(i as int));
            return (i, i);
        }
        let j = head_end(p, i);
        assert(head(q) == p@.subrange(i as int, j as int));
        proof {
            if j < p@.len() {
                assert(tail(q) == p@.skip(j + 1));
            } else {
                assert(tail(q) == p@.skip(j as int));
            }
        }
        if !void_between(p, i, j) {
            return (i, j);
        }
        i = if j < p.len() {
            j + 1
        } else {
            j
        };
    }
}

/// The components behind `from`, as they stand in the path.
fn body_components_of<T: Unit>(p: &[T], from: usize, r: &mut Vec<Vec<T>>)
    requires
        from <= p@.len(),
    ensures
        parts(final(r)@) == parts(old(r)@) + body_components(p@.skip(from as int)),
{
    let mut i: usize = from;
    loop
        invariant
            from <= i <= p@.len(),
            parts(r@) + body_components(p@.skip(i as int)) == parts(old(r)@) + body_components(
                p@.skip(from as int),
            ),
        decreases p@.len() - i,
    {
        let (a, b) = front_of(p, i);
        if a == p.len() {
            assert(body_components(p@.skip(i as int)) == Seq::<Seq<T>>::empty());
            assert(parts(r@) + Seq::<Seq<T>>::empty() == parts(r@));
            return;
        }
        let ghost before = r@;
        let c = part(p, a, b);
        let ghost piece = c@;
        r.push(c);
        assert(parts(r@) == parts(before).push(piece));
        let ghost rest = tail(p@.skip(a as int));
        assert(parts(before) + (seq![piece] + body_components(rest)) == parts(r@)
            + body_components(rest));
        i = if b < p.len() {
            b + 1
        } else {
            b
        };
    }
}

/// The components of a path; the root is the component `/`.
pub fn components_of<T: Unit>(p: &[T]) -> (r: Vec<Vec<T>>)
    ensures
        parts(r@) == components(p@),
{
    let mut r: Vec<Vec<T>> = Vec::new();
    let start = body_start_of(p);
    assert(parts(r@) == Seq::<Seq<T>>::empty());
    if start == 1 {
        let c = part(p, 0, 1);
        assert(c@ == p@.take(1));
        r.push(c);
        assert(parts(r@) == seq![p@.take(1)]);
        body_components_of(p, 1, &mut r);
    } else {
        assert(p@.skip(0) == p@);
        body_components_of(p, 0, &mut r);
        assert(Seq::<Seq<T>>::empty() + components(p@) == components(p@));
    }
    r
}

/// Whether two slices hold the same units.
pub fn same_units<T: Unit>(a: &[T], b: &[T]) -> (same: bool)
    ensures
        same == (a@ == b@),
{
    if a.len() != b.len() {
        return false;
    }
    let mut i: usize = 0;
    while i < a.len()
        invariant
            a@.len() == b@.len(),
            i <= a@.len(),
            forall|k: int| 0 <= k < i ==> a@[k] == b@[k],
        decreases a@.len() - i,
    {
        if !a[i].same(b[i]) {
            return false;
        }
        i += 1;
    }
    assert(a@ == b@);
    true
}

/// Where the rest of `p` begins behind the steps from `k` on.
fn follow_from<T: Unit>(p: &[T], from: usize, steps: &Vec<Vec<T>>, first: usize) -> (r: Option<
    usize,
>)
    requires
        from <= p@.len(),
        first <= steps@.len(),
    ensures
        r matches Some(i) ==> i <= p@.len(),
        (match r {
            Some(i) => Some(p@.skip(i as int)),
            None => None,
        }) == follow(p@.skip(from as int), parts(steps@).skip(first as int)),
{
    let mut i: usize = from;
    let mut k: usize = first;
    while k < steps.len()
        invariant
            i <= p@.len(),
            first <= k <= steps@.len(),
            follow(p@.skip(from as int), parts(steps@).skip(first as int)) == follow(
                p@.skip(i as int),
                parts(steps@).skip(k as int),
            ),
        decreases steps@.len() - k,
    {
        let ghost left = parts(steps@).skip(k as int);
        assert(left.len() == steps@.len() - k);
        assert(left[0] == steps@[k as int]@);
        assert(left.skip(1) == parts(steps@).skip(k + 1));
        let (a, b) = front_of(p, i);
        if a == p.len() {
            return None;
        }
        if !same_units(slice_subrange(p, a, b), &steps[k]) {
            return None;
        }
        i = if b < p.len() {
            b + 1
        } else {
            b
        };
        k += 1;
    }
    assert(parts(steps@).skip(k as int).len() == 0);
    Some(i)
}

/// The path that leads from `base` to `full`, where `full` lies at `base` or
/// below it.
pub fn strip_base_of<T: Unit>(full: &[T], base: &[T]) -> (r: Option<Vec<T>>)
    ensures
        (match r {
            Some(v) => Some(v@),
            None => None,
        }) == strip_base(full@, base@),
{
    let steps = components_of(base);
    assert(parts(steps@).len() == steps@.len());
    let start = body_start_of(full);
    assert(full@.take(full@.len() as int) == full@);
    if steps.len() == 0 {
        let n = trimmed_len(full, full.len(), start);
        assert(full@.take(n as int) == full@.subrange(0, n as int));
        return Some(part(full, 0, n));
    }
    let rest = if start == 1 {
        assert(full@.take(1) == full@.subrange(0, 1));
        assert(parts(steps@)[0] == steps@[0]@);
        if same_units(slice_subrange(full, 0, 1), &steps[0]) {
            follow_from(full, 1, &steps, 1)
        } else {
            None
        }
    } else {
        assert(full@.skip(0) == full@);
        assert(parts(steps@).skip(0) == parts(steps@));
        follow_from(full, 0, &steps, 0)
    };
    match rest {
        None => None,
        Some(i) => {
            let (a, _b) = front_of(full, i);
            let left = slice_subrange(full, a, full.len());
            assert(left@ == full@.skip(a as int));
            assert(left@.take(left@.len() as int) == left@);
            let n = trimmed_len(left, left.len(), 0);
            assert(left@.take(n as int) == left@.subrange(0, n as int));
            Some(part(left, 0, n))
        },
    }
}

// ---------------------------------------------------------------------------
// Where paths lie
// ---------------------------------------------------------------------------

/// The name of a file holds no slash.
pub proof fn a_file_name_has_no_slash<T: Unit>(p: Seq<T>)
    ensures
        file_name(p) is Some ==> file_name(p)->0.len() > 0 && !file_name(p)->0.contains(T::slash()),
{
    let start = body_start(p);
    trim_path_bounds(p, start);
    let q = trim_path(p, start);
    if q.len() > start {
        last_start_bounds(q, start);
        trimmed_end_is_no_void(p, start);
        let name = last_piece(q, start);
        assert forall|k: int| 0 <= k < name.len() implies name[k] != T::slash() by {
            assert(name[k] == q[last_start(q, start) + k]);
        }
    }
}

proof fn trimmed_end_is_no_void<T: Unit>(p: Seq<T>, start: nat)
    requires
        start <= p.len(),
    ensures
        trim_path(p, start).len() > start ==> !is_void(last_piece(trim_path(p, start), start)),
    decreases p.len(),
{
    if p.len() > start && is_void(last_piece(p, start)) {
        last_start_bounds(p, start);
        trimmed_end_is_no_void(before_last(p, start), start);
    }
}

proof fn trimmed_front_has_no_root<T: Unit>(p: Seq<T>)
    ensures
        !has_root(trim_front(p)),
    decreases p.len(),
{
    if p.len() > 0 && is_void(head(p)) {
        head_len_bounds(p);
        trimmed_front_has_no_root(tail(p));
    } else if has_root(p) {
        assert(head_len(p) == 0);
        assert(head(p).len() == 0);
    }
}

/// The path that leads from a base to a path below it does not start at the
/// root, so that joining it to another base leads below that base.
pub proof fn the_path_below_a_base_has_no_root<T: Unit>(full: Seq<T>, base: Seq<T>)
    requires
        components(base).len() > 0,
        strip_base(full, base) is Some,
    ensures
        !has_root(strip_base(full, base)->0),
{
    let steps = components(base);
    let rest = if body_start(full) == 1 {
        if steps[0] == full.take(1) {
            follow(full.skip(1), steps.skip(1))
        } else {
            None
        }
    } else {
        follow(full, steps)
    };
    let front = trim_front(rest->0);
    trimmed_front_has_no_root(rest->0);
    trim_path_bounds(front, 0);
}

/// A path without a root is joined behind the base.
pub proof fn joined_below_the_base<T: Unit>(base: Seq<T>, rel: Seq<T>)
    requires
        !has_root(rel),
    ensures
        base.is_prefix_of(join_path(base, rel)),
        rel.is_suffix_of(join_path(base, rel)),
{
    let all = join_path(base, rel);
    assert(all.take(base.len() as int) == base);
    assert(all.skip(all.len() - rel.len()) == rel);
}

/// Different paths without a root are different below the same base.
pub proof fn joining_keeps_paths_apart<T: Unit>(base: Seq<T>, a: Seq<T>, b: Seq<T>)
    requires
        !has_root(a),
        !has_root(b),
        join_path(base, a) == join_path(base, b),
    ensures
        a == b,
{
    let x = join_path(base, a);
    let y = join_path(base, b);
    assert(x.len() - a.len() == y.len() - b.len());
    assert(x.skip(x.len() - a.len()) == a);
    assert(y.skip(y.len() - b.len()) == b);
}

/// A path that is not empty has a component.
pub proof fn a_path_has_components<T: Unit>(p: Seq<T>)
    ensures
        p.len() > 0 ==> components(p).len() > 0,
        file_name(p) is Some ==> p.len() > 0,
{
    if p.len() > 0 && body_start(p) == 0 {
        head_len_bounds(p);
        head_len_bounds(p.skip(1));
        reveal_with_fuel(head_len, 3);
        if is_void(head(p)) {
            assert(head_len(p) == 1);
            assert(p[0] == T::dot()) by {
                assert(head(p)[0] == p[0]);
            }
            if p.len() > 1 {
                assert(p.skip(1)[0] == p[1]);
            }
        }
    }
}

/// The name at the end of a path is a path with that name.
pub proof fn a_name_is_its_own_name<T: Unit>(p: Seq<T>)
    ensures
        file_name(p) is Some ==> file_name(file_name(p)->0) == file_name(p),
{
    if file_name(p) is Some {
        let start = body_start(p);
        let q = trim_path(p, start);
        let n = file_name(p)->0;
        a_file_name_has_no_slash(p);
        trim_path_bounds(p, start);
        trimmed_end_is_no_void(p, start);
        T::slash_is_not_dot();
        assert forall|k: int| 0 <= k < n.len() implies n[k] != T::slash() by {
            assert(n.contains(n[k]));
        }
        last_start_bounds(n, 0);
        assert(last_start(n, 0) == 0);
        assert(last_piece(n, 0) == n);
        assert(body_start(n) == 0);
    }
}

proof fn head_has_no_slash<T: Unit>(p: Seq<T>)
    ensures
        !head(p).contains(T::slash()),
    decreases p.len(),
{
    head_len_bounds(p);
    if p.len() > 0 && p[0] != T::slash() {
        head_has_no_slash(p.skip(1));
        assert forall|k: int| 0 <= k < head(p).len() implies head(p)[k] != T::slash() by {
            if k > 0 {
                assert(head(p.skip(1))[k - 1] == head(p)[k]);
                assert(head(p.skip(1)).contains(head(p.skip(1))[k - 1]));
            }
        }
    }
}

proof fn body_components_have_no_slash<T: Unit>(p: Seq<T>)
    ensures
        forall|i: int|
            0 <= i < body_components(p).len() ==> !(#[trigger] body_components(p)[i]).contains(
                T::slash(),
            ),
    decreases p.len(),
{
    if p.len() > 0 {
        head_len_bounds(p);
        head_has_no_slash(p);
        body_components_have_no_slash(tail(p));
        if !is_void(head(p)) {
            let rest = body_components(tail(p));
            assert forall|i: int| 0 <= i < body_components(p).len() implies !(
            #[trigger] body_components(p)[i]).contains(T::slash()) by {
                if i > 0 {
                    assert(body_components(p)[i] == rest[i - 1]);
                } else {
                    assert(body_components(p)[0] == head(p));
                }
            }
        } else {
            assert(body_components(p) == body_components(tail(p)));
        }
    }
}

/// The components of a path that does not start at the root hold no slash.
pub proof fn components_have_no_slash<T: Unit>(p: Seq<T>)
    requires
        !has_root(p),
    ensures
        forall|i: int|
            0 <= i < components(p).len() ==> !(#[trigger] components(p)[i]).contains(T::slash()),
{
    T::slash_is_not_dot();
    body_components_have_no_slash(p);
    body_components_have_no_slash(p.skip(1));
    if body_start(p) == 1 {
        let rest = body_components(p.skip(1));
        assert forall|i: int| 0 <= i < components(p).len() implies !(
        #[trigger] components(p)[i]).contains(T::slash()) by {
            if i > 0 {
                assert(components(p)[i] == rest[i - 1]);
            } else {
                assert(components(p)[0] == p.take(1));
            }
        }
    }
}

// ---------------------------------------------------------------------------
// Components of what was put together and taken apart
// ---------------------------------------------------------------------------

proof fn head_of_one_piece<T: Unit>(p: Seq<T>)
    requires
        !p.contains(T::slash()),
    ensures
        head_len(p) == p.len(),
    decreases p.len(),
{
    if p.len() > 0 {
        assert(p.contains(p[0]));
        assert forall|k: int| 0 <= k < p.skip(1).len() implies p.skip(1)[k] != T::slash() by {
            assert(p.contains(p[k + 1]));
        }
        head_of_one_piece(p.skip(1));
    }
}

/// One piece without a slash is one component, or none.
pub proof fn components_of_one_piece<T: Unit>(p: Seq<T>)
    requires
        !p.contains(T::slash()),
    ensures
        body_components(p) == (if is_void(p) {
            Seq::<Seq<T>>::empty()
        } else {
            seq![p]
        }),
{
    reveal_with_fuel(body_components, 2);
    head_of_one_piece(p);
    if p.len() > 0 {
        assert(head(p) == p);
        assert(tail(p) == Seq::<T>::empty());
        assert(seq![p] + Seq::<Seq<T>>::empty() == seq![p]);
    }
}

proof fn head_before_a_slash<T: Unit>(a: Seq<T>, b: Seq<T>)
    ensures
        head_len(a + (seq![T::slash()] + b)) == head_len(a),
    decreases a.len(),
{
    let all = a + (seq![T::slash()] + b);
    if a.len() > 0 && a[0] != T::slash() {
        assert(all.skip(1) == a.skip(1) + (seq![T::slash()] + b));
        head_before_a_slash(a.skip(1), b);
    }
}

/// The components on both sides of a slash are those of the whole.
pub proof fn components_around_a_slash<T: Unit>(a: Seq<T>, b: Seq<T>)
    ensures
        body_components(a + (seq![T::slash()] + b)) == body_components(a) + body_components(b),
    decreases a.len(),
{
    let all = a + (seq![T::slash()] + b);
    head_before_a_slash(a, b);
    head_len_bounds(a);
    assert(head(all) == head(a));
    if head_len(a) == a.len() {
        assert(tail(all) == b);
        assert(head(a) == a);
        if a.len() > 0 {
            assert(tail(a) == Seq::<T>::empty());
        }
        reveal_with_fuel(body_components, 2);
        assert(body_components(all) == body_components(a) + body_components(b));
    } else {
        assert(tail(all) == tail(a) + (seq![T::slash()] + b));
        components_around_a_slash(tail(a), b);
        assert(body_components(all) == body_components(a) + body_components(b));
    }
}

proof fn components_behind_a_slash<T: Unit>(a: Seq<T>, b: Seq<T>)
    requires
        a.len() > 0,
        a.last() == T::slash(),
    ensures
        body_components(a + b) == body_components(a) + body_components(b),
{
    let front = a.drop_last();
    let none = Seq::<T>::empty();
    components_around_a_slash(front, b);
    components_around_a_slash(front, none);
    assert(a + b == front + (seq![T::slash()] + b));
    assert(a == front + (seq![T::slash()] + none));
    assert(body_components(front) + body_components(none) == body_components(front));
}

/// What is joined to a base adds the components of its body.
pub proof fn body_of_the_joined<T: Unit>(base: Seq<T>, rel: Seq<T>)
    requires
        !has_root(rel),
    ensures
        body_components(join_path(base, rel)) == body_components(base) + body_components(rel),
{
    if base.len() == 0 {
        assert(join_path(base, rel) == rel);
        assert(body_components(base) + body_components(rel) == body_components(rel));
    } else if base.last() == T::slash() {
        components_behind_a_slash(base, rel);
    } else {
        assert(join_path(base, rel) == base + (seq![T::slash()] + rel));
        components_around_a_slash(base, rel);
    }
}

/// The components of a path are the root or the leading `.`, where there is
/// one, and those of its body.
pub proof fn components_by_the_body<T: Unit>(p: Seq<T>)
    ensures
        components(p) == (if body_start(p) == 1 {
            seq![p.take(1)]
        } else {
            Seq::<Seq<T>>::empty()
        }) + body_components(p),
{
    T::slash_is_not_dot();
    if body_start(p) == 1 {
        let rest = p.skip(1);
        if has_root(p) {
            assert(head_len(p) == 0);
            assert(is_void(head(p)));
            assert(tail(p) == rest);
        } else {
            reveal_with_fuel(head_len, 2);
            assert(head_len(p) == 1) by {
                if p.len() > 1 {
                    assert(rest[0] == p[1]);
                }
            }
            assert(head(p) == seq![T::dot()]);
            assert(is_void(head(p)));
            if p.len() > 1 {
                assert(p == seq![T::dot()] + rest);
                assert(head_len(rest) == 0);
                assert(is_void(head(rest)));
                assert(tail(rest) == p.skip(2));
                assert(tail(p) == p.skip(2));
            } else {
                assert(tail(p) == Seq::<T>::empty());
                assert(rest == Seq::<T>::empty());
            }
        }
        assert(body_components(p) == body_components(rest));
    } else {
        assert(Seq::<Seq<T>>::empty() + body_components(p) == body_components(p));
    }
}

/// What is joined to a base adds its components to those of the base.
pub proof fn components_of_the_joined<T: Unit>(base: Seq<T>, rel: Seq<T>)
    requires
        base.len() > 0,
        !has_root(rel),
    ensures
        components(join_path(base, rel)) == components(base) + body_components(rel),
{
    let all = join_path(base, rel);
    T::slash_is_not_dot();
    body_of_the_joined(base, rel);
    components_by_the_body(base);
    components_by_the_body(all);
    assert(all[0] == base[0]);
    if base.len() > 1 {
        assert(all[1] == base[1]);
    }
    assert(body_start(all) == body_start(base));
    assert(all.take(1) == base.take(1));
    let front = if body_start(base) == 1 {
        seq![base.take(1)]
    } else {
        Seq::<Seq<T>>::empty()
    };
    assert(front + (body_components(base) + body_components(rel)) == (front + body_components(base))
        + body_components(rel));
}

proof fn trimming_the_front_keeps_components<T: Unit>(p: Seq<T>)
    ensures
        body_components(trim_front(p)) == body_components(p),
        trim_front(p).len() > 0 ==> !is_void(head(trim_front(p))),
    decreases p.len(),
{
    if p.len() > 0 && is_void(head(p)) {
        head_len_bounds(p);
        trimming_the_front_keeps_components(tail(p));
    }
}

proof fn following_takes_components<T: Unit>(p: Seq<T>, steps: Seq<Seq<T>>)
    ensures
        follow(p, steps) is Some <==> steps.is_prefix_of(body_components(p)),
        follow(p, steps) is Some ==> body_components(p) == steps + body_components(
            follow(p, steps)->0,
        ),
    decreases steps.len(),
{
    let all = body_components(p);
    if steps.len() == 0 {
        assert(steps == all.take(0));
        assert(steps + all == all);
    } else {
        let q = trim_front(p);
        trimming_the_front_keeps_components(p);
        if q.len() > 0 {
            let rest = body_components(tail(q));
            assert(all == seq![head(q)] + rest);
            following_takes_components(tail(q), steps.skip(1));
            assert(all.skip(1) == rest);
            if head(q) == steps[0] {
                if steps.skip(1).is_prefix_of(rest) {
                    assert(steps == all.take(steps.len() as int)) by {
                        assert forall|k: int| 0 <= k < steps.len() implies steps[k] == all[k] by {
                            if k > 0 {
                                assert(steps.skip(1)[k - 1] == rest[k - 1]);
                            }
                        }
                    }
                    let left = body_components(follow(tail(q), steps.skip(1))->0);
                    assert(steps == seq![steps[0]] + steps.skip(1));
                    assert(all == steps + left);
                }
                if steps.is_prefix_of(all) {
                    assert forall|k: int| 0 <= k < steps.skip(1).len() implies steps.skip(1)[k]
                        == rest[k] by {
                        assert(steps[k + 1] == all[k + 1]);
                    }
                    assert(steps.skip(1) == rest.take(steps.len() - 1));
                }
            } else if steps.is_prefix_of(all) {
                assert(steps[0] == all[0]);
            }
        } else {
            assert(all.len() == 0);
        }
    }
}

/// A path lies below a base where the components of the base are its first
/// ones, and the path that leads to it has the others.
pub proof fn components_below_a_base<T: Unit>(full: Seq<T>, base: Seq<T>)
    requires
        base.len() > 0,
    ensures
        strip_base(full, base) is Some <==> components(base).is_prefix_of(components(full)),
        strip_base(full, base) is Some ==> components(full) == components(base) + components(
            strip_base(full, base)->0,
        ),
{
    let steps = components(base);
    let all = components(full);
    a_path_has_components(base);
    T::slash_is_not_dot();
    let rest = if body_start(full) == 1 {
        if steps[0] == full.take(1) {
            follow(full.skip(1), steps.skip(1))
        } else {
            None
        }
    } else {
        follow(full, steps)
    };
    assert(rest is Some <==> steps.is_prefix_of(all)) by {
        if body_start(full) == 1 {
            let body = body_components(full.skip(1));
            following_takes_components(full.skip(1), steps.skip(1));
            assert(all == seq![full.take(1)] + body);
            if steps[0] == full.take(1) && steps.skip(1).is_prefix_of(body) {
                assert forall|k: int| 0 <= k < steps.len() implies steps[k] == all[k] by {
                    if k > 0 {
                        assert(steps.skip(1)[k - 1] == body[k - 1]);
                    }
                }
                assert(steps == all.take(steps.len() as int));
            }
            if steps.is_prefix_of(all) {
                assert(steps[0] == all[0]);
                assert forall|k: int| 0 <= k < steps.skip(1).len() implies steps.skip(1)[k]
                    == body[k] by {
                    assert(steps[k + 1] == all[k + 1]);
                }
                assert(steps.skip(1) == body.take(steps.len() - 1));
            }
        } else {
            following_takes_components(full, steps);
        }
    }
    if let Some(r) = rest {
        let front = trim_front(r);
        let rel = trim_path(front, 0);
        trimming_the_front_keeps_components(r);
        trimmed_front_has_no_root(r);
        trimming_from_keeps_components(front, 0);
        assert(front.skip(0) == front);
        assert(rel.skip(0) == rel);
        trim_path_bounds(front, 0);
        trimmed_end_is_no_void(front, 0);
        assert(body_start(rel) == 0) by {
            if leads_with_dot(rel) {
                if rel.len() == 1 {
                    last_start_bounds(rel, 0);
                    reveal_with_fuel(last_start, 2);
                    assert(last_piece(rel, 0) == rel);
                } else {
                    assert(front[0] == T::dot() && front[1] == T::slash());
                    reveal_with_fuel(head_len, 2);
                    assert(front.skip(1)[0] == front[1]);
                    assert(head_len(front) == 1);
                    assert(is_void(head(front)));
                }
            }
        }
        assert(components(rel) == body_components(r));
        if body_start(full) == 1 {
            following_takes_components(full.skip(1), steps.skip(1));
            assert(steps == seq![steps[0]] + steps.skip(1));
            assert(all == steps + body_components(r));
        } else {
            following_takes_components(full, steps);
        }
    }
}

/// Where nothing is left out of a path, its components are those of the whole.
pub proof fn components_below_nothing<T: Unit>(full: Seq<T>)
    ensures
        strip_base(full, Seq::<T>::empty()) is Some,
        components(strip_base(full, Seq::<T>::empty())->0) == components(full),
{
    let start = body_start(full);
    assert(components(Seq::<T>::empty()) == Seq::<Seq<T>>::empty());
    let rel = trim_path(full, start);
    trim_path_bounds(full, start);
    trimming_from_keeps_components(full, start);
    T::slash_is_not_dot();
    if start == 1 {
        assert(rel[0] == full[0]);
        if rel.len() > 1 {
            assert(rel[1] == full[1]);
        }
        assert(body_start(rel) == 1);
        assert(rel.take(1) == full.take(1));
    } else if rel.len() > 0 {
        assert(rel[0] == full[0]);
        trimmed_end_is_no_void(full, 0);
        if leads_with_dot(rel) {
            if rel.len() == 1 {
                last_start_bounds(rel, 0);
                reveal_with_fuel(last_start, 2);
                assert(last_piece(rel, 0) == rel);
            } else {
                assert(rel[1] == full[1]);
            }
        }
        assert(rel.skip(0) == rel);
        assert(full.skip(0) == full);
    } else {
        assert(rel.skip(0) == rel);
        assert(full.skip(0) == full);
    }
}

proof fn trimming_from_keeps_components<T: Unit>(p: Seq<T>, start: nat)
    requires
        start <= p.len(),
        start <= 1,
    ensures
        body_components(trim_path(p, start).skip(start as int)) == body_components(
            p.skip(start as int),
        ),
    decreases p.len(),
{
    let body = p.skip(start as int);
    last_start_bounds(p, start);
    if p.len() > start && is_void(last_piece(p, start)) {
        let i = last_start(p, start);
        let last = last_piece(p, start);
        assert(!last.contains(T::slash())) by {
            assert forall|k: int| 0 <= k < last.len() implies last[k] != T::slash() by {
                assert(last[k] == p[i + k]);
            }
        }
        components_of_one_piece(last);
        let before = before_last(p, start);
        let front = before.skip(start as int);
        if i > start {
            assert(body == front + (seq![T::slash()] + last));
            components_around_a_slash(front, last);
        } else {
            assert(last == body);
            assert(front == Seq::<T>::empty());
        }
        assert(body_components(front) == body_components(body));
        trimming_from_keeps_components(before, start);
    }
}

/// The components of the body of a path hold no slash, and none is void.
pub proof fn components_are_pieces<T: Unit>(p: Seq<T>)
    ensures
        forall|i: int|
            0 <= i < body_components(p).len() ==> !is_void(#[trigger] body_components(p)[i])
                && !body_components(p)[i].contains(T::slash()),
    decreases p.len(),
{
    body_components_have_no_slash(p);
    if p.len() > 0 {
        head_len_bounds(p);
        components_are_pieces(tail(p));
        if !is_void(head(p)) {
            let rest = body_components(tail(p));
            assert forall|i: int| 0 <= i < body_components(p).len() implies !is_void(
                #[trigger] body_components(p)[i],
            ) by {
                if i > 0 {
                    assert(body_components(p)[i] == rest[i - 1]);
                } else {
                    assert(body_components(p)[0] == head(p));
                }
            }
        } else {
            assert(body_components(p) == body_components(tail(p)));
        }
    }
}

/// A beginning of a path that was trimmed begins as the path does.
proof fn a_trimmed_beginning_begins_alike<T: Unit>(p: Seq<T>, front: Seq<T>)
    requires
        front.is_prefix_of(p),
        body_start(p) <= front.len(),
        trim_path(front, body_start(p)) == front,
    ensures
        body_start(front) == body_start(p),
        body_start(p) == 1 ==> front.take(1) == p.take(1),
{
    T::slash_is_not_dot();
    let start = body_start(p);
    assert(forall|k: int| 0 <= k < front.len() ==> front[k] == p[k]);
    if start == 1 {
        assert(front[0] == p[0]);
        if front.len() > 1 {
            assert(front[1] == p[1]);
        }
        assert(front.take(1) == p.take(1));
    } else if front.len() > 0 {
        assert(front[0] == p[0]);
        if leads_with_dot(front) {
            if front.len() == 1 {
                trimmed_end_is_no_void(front, 0);
                last_start_bounds(front, 0);
                reveal_with_fuel(last_start, 2);
                assert(last_piece(front, 0) == front);
            } else {
                assert(front[1] == p[1]);
            }
        }
    }
}

proof fn trimming_twice_trims_once<T: Unit>(p: Seq<T>, start: nat)
    requires
        start <= p.len(),
    ensures
        trim_path(trim_path(p, start), start) == trim_path(p, start),
    decreases p.len(),
{
    if p.len() > start && is_void(last_piece(p, start)) {
        last_start_bounds(p, start);
        trimming_twice_trims_once(before_last(p, start), start);
    }
}

proof fn a_trimmed_path_ends_in_no_slash<T: Unit>(p: Seq<T>, start: nat)
    requires
        start <= p.len(),
    ensures
        trim_path(p, start).len() > start ==> trim_path(p, start).last() != T::slash(),
{
    let q = trim_path(p, start);
    trim_path_bounds(p, start);
    trimmed_end_is_no_void(p, start);
    if q.len() > start && q.last() == T::slash() {
        assert(last_start(q, start) == q.len());
        assert(last_piece(q, start).len() == 0);
    }
}

/// The last piece of a trimmed path is its last component, and the others are
/// those of what stands before it.
proof fn the_last_piece_is_the_last_component<T: Unit>(p: Seq<T>)
    requires
        trim_path(p, body_start(p)).len() > body_start(p),
    ensures
        ({
            let start = body_start(p);
            let q = trim_path(p, start);
            &&& components(p).len() > start
            &&& components(p).last() == last_piece(q, start)
            &&& components(trim_path(before_last(q, start), start)) == components(p).drop_last()
            &&& !is_void(last_piece(q, start))
            &&& !last_piece(q, start).contains(T::slash())
        }),
{
    let start = body_start(p);
    let q = trim_path(p, start);
    trim_path_bounds(p, start);
    trimmed_end_is_no_void(p, start);
    last_start_bounds(q, start);
    let i = last_start(q, start);
    let last = last_piece(q, start);
    assert(!last.contains(T::slash())) by {
        assert forall|k: int| 0 <= k < last.len() implies last[k] != T::slash() by {
            assert(last[k] == q[i + k]);
        }
    }
    components_of_one_piece(last);
    let before = before_last(q, start);
    let front = before.skip(start as int);
    let body = q.skip(start as int);
    if i > start {
        assert(body == front + (seq![T::slash()] + last));
        components_around_a_slash(front, last);
    } else {
        assert(last == body);
        assert(front == Seq::<T>::empty());
        assert(body_components(front) == Seq::<Seq<T>>::empty());
    }
    assert(body_components(body) == body_components(front).push(last));
    trimming_from_keeps_components(p, start);
    let dir = trim_path(before, start);
    trim_path_bounds(before, start);
    trimming_from_keeps_components(before, start);
    trimming_twice_trims_once(before, start);
    assert(dir.is_prefix_of(p)) by {
        assert forall|k: int| 0 <= k < dir.len() implies dir[k] == p[k] by {
            assert(before[k] == q[k]);
        }
        assert(dir == p.take(dir.len() as int));
    }
    a_trimmed_beginning_begins_alike(p, dir);
    let all = components(p);
    if start == 1 {
        assert(all == seq![p.take(1)] + body_components(body));
        assert(components(dir) == seq![p.take(1)] + body_components(front));
    } else {
        assert(p.skip(0) == p);
        assert(dir.skip(0) == dir);
        assert(all == body_components(body));
    }
    assert(all.drop_last() == components(dir));
}

proof fn a_path_without_pieces<T: Unit>(p: Seq<T>)
    requires
        trim_path(p, body_start(p)).len() <= body_start(p),
    ensures
        body_start(p) == 1 ==> components(p) == seq![p.take(1)],
        body_start(p) == 0 ==> components(p).len() == 0,
{
    let start = body_start(p);
    let q = trim_path(p, start);
    trim_path_bounds(p, start);
    trimming_from_keeps_components(p, start);
    assert(q.skip(start as int) == Seq::<T>::empty());
    assert(body_components(p.skip(start as int)) == Seq::<Seq<T>>::empty());
    if start == 1 {
        assert(components(p) == seq![p.take(1)]);
    } else {
        assert(p.skip(0) == p);
    }
}

/// The name of a path is its last component, unless that is the root, `.` or
/// `..`.
pub proof fn the_name_is_the_last_component<T: Unit>(p: Seq<T>)
    ensures
        file_name(p) is Some <==> components(p).len() > 0 && components(p).last()
            != seq![T::slash()] && components(p).last() != seq![T::dot()] && components(p).last()
            != seq![T::dot(), T::dot()],
        file_name(p) is Some ==> file_name(p)->0 == components(p).last(),
{
    let start = body_start(p);
    let q = trim_path(p, start);
    if q.len() > start {
        the_last_piece_is_the_last_component(p);
        let last = last_piece(q, start);
        if last == seq![T::slash()] {
            assert(last[0] == T::slash());
            assert(last.contains(T::slash()));
        }
        if is_up(last) {
            assert(last == seq![T::dot(), T::dot()]);
        }
    } else {
        a_path_without_pieces(p);
        if start == 1 {
            assert(components(p).last() == p.take(1));
            if has_root(p) {
                assert(p.take(1) == seq![T::slash()]);
            } else {
                assert(p.take(1) == seq![T::dot()]);
            }
        }
    }
}

/// The directory of a path has all its components but the last, and is written
/// as the path begins, without slashes at its end. Only the root and the path
/// without components have none.
pub proof fn the_directory_has_all_components_but_the_last<T: Unit>(p: Seq<T>)
    ensures
        parent(p) is None <==> components(p).len() == 0 || components(p) == seq![seq![T::slash()]],
        parent(p) is Some ==> {
            let dir = parent(p)->0;
            &&& components(dir) == components(p).drop_last()
            &&& dir.is_prefix_of(p)
            &&& dir.len() > 1 ==> dir.last() != T::slash()
        },
{
    T::slash_is_not_dot();
    let start = body_start(p);
    let q = trim_path(p, start);
    trim_path_bounds(p, start);
    if q.len() > start {
        the_last_piece_is_the_last_component(p);
        last_start_bounds(q, start);
        let before = before_last(q, start);
        let dir = trim_path(before, start);
        trim_path_bounds(before, start);
        a_trimmed_path_ends_in_no_slash(before, start);
        assert forall|k: int| 0 <= k < dir.len() implies dir[k] == p[k] by {
            assert(before[k] == q[k]);
        }
        assert(dir == p.take(dir.len() as int));
        if components(p) == seq![seq![T::slash()]] {
            let last = last_piece(q, start);
            assert(components(p).last() == seq![T::slash()]);
            assert(last[0] == T::slash());
            assert(last.contains(T::slash()));
        }
    } else {
        a_path_without_pieces(p);
        if start == 1 {
            if has_root(p) {
                assert(p.take(1) == seq![T::slash()]);
            } else {
                assert(p.take(1) == seq![T::dot()]);
                assert(seq![T::dot()][0] != seq![T::slash()][0]);
                assert(components(p)[0] != seq![seq![T::slash()]][0]);
                assert(components(Seq::<T>::empty()) == Seq::<Seq<T>>::empty());
                assert(components(p).drop_last() == Seq::<Seq<T>>::empty());
                assert(Seq::<T>::empty() == p.take(0));
            }
        }
    }
}

/// A path below a base is written with one slash between the two, unless the
/// base is empty or ends in one; a path that starts at the root stands for
/// itself.
pub proof fn joining_puts_a_slash_between<T: Unit>(base: Seq<T>, rel: Seq<T>)
    ensures
        has_root(rel) ==> join_path(base, rel) == rel,
        !has_root(rel) && base.len() > 0 && base.last() != T::slash() ==> join_path(base, rel)
            == base + seq![T::slash()] + rel,
        !has_root(rel) && (base.len() == 0 || base.last() == T::slash()) ==> join_path(base, rel)
            == base + rel,
{
    if !has_root(rel) && base.len() > 0 && base.last() != T::slash() {
        assert(base.push(T::slash()) == base + seq![T::slash()]);
    }
}

proof fn the_front_is_cut_off<T: Unit>(p: Seq<T>)
    ensures
        trim_front(p).is_suffix_of(p),
    decreases p.len(),
{
    if p.len() > 0 && is_void(head(p)) {
        head_len_bounds(p);
        the_front_is_cut_off(tail(p));
        the_tail_is_cut_off(p);
        endings_of_endings(trim_front(p), tail(p), p);
    } else {
        assert(p.skip(0) == p);
    }
}

proof fn the_tail_is_cut_off<T: Unit>(p: Seq<T>)
    ensures
        tail(p).is_suffix_of(p),
{
    head_len_bounds(p);
    assert(tail(p) == p.skip(p.len() - tail(p).len()));
}

proof fn endings_of_endings<T: Unit>(a: Seq<T>, b: Seq<T>, c: Seq<T>)
    requires
        a.is_suffix_of(b),
        b.is_suffix_of(c),
    ensures
        a.is_suffix_of(c),
{
    assert(b.skip(b.len() - a.len()) == c.skip(c.len() - a.len()));
}

proof fn what_is_left_is_an_ending<T: Unit>(p: Seq<T>, steps: Seq<Seq<T>>)
    requires
        follow(p, steps) is Some,
    ensures
        (follow(p, steps)->0).is_suffix_of(p),
    decreases steps.len(),
{
    if steps.len() == 0 {
        assert(p.skip(0) == p);
    } else {
        let q = trim_front(p);
        what_is_left_is_an_ending(tail(q), steps.skip(1));
        the_tail_is_cut_off(q);
        the_front_is_cut_off(p);
        endings_of_endings(follow(p, steps)->0, tail(q), q);
        endings_of_endings(follow(p, steps)->0, q, p);
    }
}

/// What is left of a path below a base stands in the path as it is, unit by
/// unit, and neither begins nor ends with a slash.
pub proof fn the_path_below_a_base_is_left_as_it_is<T: Unit>(full: Seq<T>, base: Seq<T>) -> (at:
    int)
    requires
        base.len() > 0,
        strip_base(full, base) is Some,
    ensures
        0 <= at <= at + strip_base(full, base)->0.len() <= full.len(),
        strip_base(full, base)->0 == full.subrange(at, at + strip_base(full, base)->0.len()),
        strip_base(full, base)->0.len() > 0 ==> strip_base(full, base)->0[0] != T::slash()
            && strip_base(full, base)->0.last() != T::slash(),
{
    a_path_has_components(base);
    the_path_below_a_base_has_no_root(full, base);
    let steps = components(base);
    let rel = strip_base(full, base)->0;
    let rest = if body_start(full) == 1 {
        what_is_left_is_an_ending(full.skip(1), steps.skip(1));
        follow(full.skip(1), steps.skip(1))->0
    } else {
        what_is_left_is_an_ending(full, steps);
        follow(full, steps)->0
    };
    if body_start(full) == 1 {
        assert(full.skip(1).is_suffix_of(full)) by {
            assert(full.skip(1) == full.skip(full.len() - full.skip(1).len()));
        }
        endings_of_endings(rest, full.skip(1), full);
    }
    let front = trim_front(rest);
    the_front_is_cut_off(rest);
    endings_of_endings(front, rest, full);
    trim_path_bounds(front, 0);
    a_trimmed_path_ends_in_no_slash(front, 0);
    let at = full.len() - front.len();
    assert(rel == full.subrange(at, at + rel.len())) by {
        assert forall|k: int| 0 <= k < rel.len() implies rel[k] == full[at + k] by {
            assert(rel[k] == front[k]);
            assert(front[k] == full.skip(at)[k]);
        }
    }
    at
}

} // verus!
