//! Whether two files are the same: by their bytes, chunk by chunk, or by
//! their SHA-256 hashes.

use sha2::Digest;
use vstd::prelude::*;

use crate::paths::same_units;
use crate::text::{
    chars_of, concat2, first_word_chars, hex_digit_of, lossy_text, lower_text, owned, same_text,
    text_of, trim_chars, trim_text,
};
#[allow(unused_imports)]
use crate::json::hex_value;
#[allow(unused_imports)]
use crate::text::{first_word, hex_digit, is_white, lower_case, trimmed, utf8_lossy};
#[allow(unused_imports)]
use crate::text_laws::{
    the_first_word_ends_at_white_space, trimming_leaves_the_rest,
    trimming_takes_white_space_from_the_ends,
};

verus! {

// ---------------------------------------------------------------------------
// Byte by byte
// ---------------------------------------------------------------------------

/// What is known of two files that are read side by side.
#[derive(Clone, Copy, PartialEq, Eq, Structural, Debug)]
pub enum Verdict {
    /// They are the same so far; the next chunks decide.
    More,
    /// They are the same.
    Same,
    /// They are not the same.
    Different,
}

/// What the sizes of two files tell.
pub open spec fn size_verdict(a: u64, b: u64) -> Verdict {
    if a != b {
        Verdict::Different
    } else {
        Verdict::More
    }
}

/// What a chunk of each file tells; an empty chunk is the end of the file.
pub open spec fn chunk_verdict(a: Seq<u8>, b: Seq<u8>) -> Verdict {
    if a != b {
        Verdict::Different
    } else if a.len() == 0 {
        Verdict::Same
    } else {
        Verdict::More
    }
}

/// What the sizes of two files tell.
pub fn compare_sizes(a: u64, b: u64) -> (v: Verdict)
    ensures
        v == size_verdict(a, b),
{
    if a != b {
        Verdict::Different
    } else {
        Verdict::More
    }
}

/// What a chunk of each file tells.
pub fn compare_chunks(a: &[u8], b: &[u8]) -> (v: Verdict)
    ensures
        v == chunk_verdict(a@, b@),
{
    if !same_units(a, b) {
        Verdict::Different
    } else if a.len() == 0 {
        Verdict::Same
    } else {
        Verdict::More
    }
}

/// What the chunks read so far tell, the first of each pair from the one
/// file, the second from the other.
pub open spec fn verdict_of(reads: Seq<(Seq<u8>, Seq<u8>)>) -> Verdict
    decreases reads.len(),
{
    if reads.len() == 0 {
        Verdict::More
    } else {
        match verdict_of(reads.drop_last()) {
            Verdict::More => chunk_verdict(reads.last().0, reads.last().1),
            settled => settled,
        }
    }
}

/// What was read of the one file.
pub open spec fn left_bytes(reads: Seq<(Seq<u8>, Seq<u8>)>) -> Seq<u8>
    decreases reads.len(),
{
    if reads.len() == 0 {
        Seq::empty()
    } else {
        left_bytes(reads.drop_last()) + reads.last().0
    }
}

/// What was read of the other file.
pub open spec fn right_bytes(reads: Seq<(Seq<u8>, Seq<u8>)>) -> Seq<u8>
    decreases reads.len(),
{
    if reads.len() == 0 {
        Seq::empty()
    } else {
        right_bytes(reads.drop_last()) + reads.last().1
    }
}

proof fn same_so_far(reads: Seq<(Seq<u8>, Seq<u8>)>)
    requires
        verdict_of(reads) == Verdict::More,
    ensures
        left_bytes(reads) == right_bytes(reads),
    decreases reads.len(),
{
    if reads.len() > 0 {
        same_so_far(reads.drop_last());
    }
}

/// Files that are found to be the same hold the same bytes.
pub proof fn the_same_files_hold_the_same_bytes(reads: Seq<(Seq<u8>, Seq<u8>)>)
    requires
        reads.len() > 0,
        verdict_of(reads.drop_last()) == Verdict::More,
        verdict_of(reads) == Verdict::Same,
    ensures
        left_bytes(reads) == right_bytes(reads),
{
    same_so_far(reads.drop_last());
}

/// Files that are found to be different hold different bytes, where the
/// chunks that tell them apart are of the same length.
pub proof fn different_files_hold_different_bytes(reads: Seq<(Seq<u8>, Seq<u8>)>)
    requires
        reads.len() > 0,
        verdict_of(reads.drop_last()) == Verdict::More,
        verdict_of(reads) == Verdict::Different,
        reads.last().0.len() == reads.last().1.len(),
    ensures
        left_bytes(reads) != right_bytes(reads),
{
    let before = reads.drop_last();
    same_so_far(before);
    let n = left_bytes(before).len() as int;
    if left_bytes(reads) == right_bytes(reads) {
        assert(left_bytes(reads).skip(n) == reads.last().0);
        assert(right_bytes(reads).skip(n) == reads.last().1);
    }
}

/// Whether these are the chunks of two files, one after the other: each is
/// what follows the one before it, and only the end of a file is empty.
pub open spec fn are_read_from(reads: Seq<(Seq<u8>, Seq<u8>)>, a: Seq<u8>, b: Seq<u8>) -> bool
    decreases reads.len(),
{
    reads.len() == 0 || {
        &&& are_read_from(reads.drop_last(), a, b)
        &&& left_bytes(reads).is_prefix_of(a)
        &&& right_bytes(reads).is_prefix_of(b)
        &&& reads.last().0.len() == 0 ==> left_bytes(reads) == a
        &&& reads.last().1.len() == 0 ==> right_bytes(reads) == b
    }
}

/// The verdict is on the whole files, however they were cut: files that are
/// found to be the same are the same, and files that are found to be
/// different, by their sizes or by chunks of the same length, are different.
pub proof fn the_verdict_is_on_the_whole_files(
    reads: Seq<(Seq<u8>, Seq<u8>)>,
    a: Seq<u8>,
    b: Seq<u8>,
)
    requires
        are_read_from(reads, a, b),
        a.len() <= u64::MAX,
        b.len() <= u64::MAX,
    ensures
        size_verdict(a.len() as u64, b.len() as u64) == Verdict::Different ==> a != b,
        verdict_of(reads) == Verdict::Same ==> a == b,
        verdict_of(reads) == Verdict::Different && (forall|i: int|
            0 <= i < reads.len() ==> (#[trigger] reads[i]).0.len() == reads[i].1.len()) ==> a != b,
    decreases reads.len(),
{
    if reads.len() > 0 {
        let before = reads.drop_last();
        the_verdict_is_on_the_whole_files(before, a, b);
        assert(forall|i: int| 0 <= i < before.len() ==> before[i] == reads[i]);
        if verdict_of(before) == Verdict::More {
            same_so_far(before);
            if verdict_of(reads) == Verdict::Same {
                the_same_files_hold_the_same_bytes(reads);
            }
            if verdict_of(reads) == Verdict::Different && reads.last().0.len()
                == reads.last().1.len() {
                different_files_hold_different_bytes(reads);
                assert(left_bytes(reads).len() == right_bytes(reads).len());
                if a == b {
                    let n = left_bytes(reads).len() as int;
                    assert(left_bytes(reads) == a.take(n));
                    assert(right_bytes(reads) == b.take(n));
                }
            }
            assert(reads[reads.len() - 1] == reads.last());
        }
    }
}

// ---------------------------------------------------------------------------
// SHA-256
// ---------------------------------------------------------------------------

/// How many bytes can be hashed: their number of bits is a `u64`.
pub const MAX_HASHED: u64 = 0x1fff_ffff_ffff_ffff;

/// A running `sha2::Sha256`.
#[verifier::external_body]
pub struct ShaState {
    inner: sha2::Sha256,
}

/// The bytes that a running hash has taken in.
pub uninterp spec fn hashed_bytes(state: ShaState) -> Seq<u8>;

/// The SHA-256 hash of bytes.
pub uninterp spec fn sha256(bytes: Seq<u8>) -> Seq<u8>;

/// `Sha256::new`: a hash that has taken in nothing.
#[verifier::external_body]
fn sha_new() -> (state: ShaState)
    ensures
        hashed_bytes(state) == Seq::<u8>::empty(),
{
    ShaState { inner: sha2::Sha256::new() }
}

/// `Digest::update`: the bytes go behind those that were taken in before. The
/// count of blocks stays within its `u64`.
#[verifier::external_body]
fn sha_update(state: &mut ShaState, chunk: &[u8])
    requires
        hashed_bytes(*old(state)).len() + chunk@.len() <= MAX_HASHED,
    ensures
        hashed_bytes(*final(state)) == hashed_bytes(*old(state)) + chunk@,
{
    state.inner.update(chunk);
}

/// `Digest::finalize`: the hash of the bytes that were taken in, which is 32
/// bytes long. The count of bits stays within its `u64`.
#[verifier::external_body]
fn sha_finalize(state: ShaState) -> (digest: Vec<u8>)
    requires
        hashed_bytes(state).len() <= MAX_HASHED,
    ensures
        digest@ == sha256(hashed_bytes(state)),
        digest@.len() == 32,
{
    state.inner.finalize().to_vec()
}

/// Bytes as two hexadecimal digits each.
pub open spec fn hex(bytes: Seq<u8>) -> Seq<char>
    decreases bytes.len(),
{
    if bytes.len() == 0 {
        Seq::empty()
    } else {
        hex(bytes.drop_last()).push(hex_digit(bytes.last() / 16)).push(
            hex_digit(bytes.last() % 16),
        )
    }
}

/// Bytes as two lower-case hexadecimal digits each.
pub fn hex_text(bytes: &[u8]) -> (r: String)
    ensures
        r@ == hex(bytes@),
{
    let mut digits: Vec<char> = Vec::new();
    let mut i: usize = 0;
    assert(bytes@.take(0).len() == 0);
    while i < bytes.len()
        invariant
            i <= bytes@.len(),
            digits@ == hex(bytes@.take(i as int)),
        decreases bytes@.len() - i,
    {
        assert(bytes@.take(i + 1).drop_last() == bytes@.take(i as int));
        digits.push(hex_digit_of(bytes[i] / 16));
        digits.push(hex_digit_of(bytes[i] % 16));
        i += 1;
    }
    assert(bytes@.take(i as int) == bytes@);
    text_of(&digits)
}

proof fn hex_digits_differ(a: u8, b: u8)
    requires
        a < 16,
        b < 16,
        hex_digit(a) == hex_digit(b),
    ensures
        a == b,
{
    assert(hex_digit(a) as int == (if a < 10 {
        48 + a
    } else {
        87 + a
    }));
    assert(hex_digit(b) as int == (if b < 10 {
        48 + b
    } else {
        87 + b
    }));
}

/// Two hashes are written the same only when they are the same.
pub proof fn hex_is_injective(a: Seq<u8>, b: Seq<u8>)
    requires
        hex(a) == hex(b),
    ensures
        a == b,
    decreases a.len(),
{
    hex_len(a);
    hex_len(b);
    if a.len() > 0 {
        let x = hex(a);
        let y = hex(b);
        assert(x.last() == hex_digit(a.last() % 16));
        assert(y.last() == hex_digit(b.last() % 16));
        assert(x[x.len() - 2] == hex_digit(a.last() / 16));
        assert(y[y.len() - 2] == hex_digit(b.last() / 16));
        hex_digits_differ(a.last() % 16, b.last() % 16);
        hex_digits_differ(a.last() / 16, b.last() / 16);
        assert(x.drop_last().drop_last() == hex(a.drop_last()));
        assert(y.drop_last().drop_last() == hex(b.drop_last()));
        hex_is_injective(a.drop_last(), b.drop_last());
        assert(a == a.drop_last().push(a.last()));
        assert(b == b.drop_last().push(b.last()));
    } else {
        assert(b.len() == 0);
        assert(a == b);
    }
}

/// Each byte takes two digits.
pub proof fn hex_len(bytes: Seq<u8>)
    ensures
        hex(bytes).len() == 2 * bytes.len(),
    decreases bytes.len(),
{
    if bytes.len() > 0 {
        hex_len(bytes.drop_last());
    }
}

/// The hash of a file that is read chunk by chunk.
pub struct FileHash {
    state: ShaState,
    length: u64,
}

impl View for FileHash {
    type V = Seq<u8>;

    /// The bytes that were read so far.
    closed spec fn view(&self) -> Seq<u8> {
        hashed_bytes(self.state)
    }
}

impl FileHash {
    /// Whether the length is that of what was read.
    pub closed spec fn wf(&self) -> bool {
        self.length == self@.len() && self.length <= MAX_HASHED
    }

    /// The hash of a file of which nothing was read.
    pub fn new() -> (r: FileHash)
        ensures
            r@ == Seq::<u8>::empty(),
            r.wf(),
    {
        FileHash { state: sha_new(), length: 0 }
    }

    /// Whether a chunk of this length can still be taken in.
    pub fn has_room(&self, len: usize) -> (b: bool)
        requires
            self.wf(),
        ensures
            b == (self@.len() + len <= MAX_HASHED),
    {
        len as u64 <= MAX_HASHED - self.length
    }

    /// Takes in the next chunk.
    pub fn update(&mut self, chunk: &[u8])
        requires
            old(self).wf(),
            old(self)@.len() + chunk@.len() <= MAX_HASHED,
        ensures
            final(self)@ == old(self)@ + chunk@,
            final(self).wf(),
    {
        sha_update(&mut self.state, chunk);
        self.length = self.length + chunk.len() as u64;
    }

    /// The hash of what was read, as a lower-case hexadecimal string.
    pub fn finish(self) -> (r: String)
        requires
            self.wf(),
        ensures
            r@ == hex(sha256(self@)),
            r@.len() == 64,
    {
        let digest = sha_finalize(self.state);
        proof {
            hex_len(digest@);
        }
        hex_text(&digest)
    }
}

// ---------------------------------------------------------------------------
// The hash of a remote file
// ---------------------------------------------------------------------------

/// The first word of what the command printed.
pub open spec fn printed_hash(printed: Seq<char>) -> Option<Seq<char>> {
    let word = first_word(trimmed(printed));
    if word.len() == 0 {
        None
    } else {
        Some(word)
    }
}

/// The hash that the command printed: the first word, in lower case.
pub open spec fn remote_hash(success: bool, stdout: Seq<u8>, stderr: Seq<u8>) -> Result<
    Seq<char>,
    Seq<char>,
> {
    if !success {
        Err("Remote hash command failed: "@ + trimmed(utf8_lossy(stderr)))
    } else {
        match printed_hash(utf8_lossy(stdout)) {
            Some(word) => Ok(lower_case(word)),
            None => Err("Could not parse remote hash output"@),
        }
    }
}

/// The first word of what the command printed.
pub fn first_printed_word(printed: &str) -> (r: Option<String>)
    ensures
        (match r {
            Some(w) => Some(w@),
            None => None,
        }) == printed_hash(printed@),
{
    let s = chars_of(printed);
    let word = first_word_chars(&trim_chars(&s));
    if word.len() == 0 {
        None
    } else {
        Some(text_of(&word))
    }
}

/// The hash that the command printed, from how the command ended.
pub fn parse_remote_hash(success: bool, stdout: &[u8], stderr: &[u8]) -> (r: Result<
    String,
    String,
>)
    ensures
        (match r {
            Ok(h) => Ok(h@),
            Err(e) => Err(e@),
        }) == remote_hash(success, stdout@, stderr@),
{
    if !success {
        let shown = lossy_text(stderr);
        return Err(concat2("Remote hash command failed: ", trim_text(shown.as_str()).as_str()));
    }
    let printed = lossy_text(stdout);
    match first_printed_word(printed.as_str()) {
        Some(word) => Ok(lower_text(word.as_str())),
        None => Err(owned("Could not parse remote hash output")),
    }
}

/// What two hashes tell of two files: the local one that failed goes first.
pub open spec fn hash_verdict(
    local: Result<Seq<char>, Seq<char>>,
    remote: Result<Seq<char>, Seq<char>>,
) -> Result<bool, Seq<char>> {
    match (local, remote) {
        (Err(e), _) => Err("local hash error: "@ + e),
        (_, Err(e)) => Err(e),
        (Ok(a), Ok(b)) => Ok(a == b),
    }
}

/// Verifies a local file against a remote one by their hashes.
pub fn verify_remote_hash(local: &Result<String, String>, remote: &Result<String, String>) -> (r:
    Result<bool, String>)
    ensures
        (match r {
            Ok(b) => Ok(b),
            Err(e) => Err(e@),
        }) == hash_verdict(
            match *local {
                Ok(h) => Ok(h@),
                Err(e) => Err(e@),
            },
            match *remote {
                Ok(h) => Ok(h@),
                Err(e) => Err(e@),
            },
        ),
{
    match local {
        Err(e) => Err(concat2("local hash error: ", e.as_str())),
        Ok(a) => match remote {
            Err(e) => Err(owned(e.as_str())),
            Ok(b) => Ok(same_text(a.as_str(), b.as_str())),
        },
    }
}

/// A local file and a remote one are taken to be the same exactly when their
/// SHA-256 hashes are the same, where the host prints the hash of its file.
pub proof fn the_hashes_decide(local: Seq<u8>, remote: Seq<u8>)
    ensures
        hash_verdict(Ok(hex(sha256(local))), Ok(hex(sha256(remote)))) == Ok::<bool, Seq<char>>(
            sha256(local) == sha256(remote),
        ),
{
    if hex(sha256(local)) == hex(sha256(remote)) {
        hex_is_injective(sha256(local), sha256(remote));
    }
}

/// Sizes that differ settle that two files differ, and sizes alone never settle
/// that they are the same; two chunks differ if a byte does, and only the end of
/// both files settles that these are the same.
pub proof fn only_the_end_settles_that_files_are_the_same(
    m: u64,
    n: u64,
    a: Seq<u8>,
    b: Seq<u8>,
)
    ensures
        size_verdict(m, n) == Verdict::Different <==> m != n,
        size_verdict(m, n) != Verdict::Same,
        chunk_verdict(a, b) == Verdict::Different <==> a != b,
        chunk_verdict(a, b) == Verdict::Same <==> a.len() == 0 && b.len() == 0,
        chunk_verdict(a, b) == Verdict::More <==> a == b && a.len() > 0,
{
    if a.len() == 0 && b.len() == 0 {
        assert(a == b);
    }
}

/// Bytes are written as two lower-case hexadecimal digits each, that of the
/// higher half first.
pub proof fn bytes_read_back_from_their_digits(bytes: Seq<u8>, i: int)
    requires
        0 <= i < bytes.len(),
    ensures
        hex(bytes).len() == 2 * bytes.len(),
        hex_value(hex(bytes)[2 * i]) == Some((bytes[i] / 16) as nat),
        hex_value(hex(bytes)[2 * i + 1]) == Some((bytes[i] % 16) as nat),
        !('A' <= hex(bytes)[2 * i] <= 'F'),
        !('A' <= hex(bytes)[2 * i + 1] <= 'F'),
    decreases bytes.len(),
{
    hex_len(bytes);
    hex_len(bytes.drop_last());
    if i < bytes.len() - 1 {
        bytes_read_back_from_their_digits(bytes.drop_last(), i);
        assert(bytes.drop_last()[i] == bytes[i]);
        assert(hex(bytes)[2 * i] == hex(bytes.drop_last())[2 * i]);
        assert(hex(bytes)[2 * i + 1] == hex(bytes.drop_last())[2 * i + 1]);
    } else {
        let high = bytes[i] / 16;
        let low = bytes[i] % 16;
        assert(high < 10 ==> hex_digit(high) as int == 48 + high);
        assert(high >= 10 ==> hex_digit(high) as int == 87 + high);
        assert(low < 10 ==> hex_digit(low) as int == 48 + low);
        assert(low >= 10 ==> hex_digit(low) as int == 87 + low);
    }
}

/// The hash is the first word that was printed, whatever stands behind it and
/// whatever white space before it; nothing but white space holds no hash.
pub proof fn the_hash_is_the_first_word_printed(
    white: Seq<char>,
    word: Seq<char>,
    rest: Seq<char>,
)
    requires
        forall|k: int| 0 <= k < white.len() ==> is_white(#[trigger] white[k]),
        forall|k: int| 0 <= k < word.len() ==> !is_white(#[trigger] word[k]),
        rest.len() > 0 ==> is_white(rest[0]),
    ensures
        word.len() > 0 ==> printed_hash(white + word + rest) == Some(word),
        printed_hash(white) is None,
{
    trimming_leaves_the_rest(white);
    assert(first_word(trimmed(white)).len() == 0);
    if word.len() > 0 {
        let s = white + word + rest;
        let (from, to) = trimming_takes_white_space_from_the_ends(s);
        let a = white.len() as int;
        let b = a + word.len();
        assert(s[a] == word[0]);
        assert(s[b - 1] == word[word.len() - 1]);
        assert(from <= a);
        assert(to >= b);
        let t = trimmed(s);
        assert(t[0] == s[from]);
        if from < a {
            assert(s[from] == white[from]);
        }
        assert(from == a);
        let w = first_word(t);
        the_first_word_ends_at_white_space(t);
        assert(w == t.take(w.len() as int));
        if w.len() < word.len() {
            assert(t[w.len() as int] == word[w.len() as int]);
        }
        if w.len() > word.len() {
            assert(w[word.len() as int] == t[word.len() as int]);
            assert(t[word.len() as int] == rest[0]);
        }
        assert(w == word) by {
            assert forall|k: int| 0 <= k < word.len() implies w[k] == word[k] by {
                assert(w[k] == t[k]);
                assert(t[k] == s[a + k]);
            }
        }
    }
}

/// A hash counts only where the command went well and printed one, and is taken
/// in lower case; otherwise what went wrong is told.
pub proof fn a_hash_is_taken_only_from_success(stdout: Seq<u8>, stderr: Seq<u8>)
    ensures
        remote_hash(false, stdout, stderr) == Err::<Seq<char>, Seq<char>>(
            "Remote hash command failed: "@ + trimmed(utf8_lossy(stderr)),
        ),
        match printed_hash(utf8_lossy(stdout)) {
            Some(word) => remote_hash(true, stdout, stderr) == Ok::<Seq<char>, Seq<char>>(
                lower_case(word),
            ),
            None => remote_hash(true, stdout, stderr) == Err::<Seq<char>, Seq<char>>(
                "Could not parse remote hash output"@,
            ),
        },
{
}

/// Two files are taken to be the same exactly when both hashes could be had and
/// are the same; where one could not, the reason is told.
pub proof fn a_verdict_needs_both_hashes(
    a: Seq<char>,
    b: Seq<char>,
    other: Result<Seq<char>, Seq<char>>,
    e: Seq<char>,
)
    ensures
        hash_verdict(Ok(a), Ok(b)) == Ok::<bool, Seq<char>>(a == b),
        hash_verdict(Err(e), other) == Err::<bool, Seq<char>>("local hash error: "@ + e),
        hash_verdict(Ok(a), Err(e)) == Err::<bool, Seq<char>>(e),
{
}

} // verus!
