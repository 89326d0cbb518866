use kosmokopy::integrity::{
    compare_chunks, compare_sizes, first_printed_word, hex_text, parse_remote_hash,
    verify_remote_hash, FileHash, Verdict,
};

fn hash_of(chunks: &[&[u8]]) -> String {
    let mut h = FileHash::new();
    for c in chunks {
        assert!(h.has_room(c.len()));
        h.update(c);
    }
    h.finish()
}

#[test]
fn known_hashes_come_out() {
    assert_eq!(
        hash_of(&[]),
        "e3b0c44298fc1c149afbf4c8996fb92427ae41e4649b934ca495991b7852b855"
    );
    assert_eq!(
        hash_of(&[b"abc"]),
        "ba7816bf8f01cfea414140de5dae2223b00361a396177a9cb410ff61f20015ad"
    );
    assert_eq!(
        hash_of(&[b"abcdbcdecdefdefgefghfghighijhijkijkljklmklmnlmnomnopnopq"]),
        "248d6a61d20638b8e5c026930c3e6039a33ce45964ff2167f6ecedd419db06c1"
    );
}

#[test]
fn chunks_do_not_matter_to_the_hash() {
    let data: Vec<u8> = (0..20000u32).map(|n| (n % 251) as u8).collect();
    let whole = hash_of(&[&data]);
    for size in [1usize, 63, 64, 65, 8192] {
        let mut h = FileHash::new();
        for c in data.chunks(size) {
            h.update(c);
        }
        assert_eq!(h.finish(), whole);
    }
}

#[test]
fn bytes_are_written_as_hexadecimal_digits() {
    assert_eq!(hex_text(&[0, 9, 10, 15, 16, 255]), "00090a0f10ff");
    assert_eq!(hex_text(&[]), "");
}

#[test]
fn files_are_compared_by_size_and_chunk() {
    assert_eq!(compare_sizes(3, 3), Verdict::More);
    assert_eq!(compare_sizes(3, 4), Verdict::Different);
    assert_eq!(compare_chunks(b"abc", b"abc"), Verdict::More);
    assert_eq!(compare_chunks(b"abc", b"abd"), Verdict::Different);
    assert_eq!(compare_chunks(b"abc", b"ab"), Verdict::Different);
    assert_eq!(compare_chunks(b"", b""), Verdict::Same);
    assert_eq!(compare_chunks(b"", b"a"), Verdict::Different);
}

/// Compares two files that are read in chunks of this size.
fn verdict_on(a: &[u8], b: &[u8], size: usize) -> Verdict {
    let mut at = 0;
    loop {
        let x = &a[at.min(a.len())..(at + size).min(a.len())];
        let y = &b[at.min(b.len())..(at + size).min(b.len())];
        match compare_chunks(x, y) {
            Verdict::More => at += size,
            settled => return settled,
        }
    }
}

#[test]
fn the_verdict_is_on_the_whole_files() {
    for size in [1, 2, 3, 4, 100] {
        assert_eq!(verdict_on(b"abcdef", b"abcdef", size), Verdict::Same);
        assert_eq!(verdict_on(b"abcdef", b"abcdeg", size), Verdict::Different);
        assert_eq!(verdict_on(b"abcdef", b"abcde", size), Verdict::Different);
        assert_eq!(verdict_on(b"", b"", size), Verdict::Same);
    }
}

#[test]
fn the_hash_of_a_host_is_the_first_word_it_prints() {
    assert_eq!(
        parse_remote_hash(true, b"  ABCDEF01  /some/file\n", b"").unwrap(),
        "abcdef01"
    );
    assert_eq!(first_printed_word("a\tb"), Some("a".to_string()));
    assert_eq!(first_printed_word(" \n"), None);
}

#[test]
fn a_host_that_prints_no_hash_is_told() {
    assert_eq!(
        parse_remote_hash(true, b" \n", b"").err().unwrap(),
        "Could not parse remote hash output"
    );
    assert_eq!(
        parse_remote_hash(false, b"x", b" not found\n").err().unwrap(),
        "Remote hash command failed: not found"
    );
}

#[test]
fn equal_hashes_verify_a_file() {
    let here: Result<String, String> = Ok(hash_of(&[b"abc"]));
    let same = parse_remote_hash(
        true,
        b"BA7816BF8F01CFEA414140DE5DAE2223B00361A396177A9CB410FF61F20015AD  f",
        b"",
    );
    assert_eq!(verify_remote_hash(&here, &same), Ok(true));
    let other: Result<String, String> = Ok("00".to_string());
    assert_eq!(verify_remote_hash(&here, &other), Ok(false));
    let broken: Result<String, String> = Err("gone".to_string());
    assert_eq!(verify_remote_hash(&here, &broken), Err("gone".to_string()));
    assert_eq!(
        verify_remote_hash(&broken, &other),
        Err("local hash error: gone".to_string())
    );
}
