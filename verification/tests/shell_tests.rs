use kosmokopy::shell::{
    bytes_of, endpoint_bytes, exists_text, find_text, hash_text, local_rsync, mkdir_text,
    remove_text, rsync, rsync_version, scp, shell_quote, ssh, Command, Program,
};

fn args(c: &Command) -> Vec<String> {
    c.args.iter().map(|a| String::from_utf8(a.clone()).unwrap()).collect()
}

fn words(items: &[&str]) -> Vec<String> {
    items.iter().map(|s| s.to_string()).collect()
}

const SHARING: [&str; 6] = [
    "-o",
    "ControlMaster=auto",
    "-o",
    "ControlPath=/tmp/kosmokopy_ssh_%h_%p_%r",
    "-o",
    "ControlPersist=60",
];

#[test]
fn quotes_are_put_around_and_escaped_within() {
    assert_eq!(shell_quote("/a b"), "'/a b'");
    assert_eq!(shell_quote("it's"), "'it'\\''s'");
    assert_eq!(shell_quote(""), "''");
    assert_eq!(shell_quote("$(rm -rf /)"), "'$(rm -rf /)'");
}

#[test]
fn command_lines_quote_their_paths() {
    assert_eq!(find_text("/a b"), "find '/a b' -type f 2>/dev/null");
    assert_eq!(remove_text("/a'b"), "rm -f '/a'\\''b'");
    assert_eq!(exists_text("/a"), "test -e '/a'");
    assert_eq!(
        hash_text("/a b"),
        "sha256sum '/a b' 2>/dev/null || shasum -a 256 '/a b' 2>/dev/null"
    );
    assert_eq!(mkdir_text(&words(&["/a", "/b c"])), "mkdir -p '/a' '/b c'");
}

#[test]
fn ssh_runs_a_line_over_the_shared_connection() {
    let c = ssh("host", "echo ok");
    assert_eq!(c.program, Program::Ssh);
    let mut want = words(&SHARING);
    want.extend(words(&["host", "echo ok"]));
    assert_eq!(args(&c), want);
}

#[test]
fn scp_copies_quietly_over_the_shared_connection() {
    let c = scp(b"/a", &endpoint_bytes("h", "/b c"));
    assert_eq!(c.program, Program::Scp);
    let mut want = words(&SHARING);
    want.extend(words(&["-q", "/a", "h:/b c"]));
    assert_eq!(args(&c), want);
}

#[test]
fn rsync_copies_with_checksums() {
    let c = rsync(b"h:/a", b"/b");
    assert_eq!(c.program, Program::Rsync);
    assert_eq!(
        args(&c),
        words(&[
            "-az",
            "--checksum",
            "-e",
            "ssh -o ControlMaster=auto -o ControlPath=/tmp/kosmokopy_ssh_%h_%p_%r -o ControlPersist=60",
            "h:/a",
            "/b",
        ])
    );
    assert_eq!(args(&local_rsync(b"/a", b"/b")), words(&["-a", "--checksum", "/a", "/b"]));
    assert_eq!(args(&rsync_version()), words(&["--version"]));
}

#[test]
fn programs_have_names() {
    assert_eq!(Program::Ssh.name(), "ssh");
    assert_eq!(Program::Scp.name(), "scp");
    assert_eq!(Program::Rsync.name(), "rsync");
}

#[test]
fn arguments_need_not_be_text() {
    let c = local_rsync(b"/\xff", b"/b");
    assert_eq!(c.args[2], b"/\xff".to_vec());
    assert_eq!(bytes_of("é"), vec![0xc3, 0xa9]);
}
