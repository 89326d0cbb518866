use std::path::{Component, Path};

use kosmokopy::names::{
    free_remote_path, find_unique_remote_path_from_set, local_candidate_path,
    remote_candidate_path, search_remote_path, split_extension, strip_spaces_from_path, Search,
};
use kosmokopy::paths::{
    components_of, file_name_of, join_paths, parent_of, same_units, strip_base_of,
};

/// Every path of up to six units over these four.
fn small_paths() -> Vec<String> {
    let mut all = vec![String::new()];
    let mut last = all.clone();
    for _ in 0..6 {
        let mut next = Vec::new();
        for p in &last {
            for c in ['/', '.', 'a', 'b'] {
                let mut q = p.clone();
                q.push(c);
                next.push(q);
            }
        }
        all.extend(next.iter().cloned());
        last = next;
    }
    all
}

fn text(bytes: Option<Vec<u8>>) -> Option<String> {
    bytes.map(|b| String::from_utf8(b).unwrap())
}

fn words(items: &[&str]) -> Vec<String> {
    items.iter().map(|s| s.to_string()).collect()
}

#[test]
fn the_file_name_is_that_of_the_standard_library() {
    for p in small_paths() {
        let want = Path::new(&p).file_name().map(|f| f.to_str().unwrap().to_string());
        assert_eq!(text(file_name_of(p.as_bytes())), want, "{:?}", p);
    }
}

#[test]
fn the_parent_is_that_of_the_standard_library() {
    for p in small_paths() {
        let want = Path::new(&p).parent().map(|f| f.to_str().unwrap().to_string());
        assert_eq!(text(parent_of(p.as_bytes())), want, "{:?}", p);
    }
}

#[test]
fn the_components_are_those_of_the_standard_library() {
    for p in small_paths() {
        let want: Vec<String> = Path::new(&p)
            .components()
            .map(|c| match c {
                Component::RootDir => "/".to_string(),
                other => other.as_os_str().to_str().unwrap().to_string(),
            })
            .collect();
        let got: Vec<String> = components_of(p.as_bytes())
            .into_iter()
            .map(|c| String::from_utf8(c).unwrap())
            .collect();
        assert_eq!(got, want, "{:?}", p);
    }
}

#[test]
fn joining_is_that_of_the_standard_library() {
    let some: Vec<String> = small_paths().into_iter().filter(|p| p.len() <= 3).collect();
    for a in &some {
        for b in &some {
            let want = Path::new(a).join(b).to_str().unwrap().to_string();
            let got = String::from_utf8(join_paths(a.as_bytes(), b.as_bytes())).unwrap();
            assert_eq!(got, want, "{:?} {:?}", a, b);
        }
    }
}

#[test]
fn stripping_a_base_is_that_of_the_standard_library() {
    let bases: Vec<String> = small_paths().into_iter().filter(|p| p.len() <= 3).collect();
    let fulls: Vec<String> = small_paths().into_iter().filter(|p| p.len() <= 5).collect();
    for full in &fulls {
        for base in &bases {
            let want = Path::new(full)
                .strip_prefix(base)
                .ok()
                .map(|r| r.to_str().unwrap().to_string());
            let got = text(strip_base_of(full.as_bytes(), base.as_bytes()));
            assert_eq!(got, want, "{:?} {:?}", full, base);
        }
    }
}

#[test]
fn paths_of_characters_go_the_same_way() {
    let p: Vec<char> = "/srv/data/é.txt".chars().collect();
    let name: String = file_name_of(&p).unwrap().into_iter().collect();
    assert_eq!(name, "é.txt");
    let up: String = parent_of(&p).unwrap().into_iter().collect();
    assert_eq!(up, "/srv/data");
    assert!(same_units(&p, &p));
    assert!(!same_units(&p, &p[1..]));
}

#[test]
fn stem_and_extension_are_those_of_the_standard_library() {
    for p in small_paths() {
        if p.contains('/') || p.is_empty() || p == "." || p == ".." {
            continue;
        }
        let (stem, ext) = split_extension(p.as_bytes());
        let path = Path::new(&p);
        assert_eq!(stem, path.file_stem().unwrap().to_str().unwrap().as_bytes(), "{:?}", p);
        let want = path.extension().map(|e| e.to_str().unwrap().as_bytes().to_vec());
        assert_eq!(ext, want, "{:?}", p);
    }
}

#[test]
fn a_local_name_is_numbered_before_its_extension() {
    assert_eq!(local_candidate_path(b"/d/photo.jpg", 1), b"/d/photo (1).jpg".to_vec());
    assert_eq!(local_candidate_path(b"/d/a.tar.gz", 12), b"/d/a.tar (12).gz".to_vec());
    assert_eq!(local_candidate_path(b"/d/.bashrc", 2), b"/d/.bashrc (2)".to_vec());
    assert_eq!(local_candidate_path(b"plain", 3), b"plain (3)".to_vec());
    // A path without a name stands in the current directory.
    assert_eq!(local_candidate_path(b"/", 1), b"./ (1)".to_vec());
}

#[test]
fn a_name_that_is_no_text_is_numbered_as_it_is_shown() {
    assert_eq!(
        local_candidate_path(b"/d/\xff.txt", 1),
        "/d/\u{fffd} (1).txt".as_bytes().to_vec()
    );
}

#[test]
fn a_remote_name_is_numbered_before_its_extension() {
    assert_eq!(remote_candidate_path("/d/photo.jpg", 1), "/d/photo (1).jpg");
    assert_eq!(remote_candidate_path("/photo.jpg", 4), "/photo (4).jpg");
    assert_eq!(remote_candidate_path("/x", 1), "/x (1)");
    assert_eq!(remote_candidate_path("photo", 1), "photo (1)");
    assert_eq!(remote_candidate_path("a.txt", 1), "a (1).txt");
    assert_eq!(find_unique_remote_path_from_set("a.txt", &[]), "a (1).txt");
}

#[test]
fn the_first_free_number_is_taken() {
    let taken = words(&["/d/a.txt", "/d/a (1).txt", "/d/a (2).txt", "/d/a (4).txt"]);
    assert_eq!(find_unique_remote_path_from_set("/d/a.txt", &taken), "/d/a (3).txt");
    assert_eq!(free_remote_path("/d/a.txt", &taken), Some("/d/a (3).txt".to_string()));
    assert_eq!(find_unique_remote_path_from_set("/d/b.txt", &taken), "/d/b (1).txt");
}

#[test]
fn a_search_goes_on_while_names_are_taken() {
    match search_remote_path("/d/a.txt", 1, true) {
        Search::Next(n) => assert_eq!(n, 2),
        other => panic!("{:?}", other),
    }
    match search_remote_path("/d/a.txt", 2, false) {
        Search::Found(p) => assert_eq!(p, "/d/a (2).txt"),
        other => panic!("{:?}", other),
    }
    assert!(matches!(search_remote_path("/d/a.txt", u32::MAX, true), Search::Exhausted));
    // It finds what a look at the list of the names finds.
    let taken = words(&["/d/a (1).txt", "/d/a (2).txt", "/d/a (4).txt"]);
    let mut n = 1;
    let found = loop {
        let there = taken.contains(&remote_candidate_path("/d/a.txt", n));
        match search_remote_path("/d/a.txt", n, there) {
            Search::Next(next) => n = next,
            Search::Found(p) => break p,
            Search::Exhausted => panic!("no name is left"),
        }
    };
    assert_eq!(Some(found), free_remote_path("/d/a.txt", &taken));
}

#[test]
fn spaces_go_below_the_base_only() {
    assert_eq!(
        strip_spaces_from_path(b"/my disk", b"/my disk/a b/c d.txt"),
        b"/my disk/ab/cd.txt".to_vec()
    );
    assert_eq!(strip_spaces_from_path(b"/x", b"/my disk/a b"), b"/my disk/a b".to_vec());
    assert_eq!(strip_spaces_from_path(b"/x", b"/x/ /y z"), b"/x/yz".to_vec());
    let once = strip_spaces_from_path(b"/x", b"/x/a b/c");
    assert_eq!(strip_spaces_from_path(b"/x", &once), once);
    for (base, full) in [("", "/ a/b c"), ("", " ./x y"), ("/b", "/b/. ./ /q r"), (".", "./a b")] {
        let once = strip_spaces_from_path(base.as_bytes(), full.as_bytes());
        let twice = strip_spaces_from_path(base.as_bytes(), &once);
        assert_eq!(components_of(&twice), components_of(&once), "{:?} {:?}", base, full);
    }
}
