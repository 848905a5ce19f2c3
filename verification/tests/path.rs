use kaku_tools::path::FilePath;
use std::path::Path;

/// Every text of up to `n` of the given characters.
fn texts(alphabet: &[char], n: usize) -> Vec<String> {
    let mut all = vec![String::new()];
    let mut last = all.clone();
    for _ in 0..n {
        let mut next = Vec::new();
        for s in &last {
            for c in alphabet {
                next.push(format!("{}{}", s, c));
            }
        }
        all.extend(next.iter().cloned());
        last = next;
    }
    all
}

#[test]
fn file_names_agree_with_the_standard_library() {
    for s in texts(&['a', '.', '/'], 7) {
        let expected = Path::new(&s)
            .file_name()
            .map(|n| n.to_string_lossy().into_owned().into_bytes());
        assert_eq!(FilePath::from_text(&s).file_name(), expected, "{:?}", s);
    }
}

#[test]
fn joining_agrees_with_the_standard_library() {
    for base in texts(&['a', '.', '/'], 4) {
        for name in texts(&['b', '/'], 3) {
            let expected = Path::new(&base).join(&name);
            assert_eq!(
                FilePath::from_text(&base).join(&name).display(),
                expected.to_str().unwrap(),
                "{:?} {:?}",
                base,
                name
            );
        }
    }
}

#[test]
fn joined_name_is_the_file_name() {
    for base in ["", "/", "foo", "woot/", "a/b/."] {
        let path = FilePath::from_text(base).join("bar");
        assert_eq!(path.file_name(), Some(b"bar".to_vec()));
    }
}

#[test]
fn a_copied_path_is_the_same_path() {
    let path = FilePath { bytes: vec![b'/', 0xfe, b'x'] };
    assert_eq!(path.clone().bytes, path.bytes);
    assert_eq!(FilePath::new().bytes, Vec::<u8>::new());
}

#[test]
fn very_long_names_are_found() {
    let name = "n".repeat(1_000_000);
    let path = FilePath::from_text(&format!("/dir/{}", name));
    assert_eq!(path.file_name(), Some(name.into_bytes()));
}
