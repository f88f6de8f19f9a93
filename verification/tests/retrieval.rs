use filedrop::error::ServiceError;
use filedrop::path::{build_local_path, file_stem};
use filedrop::retrieve::{lookup_result, resolve_request, Lookup};

#[test]
fn bare_segment_is_the_stored_name() {
    assert_eq!(
        resolve_request("abcd.txt", None),
        Some("uploads/abcd.txt".to_string())
    );
    assert_eq!(resolve_request("abcd", None), Some("uploads/abcd".to_string()));
}

#[test]
fn second_segment_lends_its_extension() {
    assert_eq!(
        resolve_request("abcd", Some("notes.txt")),
        Some("uploads/abcd.txt".to_string())
    );
    assert_eq!(
        resolve_request("abcd", Some("anything else.txt")),
        Some("uploads/abcd.txt".to_string())
    );
    assert_eq!(
        resolve_request("abcd", Some("archive.tar.gz")),
        Some("uploads/abcd.gz".to_string())
    );
}

#[test]
fn second_segment_without_extension_lends_the_fallback() {
    assert_eq!(
        resolve_request("abcd", Some("README")),
        Some("uploads/abcd.bin".to_string())
    );
    assert_eq!(
        resolve_request("abcd", Some("")),
        Some("uploads/abcd.bin".to_string())
    );
    assert_eq!(
        resolve_request("abcd", Some("a.b/c")),
        Some("uploads/abcd.bin".to_string())
    );
    assert_eq!(
        resolve_request("abcd", Some("dir/")),
        Some("uploads/abcd.bin".to_string())
    );
}

#[test]
fn second_segment_that_begins_with_its_dot_lends_what_follows() {
    assert_eq!(
        resolve_request("abcd", Some(".bashrc")),
        Some("uploads/abcd.bashrc".to_string())
    );
    assert_eq!(
        resolve_request("abcd", Some(".txt")),
        Some("uploads/abcd.txt".to_string())
    );
    assert_eq!(
        resolve_request("abcd", Some(".txt")),
        resolve_request("abcd.txt", None)
    );
}

#[test]
fn second_segment_that_ends_in_a_dot_lends_the_empty_extension() {
    assert_eq!(
        resolve_request("abcd", Some("trailing.")),
        Some("uploads/abcd".to_string())
    );
}

#[test]
fn extension_case_is_kept() {
    assert_eq!(
        resolve_request("abcd", Some("A.TXT")),
        Some("uploads/abcd.TXT".to_string())
    );
    assert_ne!(
        resolve_request("abcd", Some("a.TXT")),
        resolve_request("abcd", Some("a.txt"))
    );
}

#[test]
fn request_cannot_leave_the_upload_directory() {
    assert_eq!(resolve_request("..", None), None);
    assert_eq!(resolve_request("..", Some("a.txt")), None);
    assert_eq!(resolve_request(".", None), None);
    assert_eq!(resolve_request("", None), None);
    assert_eq!(resolve_request("", Some("a.txt")), None);
    assert_eq!(resolve_request("../secret", None), None);
    assert_eq!(resolve_request("a/b", Some("c.d")), None);
    assert_eq!(resolve_request("/etc/passwd", None), None);
    assert_eq!(resolve_request("ab\u{0}cd", None), None);
    assert_eq!(resolve_request("abcd", Some("x.t\u{0}t")), None);
}

#[test]
fn traversal_in_the_second_segment_is_ignored() {
    assert_eq!(
        resolve_request("abcd", Some("../../etc/passwd")),
        Some("uploads/abcd.bin".to_string())
    );
    assert_eq!(
        resolve_request("abcd", Some("x./../../etc/shadow.b")),
        Some("uploads/abcd.b".to_string())
    );
}

const FILE_NAMES: [&str; 24] = [
    "", ".", "..", "...", "a", "a.txt", "a.tar.gz", ".bashrc", ".txt", "a.", "a..", "dir/",
    "dir/x.md", "dir/.md", "a.b/c", "x/..", "x/.", "NOTES.TXT", "README", "notes.txt",
    "photo.JPG", "trailing.", "r\u{e9}sum\u{e9}.pdf", "a b.c d",
];

#[test]
fn request_rebuilds_the_path_of_the_upload() {
    for name in FILE_NAMES {
        assert_eq!(
            resolve_request("Ab3d", Some(name)),
            Some(build_local_path("Ab3d", name)),
            "name {:?}",
            name
        );
    }
}

#[test]
fn request_rebuilds_the_path_of_the_upload_for_every_short_name() {
    let mut names = vec![String::new()];
    let mut last = vec![String::new()];
    for _ in 0..7 {
        let mut next = Vec::new();
        for stem in &last {
            for c in ['a', '.', '/'] {
                next.push(format!("{}{}", stem, c));
            }
        }
        names.extend(next.iter().cloned());
        last = next;
    }
    for name in names {
        assert_eq!(
            resolve_request("Ab3d", Some(&name)),
            Some(build_local_path("Ab3d", &name)),
            "name {:?}",
            name
        );
    }
}

#[test]
fn one_segment_and_two_segments_resolve_alike() {
    for name in ["x.txt", ".txt", "some other name.txt", "dir/y.txt", "a.b.txt"] {
        assert_eq!(
            resolve_request("abcd", Some(name)),
            resolve_request("abcd.txt", None),
            "name {:?}",
            name
        );
    }
}

#[test]
fn absent_file_is_not_found() {
    assert_eq!(lookup_result(Lookup::Absent), Err(ServiceError::NotFound));
    assert_eq!(ServiceError::NotFound.status_code(), 404);
}

#[test]
fn found_and_failed_lookups() {
    assert_eq!(lookup_result(Lookup::Found), Ok(()));
    assert_eq!(lookup_result(Lookup::Failed), Err(ServiceError::IoError));
}

#[test]
fn extension_of_the_second_segment_replaces_that_of_the_first() {
    assert_eq!(
        resolve_request("abcd.txt", Some("x.png")),
        Some("uploads/abcd.png".to_string())
    );
    assert_eq!(
        resolve_request("abcd.tar.gz", Some("x.zip")),
        Some("uploads/abcd.tar.zip".to_string())
    );
    assert_eq!(
        resolve_request("abcd.txt", Some("trailing.")),
        Some("uploads/abcd".to_string())
    );
    assert_eq!(
        resolve_request("abcd.txt", Some("README")),
        Some("uploads/abcd.bin".to_string())
    );
    assert_eq!(
        resolve_request(".hidden", Some("x.png")),
        Some("uploads/.png".to_string())
    );
    assert_eq!(resolve_request(".hidden", Some("trailing.")), None);
}

#[test]
fn stems() {
    assert_eq!(file_stem("abcd"), "abcd");
    assert_eq!(file_stem("abcd.txt"), "abcd");
    assert_eq!(file_stem("a.tar.gz"), "a.tar");
    assert_eq!(file_stem(".hidden"), "");
    assert_eq!(file_stem("trailing."), "trailing");
    assert_eq!(file_stem(""), "");
    assert_eq!(file_stem("..x"), ".");
}

#[test]
fn stem_and_extension_make_the_name_again() {
    for name in ["abcd.txt", "a.tar.gz", ".hidden", "trailing.", "..x", "x..y", "a b.c"] {
        let stem = file_stem(name);
        let ext = filedrop::path::file_extension(name).unwrap();
        assert_eq!(format!("{}.{}", stem, ext), name);
    }
    assert_eq!(file_stem("nodot"), "nodot");
    assert_eq!(filedrop::path::file_extension("nodot"), None);
}

#[test]
fn request_follows_the_rule_on_any_plain_first_segment() {
    let ids = ["Ab3d", "abcd.txt", "a.b.c", ".hidden", "trailing.", "..x", "a b", "...", "x..y"];
    for id in ids {
        for name in FILE_NAMES {
            let stem = match id.rsplit_once('.') {
                Some((stem, _)) => stem,
                None => id,
            };
            let component = std::path::Path::new(name)
                .file_name()
                .map(|c| c.to_str().unwrap());
            let ext = match component.and_then(|c| c.rsplit_once('.')) {
                Some((_, ext)) => ext,
                None => "bin",
            };
            let wanted = if ext.is_empty() {
                stem.to_string()
            } else {
                format!("{}.{}", stem, ext)
            };
            let expected = if wanted.is_empty() || wanted == "." || wanted == ".." {
                None
            } else {
                Some(format!("uploads/{}", wanted))
            };
            assert_eq!(
                resolve_request(id, Some(name)),
                expected,
                "id {:?}, name {:?}",
                id,
                name
            );
        }
    }
}
