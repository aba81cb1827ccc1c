use phonto::paths::{extension, file_name, file_stem, join, parent};
use std::path::Path;

const SAMPLES: [&str; 22] = [
    "", "/", "a", "a/", "/a", "/a/", "a/b", "a//b", "a/./b", "a/.", "./a", ".", "..", "a/..",
    "a.mp4", "/x/a.tar.gz", ".hidden", "/x/.hidden", "a.", "/x/a.mp4/", "//", "a/b/../c.mov",
];

#[test]
fn parts_are_those_of_the_standard_library() {
    for p in SAMPLES {
        let path = Path::new(p);
        assert_eq!(file_name(p).as_deref(), path.file_name().and_then(|s| s.to_str()), "{p:?}");
        assert_eq!(file_stem(p).as_deref(), path.file_stem().and_then(|s| s.to_str()), "{p:?}");
        assert_eq!(
            extension(&p.as_bytes().to_vec()),
            path.extension().map(|e| e.as_encoded_bytes().to_vec()),
            "{p:?}"
        );
    }
}

#[test]
fn parents_are_those_of_the_standard_library() {
    for p in ["/", "a", "/a", "a/b", "/a/b", "/x/y/z.mp4", ""] {
        assert_eq!(parent(p).as_deref(), Path::new(p).parent().and_then(|s| s.to_str()), "{p:?}");
    }
}

#[test]
fn joins_as_the_standard_library_does() {
    for base in ["", "/home/u", "/home/u/", "rel"] {
        for rest in ["x", "x/y", "/abs", ""] {
            assert_eq!(join(base, rest), Path::new(base).join(rest).to_str().unwrap());
        }
    }
}

#[test]
fn extension_of_bytes_that_are_no_text() {
    assert_eq!(extension(&vec![b'a', b'.', 0xff]), Some(vec![0xff]));
    assert_eq!(extension(&vec![0xff]), None);
}
