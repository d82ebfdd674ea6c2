use purepath::{MockPath, Path, PathError, PathKind, PurePath};

#[test]
fn path_empty() {
    let path = MockPath::new("").unwrap();
    assert_eq!(path.to_str(), "");
}

#[test]
fn path_slash() {
    let path = MockPath::new("/").unwrap();
    assert_eq!(path.to_str(), "/");
}

#[test]
fn path_name() {
    let path = MockPath::new("dirname/filename").unwrap();
    assert_eq!(path.to_str(), "dirname/filename");
}

#[test]
fn mock_parses_an_absolute_path() {
    let path = MockPath::new("/usr/local/bin").unwrap();
    assert_eq!(path.parts(), vec!["/", "usr", "local", "bin"]);
    assert_eq!(path.drive(), None);
    assert_eq!(path.root(), Some("/"));
    assert_eq!(path.anchor(), Some("/"));
    assert_eq!(path.name(), Some("bin"));
    assert_eq!(path.suffix(), None);
    assert!(path.is_absolute());
    assert_eq!(path.as_uri().unwrap(), "file:///usr/local/bin");
    assert_eq!(path.bytes(), b"/usr/local/bin".to_vec());
}

#[test]
fn mock_parses_the_empty_text() {
    let path = MockPath::new("").unwrap();
    assert!(path.parts().is_empty());
    assert_eq!(path.anchor(), None);
    assert_eq!(path.drive(), None);
    assert_eq!(path.root(), None);
    assert_eq!(path.name(), None);
    assert_eq!(path.stem(), None);
    assert_eq!(path.parent(), None);
}

#[test]
fn mock_drops_empty_and_dot_segments() {
    let path = MockPath::new("/a//./b/../c").unwrap();
    assert_eq!(path.parts(), vec!["/", "a", "b", "..", "c"]);
    assert_eq!(path.name(), Some("c"));
    assert_eq!(path.to_str(), "/a//./b/../c");
}

#[test]
fn mock_suffixes() {
    let archive = MockPath::new("archive.tar.gz").unwrap();
    assert_eq!(archive.suffix(), Some(".gz"));
    assert_eq!(archive.suffixes(), vec![".tar", ".gz"]);
    assert_eq!(archive.stem(), Some("archive.tar"));
    let dotfile = MockPath::new(".bashrc").unwrap();
    assert_eq!(dotfile.suffix(), None);
    assert_eq!(dotfile.stem(), Some(".bashrc"));
}

#[test]
fn mock_parents() {
    let path = MockPath::new("/a/b/c").unwrap();
    assert_eq!(path.parents(), vec!["/a/b", "/a", "/"]);
    assert_eq!(path.parent(), Some("/a/b"));
    let all = path.parts();
    for (k, text) in path.parents().iter().enumerate() {
        assert_eq!(MockPath::new(text).unwrap().parts(), all[..all.len() - 1 - k].to_vec());
    }
}

#[test]
fn mock_relative_to() {
    let abc = MockPath::new("/a/b/c").unwrap();
    let ab = MockPath::new("/a/b").unwrap();
    let x = MockPath::new("/x").unwrap();
    let rel = abc.relative_to(&ab).unwrap();
    assert_eq!(rel.parts(), vec!["c"]);
    assert_eq!(rel.name(), Some("c"));
    assert_eq!(rel.anchor(), None);
    assert!(matches!(ab.relative_to(&x), Err(PathError::ValueError)));
    assert_eq!(ab.parts(), vec!["/", "a", "b"]);
    assert_eq!(x.parts(), vec!["/", "x"]);
}

#[test]
fn mock_transformations() {
    let joined = MockPath::new("/a/b").unwrap().join_path(&MockPath::new("/x/y").unwrap());
    assert_eq!(joined.to_str(), "/x/y");
    assert_eq!(joined.parents(), vec!["/x", "/"]);
    let zipped = MockPath::new("/d/archive.tar.gz").unwrap().with_suffix(".zip").unwrap();
    assert_eq!(zipped.name(), Some("archive.tar.zip"));
    let stemmed = MockPath::new("archive.tar.gz").unwrap().with_stem("x").unwrap();
    assert_eq!(stemmed.name(), Some("x.gz"));
}

#[test]
fn mock_empty_last_segment_is_no_name() {
    let path = MockPath::from_fields(
        "a/".to_string(),
        "".to_string(),
        "".to_string(),
        vec!["a".to_string(), "".to_string()],
    );
    assert_eq!(path.name(), None);
    assert_eq!(path.stem(), None);
    assert_eq!(path.suffix(), None);
    assert_eq!(path.parent(), None);
    assert!(matches!(path.with_name("b"), Err(PathError::ValueError)));
    assert!(matches!(path.with_suffix(".x"), Err(PathError::ValueError)));
}

#[test]
fn mock_refuses_nul() {
    assert!(matches!(MockPath::new("a\0"), Err(PathError::InvalidPath)));
}

#[test]
fn mock_from_fields_keeps_what_it_is_given() {
    let path = MockPath::from_fields(
        "text".to_string(),
        "".to_string(),
        "/".to_string(),
        vec!["x".to_string(), "y.tar.gz".to_string()],
    );
    assert_eq!(path.to_str(), "text");
    assert_eq!(path.parts(), vec!["/", "x", "y.tar.gz"]);
    assert_eq!(path.root(), Some("/"));
    assert_eq!(path.suffixes(), vec![".tar", ".gz"]);
    assert_eq!(path.parent(), Some("/x"));
    assert_eq!(path.parents(), vec!["/x", "/"]);
    assert!(path.is_absolute());
}

#[test]
fn facade_wraps_a_double() {
    let path = Path::mock(MockPath::new("some//where").unwrap());
    assert_eq!(path.kind(), PathKind::Double);
    assert_eq!(path.to_str(), "some//where");
    assert_eq!(path.parts(), vec!["some", "where"]);
    let joined = path.join_path(&Path::for_grammar(false, "baz").unwrap());
    assert_eq!(joined.to_str(), "some/where/baz");
    assert_eq!(joined.kind(), PathKind::Double);
}

#[test]
fn facade_kind_is_kept() {
    let win = Path::for_grammar(true, "C:\\a\\b.txt").unwrap();
    let posix = Path::for_grammar(false, "/x/y").unwrap();
    assert_eq!(win.kind(), PathKind::Windows);
    assert_eq!(posix.kind(), PathKind::Posix);
    assert_eq!(win.with_suffix(".md").unwrap().kind(), PathKind::Windows);
    assert_eq!(win.with_name("c").unwrap().kind(), PathKind::Windows);
    assert_eq!(posix.with_stem("z").unwrap().kind(), PathKind::Posix);
    assert_eq!(posix.relative_to(&posix).unwrap().kind(), PathKind::Posix);
    let other_wins = win.join_path(&posix);
    assert_eq!(other_wins.kind(), PathKind::Posix);
    assert_eq!(other_wins.to_str(), "/x/y");
    let rel = Path::for_grammar(false, "r/s").unwrap();
    let appended = win.join_path(&rel);
    assert_eq!(appended.kind(), PathKind::Windows);
    assert_eq!(appended.to_str(), "C:\\a\\b.txt\\r\\s");
    let here = Path::new("a").unwrap();
    assert_eq!(here.kind() == PathKind::Windows, std::path::is_separator('\\'));
}

#[test]
fn facade_by_grammar() {
    let win = Path::for_grammar(true, "C:\\Users\\x").unwrap();
    assert_eq!(win.drive(), Some("C:"));
    assert_eq!(win.parts(), vec!["C:\\", "Users", "x"]);
    let posix = Path::for_grammar(false, "C:\\Users\\x").unwrap();
    assert_eq!(posix.drive(), None);
    assert_eq!(posix.parts(), vec!["C:\\Users\\x"]);
    assert!(matches!(Path::for_grammar(true, "\0"), Err(PathError::InvalidPath)));
}

#[test]
fn facade_on_this_host() {
    let path = Path::new("usr/lib/libc.so.6").unwrap();
    assert_eq!(path.to_str(), "usr/lib/libc.so.6");
    assert_eq!(path.parts(), vec!["usr", "lib", "libc.so.6"]);
    assert_eq!(path.suffix(), Some(".6"));
    assert!(matches!(Path::new("a\0b"), Err(PathError::InvalidPath)));
    let rooted = Path::new("\\x").unwrap();
    if std::path::is_separator('\\') {
        assert_eq!(rooted.root(), Some("\\"));
    } else {
        assert_eq!(rooted.root(), None);
        assert_eq!(rooted.name(), Some("\\x"));
    }
}

#[test]
fn facade_clone_keeps_the_kind() {
    let win = Path::for_grammar(true, "C:/a").unwrap();
    let copy = win.clone();
    assert_eq!(copy.to_str(), "C:/a");
    assert_eq!(copy.join_path(&Path::for_grammar(true, "b").unwrap()).to_str(), "C:\\a\\b");
    let double = MockPath::new("m").unwrap();
    assert_eq!(double.clone().to_string(), "m");
}

#[test]
fn mock_parent_of_a_join_is_the_left_path() {
    for text in ["", "/", "a", "/a//b", "x/./y/"] {
        let left = MockPath::new(text).unwrap();
        let joined = left.join_path(&MockPath::new("leaf").unwrap());
        assert_eq!(joined.name(), Some("leaf"));
        let parent = joined.parent().unwrap_or("");
        assert_eq!(MockPath::new(parent).unwrap().parts(), left.parts());
    }
}
