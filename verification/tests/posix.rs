use purepath::{PathError, PurePath, PurePosixPath};

fn posix(s: &str) -> PurePosixPath {
    PurePosixPath::new(s).unwrap()
}

#[test]
fn posix_absolute_path_decomposes() {
    let p = posix("/usr/local/bin");
    assert_eq!(p.root(), Some("/"));
    assert_eq!(p.drive(), None);
    assert_eq!(p.anchor(), Some("/"));
    assert_eq!(p.parts(), vec!["/", "usr", "local", "bin"]);
    assert_eq!(p.name(), Some("bin"));
    assert_eq!(p.suffix(), None);
    assert_eq!(p.stem(), Some("bin"));
    assert!(p.is_absolute());
    assert!(!p.is_reserved());
}

#[test]
fn posix_suffixes_of_an_archive() {
    let p = posix("archive.tar.gz");
    assert_eq!(p.suffixes(), vec![".tar", ".gz"]);
    assert_eq!(p.stem(), Some("archive.tar"));
    assert_eq!(p.suffix(), Some(".gz"));
    assert_eq!(p.name(), Some("archive.tar.gz"));
    assert!(!p.is_absolute());
}

#[test]
fn posix_text_round_trips() {
    for s in ["", "/", "//", "a//b/./c/", "./x", "..", "a b/ç.txt", "C:\\x"] {
        assert_eq!(posix(s).to_str(), s);
    }
}

#[test]
fn posix_bytes_are_utf8() {
    assert_eq!(posix("é/a").bytes(), vec![0xC3, 0xA9, b'/', b'a']);
    assert_eq!(posix("").bytes(), Vec::<u8>::new());
}

#[test]
fn posix_nul_is_refused() {
    assert!(matches!(PurePosixPath::new("a\0b"), Err(PathError::InvalidPath)));
    assert!(matches!(PurePosixPath::new("\0"), Err(PathError::InvalidPath)));
}

#[test]
fn posix_empty_path() {
    let p = posix("");
    assert_eq!(p.to_str(), "");
    assert_eq!(p.anchor(), None);
    assert_eq!(p.parts(), Vec::<&str>::new());
    assert_eq!(p.name(), None);
    assert_eq!(p.stem(), None);
    assert_eq!(p.suffix(), None);
    assert_eq!(p.suffixes(), Vec::<&str>::new());
    assert_eq!(p.parent(), None);
    assert_eq!(p.parents(), Vec::<&str>::new());
    assert!(!p.is_absolute());
}

#[test]
fn posix_drops_empty_and_dot_segments() {
    let p = posix("a/./b/../c//d/");
    assert_eq!(p.parts(), vec!["a", "b", "..", "c", "d"]);
    assert_eq!(p.name(), Some("d"));
    let q = posix("///x/.");
    assert_eq!(q.parts(), vec!["/", "x"]);
    assert_eq!(posix(".").parts(), Vec::<&str>::new());
    assert_eq!(posix("...").parts(), vec!["..."]);
}

#[test]
fn posix_root_only() {
    let p = posix("/");
    assert_eq!(p.parts(), vec!["/"]);
    assert_eq!(p.name(), None);
    assert_eq!(p.parents(), Vec::<&str>::new());
    assert!(p.is_absolute());
}

#[test]
fn posix_backslash_is_no_separator() {
    let p = posix("a\\b/c");
    assert_eq!(p.parts(), vec!["a\\b", "c"]);
}

#[test]
fn posix_dotfile_has_no_suffix() {
    let p = posix("/home/u/.bashrc");
    assert_eq!(p.suffix(), None);
    assert_eq!(p.stem(), Some(".bashrc"));
    assert_eq!(p.suffixes(), Vec::<&str>::new());
    let q = posix(".config.bak");
    assert_eq!(q.suffix(), Some(".bak"));
    assert_eq!(q.stem(), Some(".config"));
    assert_eq!(q.suffixes(), vec![".bak"]);
}

#[test]
fn posix_trailing_dot_is_a_suffix() {
    let p = posix("name.");
    assert_eq!(p.suffix(), Some("."));
    assert_eq!(p.stem(), Some("name"));
}

#[test]
fn posix_parents_run_down_to_the_anchor() {
    let p = posix("/usr/local/bin");
    assert_eq!(p.parents(), vec!["/usr/local", "/usr", "/"]);
    assert_eq!(p.parent(), Some("/usr/local"));
    let q = posix("a//b/c");
    assert_eq!(q.parents(), vec!["a/b", "a", ""]);
    assert_eq!(q.parent(), Some("a/b"));
    assert_eq!(posix("x").parent(), None);
    assert_eq!(posix("x").parents(), vec![""]);
    assert_eq!(posix("/x").parent(), Some("/"));
}

#[test]
fn posix_join_appends_relative_operand() {
    let p = posix("/a//b");
    let q = posix("c/./d");
    let j = p.join_path(&q);
    assert_eq!(j.to_str(), "/a/b/c/d");
    assert_eq!(j.parts(), vec!["/", "a", "b", "c", "d"]);
    assert!(j.is_relative_to(&p));
    let e = p.join_path(&posix(""));
    assert_eq!(e.parts(), p.parts());
    assert_eq!(posix("").join_path(&posix("x")).to_str(), "x");
}

#[test]
fn posix_join_absolute_operand_wins() {
    let p = posix("/a/b");
    let q = posix("/etc//passwd");
    let j = p.join_path(&q);
    assert_eq!(j.to_str(), "/etc//passwd");
    assert_eq!(j.parts(), vec!["/", "etc", "passwd"]);
}

#[test]
fn posix_relative_to_strips_the_prefix() {
    let r = posix("/a/b/c").relative_to(&posix("/a/b")).unwrap();
    assert_eq!(r.parts(), vec!["c"]);
    assert_eq!(r.to_str(), "c");
    assert_eq!(r.anchor(), None);
    assert!(matches!(posix("/a/b").relative_to(&posix("/x")), Err(PathError::ValueError)));
    assert!(matches!(posix("/a").relative_to(&posix("/a/b")), Err(PathError::ValueError)));
    let same = posix("/a/b").relative_to(&posix("/a/b")).unwrap();
    assert_eq!(same.parts(), Vec::<&str>::new());
    assert_eq!(same.to_str(), "");
}

#[test]
fn posix_is_relative_to_compares_with_case() {
    assert!(posix("/a/b/c").is_relative_to(&posix("/a/b")));
    assert!(posix("/a/b/c").is_relative_to(&posix("/a/b/c")));
    assert!(!posix("/a/b/c").is_relative_to(&posix("/A/b")));
    assert!(!posix("/a/b").is_relative_to(&posix("a")));
    assert!(posix("a/b").is_relative_to(&posix("")));
}

#[test]
fn posix_relative_to_undoes_join() {
    let p = posix("/srv/data");
    let q = posix("x/../y.txt");
    let j = p.join_path(&q);
    let back = p.join_path(&j.relative_to(&p).unwrap());
    assert_eq!(back.to_str(), j.to_str());
    assert_eq!(back.parts(), j.parts());
    assert_eq!(j.relative_to(&p).unwrap().parts(), q.parts());
}

#[test]
fn posix_with_name() {
    assert_eq!(posix("/a/b.txt").with_name("c.md").unwrap().to_str(), "/a/c.md");
    assert_eq!(posix("a//b").with_name("c").unwrap().parts(), vec!["a", "c"]);
    assert!(matches!(posix("/").with_name("x"), Err(PathError::ValueError)));
    assert!(matches!(posix("").with_name("x"), Err(PathError::ValueError)));
    assert!(matches!(posix("/a/b").with_name("x/y"), Err(PathError::ValueError)));
    assert_eq!(posix("/a/b").with_name("x\\y").unwrap().to_str(), "/a/x\\y");
}

#[test]
fn posix_with_stem() {
    assert_eq!(posix("/a/b.tar.gz").with_stem("c").unwrap().to_str(), "/a/c.gz");
    assert_eq!(posix("b").with_stem("c").unwrap().to_str(), "c");
    assert!(matches!(posix("/").with_stem("c"), Err(PathError::ValueError)));
    assert!(matches!(posix("a.txt").with_stem("c/d"), Err(PathError::ValueError)));
}

#[test]
fn posix_with_suffix() {
    assert_eq!(posix("/a/b.txt").with_suffix(".md").unwrap().to_str(), "/a/b.md");
    assert_eq!(posix("/a/b.tar.gz").with_suffix(".xz").unwrap().to_str(), "/a/b.tar.xz");
    assert_eq!(posix("/a/b.txt").with_suffix("").unwrap().to_str(), "/a/b");
    assert_eq!(posix("/a/b").with_suffix(".rs").unwrap().to_str(), "/a/b.rs");
    assert!(matches!(posix("/a/b.txt").with_suffix("md"), Err(PathError::ValueError)));
    assert!(matches!(posix("/a/b.txt").with_suffix("./md"), Err(PathError::ValueError)));
    assert!(matches!(posix("/").with_suffix(".md"), Err(PathError::ValueError)));
}

#[test]
fn posix_current_suffix_and_stem_change_nothing() {
    for s in ["/a/b.txt", "x.tar.gz", "plain", "/r/.hidden", "a//b/./c.d"] {
        let p = posix(s);
        let again = p.with_suffix(p.suffix().unwrap_or("")).unwrap();
        assert_eq!(again.parts(), p.parts());
        let twice = again.with_suffix(again.suffix().unwrap_or("")).unwrap();
        assert_eq!(twice.to_str(), again.to_str());
        let stemmed = p.with_stem(p.stem().unwrap()).unwrap();
        assert_eq!(stemmed.parts(), p.parts());
        let stemmed_twice = stemmed.with_stem(stemmed.stem().unwrap()).unwrap();
        assert_eq!(stemmed_twice.to_str(), stemmed.to_str());
    }
}

#[test]
fn posix_match_expr() {
    let p = posix("/a/b/c.py");
    assert!(p.match_expr("*.py"));
    assert!(p.match_expr("b/*.py"));
    assert!(!p.match_expr("a/*.py"));
    assert!(p.match_expr("/a/b/*.py"));
    assert!(!p.match_expr("/*.py"));
    assert!(!p.match_expr("/b/c.py"));
    assert!(p.match_expr("?.py"));
    assert!(!p.match_expr("??.py"));
    assert!(p.match_expr("[a-c].py"));
    assert!(!p.match_expr("[!a-c].py"));
    assert!(p.match_expr("[xyc].p[y]"));
    assert!(!p.match_expr("C.PY"));
    assert!(p.match_expr("*"));
    assert!(p.match_expr("*/*/*"));
    assert!(!p.match_expr("*/*/*/*"));
    assert!(p.match_expr("/*/*/*"));
    assert!(!p.match_expr("*/*/*/*/*"));
    assert!(p.match_expr("c.*"));
    assert!(p.match_expr("*c*.*p*y*"));
}

#[test]
fn posix_match_expr_brackets() {
    assert!(posix("a[b").match_expr("a[b"));
    assert!(posix("a]").match_expr("a[]]"));
    assert!(!posix("ab").match_expr("a[]]"));
    assert!(posix("a-").match_expr("a[a-]"));
    assert!(posix("x").match_expr("[!]]"));
}

#[test]
fn posix_as_uri() {
    assert_eq!(posix("/usr/local/bin").as_uri().unwrap(), "file:///usr/local/bin");
    assert_eq!(posix("/my dir/a#b.txt").as_uri().unwrap(), "file:///my%20dir/a%23b.txt");
    assert_eq!(posix("/é").as_uri().unwrap(), "file:///%C3%A9");
    assert_eq!(posix("/a-b_c.d~e:f").as_uri().unwrap(), "file:///a-b_c.d~e:f");
    assert_eq!(posix("/").as_uri().unwrap(), "file:///");
    assert_eq!(posix("//x//y/").as_uri().unwrap(), "file:///x/y");
    assert!(matches!(posix("a/b").as_uri(), Err(PathError::ValueError)));
    assert!(matches!(posix("").as_uri(), Err(PathError::ValueError)));
}

#[test]
fn posix_normal_text_names_the_same_path() {
    for s in ["", "/", "a", "/a", "a//b/./c/", "///x/../y", "./.a.b", "a b/ç"] {
        let p = posix(s);
        let normal = p.join_path(&posix(""));
        let again = posix(normal.to_str());
        assert_eq!(again.parts(), p.parts());
        assert_eq!(again.root(), p.root());
        assert_eq!(again.to_str(), normal.to_str());
    }
    assert_eq!(posix("a//b/./c/").join_path(&posix("")).to_str(), "a/b/c");
    assert_eq!(posix("///x/../y").join_path(&posix("")).to_str(), "/x/../y");
}

#[test]
fn posix_each_ancestor_has_one_part_less() {
    let p = posix("/a/b//c/d.txt");
    let all = p.parts();
    let parents = p.parents();
    assert_eq!(parents.len(), 4);
    for (k, text) in parents.iter().enumerate() {
        let ancestor = posix(text);
        assert_eq!(ancestor.parts(), all[..all.len() - 1 - k].to_vec());
    }
}

#[test]
fn posix_relative_to_the_empty_path_leaves_the_anchor_out() {
    let r = posix("/a/b").relative_to(&posix("")).unwrap();
    assert_eq!(r.anchor(), None);
    assert_eq!(r.parts(), vec!["a", "b"]);
    assert_eq!(r.to_str(), "a/b");
    assert!(!r.is_absolute());
    assert_eq!(posix(r.to_str()).parts(), r.parts());
    let root = posix("/a/b").relative_to(&posix("/")).unwrap();
    assert_eq!(root.parts(), vec!["a", "b"]);
}

#[test]
fn posix_clone_is_the_same_path() {
    let p = posix("/a//b.txt");
    let q = p.clone();
    assert_eq!(q.to_str(), p.to_str());
    assert_eq!(q.parts(), p.parts());
    assert!(format!("{:?}", q).contains("b.txt"));
}
