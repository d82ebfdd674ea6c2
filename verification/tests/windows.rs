use purepath::{Components, PathError, PurePath, PureWindowsPath};

fn win(s: &str) -> PureWindowsPath {
    PureWindowsPath::new(s).unwrap()
}

#[test]
fn windows_drive_and_root() {
    let p = win("C:\\Users\\x");
    assert_eq!(p.drive(), Some("C:"));
    assert_eq!(p.root(), Some("\\"));
    assert_eq!(p.anchor(), Some("C:\\"));
    assert_eq!(p.parts(), vec!["C:\\", "Users", "x"]);
    assert!(!p.is_reserved());
    assert!(p.is_absolute());
    assert_eq!(p.to_str(), "C:\\Users\\x");
}

#[test]
fn windows_reserved_names() {
    assert!(win("C:\\CON.txt").is_reserved());
    assert_eq!(win("C:\\CON.txt").name(), Some("CON.txt"));
    assert!(win("con").is_reserved());
    assert!(win("dir/Prn").is_reserved());
    assert!(win("aux.tar.gz").is_reserved());
    assert!(win("NUL").is_reserved());
    assert!(win("com1").is_reserved());
    assert!(win("COM9.log").is_reserved());
    assert!(win("lpt5").is_reserved());
    assert!(!win("COM0").is_reserved());
    assert!(!win("COM10").is_reserved());
    assert!(!win("LPT").is_reserved());
    assert!(!win("CONSOLE").is_reserved());
    assert!(!win("C:\\").is_reserved());
    assert!(!win("con\\file").is_reserved());
}

#[test]
fn windows_names_are_not_reserved_under_posix() {
    let p = Components::parse("CON", false).unwrap();
    assert!(!p.is_reserved());
    let q = Components::parse("CON", true).unwrap();
    assert!(q.is_reserved());
}

#[test]
fn windows_both_separators_split() {
    let p = win("C:/Users\\x//y\\.\\z");
    assert_eq!(p.parts(), vec!["C:\\", "Users", "x", "y", "z"]);
    assert_eq!(p.root(), Some("\\"));
    assert_eq!(p.parent(), Some("C:\\Users\\x\\y"));
    assert_eq!(p.parents(), vec!["C:\\Users\\x\\y", "C:\\Users\\x", "C:\\Users", "C:\\"]);
}

#[test]
fn windows_share_is_the_drive() {
    let p = win("\\\\server\\share\\dir\\f.txt");
    assert_eq!(p.drive(), Some("\\\\server\\share"));
    assert_eq!(p.root(), Some("\\"));
    assert_eq!(p.parts(), vec!["\\\\server\\share\\", "dir", "f.txt"]);
    assert!(p.is_absolute());
    let q = win("//server/share");
    assert_eq!(q.drive(), Some("\\\\server\\share"));
    assert_eq!(q.root(), None);
    assert_eq!(q.parts(), vec!["\\\\server\\share"]);
    let r = win("\\\\server");
    assert_eq!(r.drive(), None);
    assert_eq!(r.root(), Some("\\"));
    assert_eq!(r.parts(), vec!["\\", "server"]);
}

#[test]
fn windows_absolute_needs_a_drive() {
    assert!(!win("\\Users").is_absolute());
    assert_eq!(win("\\Users").root(), Some("\\"));
    assert_eq!(win("\\Users").drive(), None);
    assert!(win("C:\\").is_absolute());
    assert!(win("C:x").is_absolute());
    assert_eq!(win("C:x").root(), None);
    assert_eq!(win("C:x").parts(), vec!["C:", "x"]);
    assert!(!win("x\\y").is_absolute());
    assert!(!win("").is_absolute());
    assert_eq!(win("1:\\x").drive(), None);
}

#[test]
fn windows_compares_without_case() {
    assert!(win("C:\\Users\\X\\f").is_relative_to(&win("c:\\users\\x")));
    let r = win("C:\\Users\\X\\f").relative_to(&win("c:/USERS")).unwrap();
    assert_eq!(r.parts(), vec!["X", "f"]);
    assert_eq!(r.to_str(), "X\\f");
    assert!(matches!(win("C:\\a").relative_to(&win("D:\\a")), Err(PathError::ValueError)));
    assert!(win("C:\\Foo\\BAR.TXT").match_expr("*.txt"));
    assert!(win("C:\\Foo\\BAR.TXT").match_expr("foo/[A-C]ar.t?t"));
}

#[test]
fn windows_join_renders_with_backslash() {
    let j = win("C:/a").join_path(&win("b/c"));
    assert_eq!(j.to_str(), "C:\\a\\b\\c");
    let k = win("C:/a").join_path(&win("\\b"));
    assert_eq!(k.to_str(), "C:\\a\\b");
    let l = win("C:/a").join_path(&win("D:\\b"));
    assert_eq!(l.to_str(), "D:\\b");
}

#[test]
fn windows_with_name_refuses_either_separator() {
    assert!(matches!(win("a\\b").with_name("x/y"), Err(PathError::ValueError)));
    assert!(matches!(win("a\\b").with_name("x\\y"), Err(PathError::ValueError)));
    assert!(matches!(win("a\\b.txt").with_suffix(".\\x"), Err(PathError::ValueError)));
    assert_eq!(win("a/b.txt").with_suffix(".md").unwrap().to_str(), "a\\b.md");
}

#[test]
fn windows_as_uri() {
    assert_eq!(win("C:\\Users\\my file").as_uri().unwrap(), "file:///C:/Users/my%20file");
    assert!(matches!(win("\\Users").as_uri(), Err(PathError::ValueError)));
}

#[test]
fn windows_text_round_trips() {
    for s in ["", "C:", "C:\\", "c:/x//y", "\\\\srv\\sh\\a", "a\\.\\b"] {
        assert_eq!(win(s).to_str(), s);
    }
    assert!(matches!(PureWindowsPath::new("C:\\a\0"), Err(PathError::InvalidPath)));
}

#[test]
fn windows_normal_text_names_the_same_path() {
    for s in ["C:/a//b", "c:x\\.\\y", "\\a/b", "a/b\\c", "C:", "C:\\"] {
        let p = win(s);
        let normal = p.join_path(&win(""));
        let again = win(normal.to_str());
        assert_eq!(again.parts(), p.parts());
        assert_eq!(again.drive(), p.drive());
        assert_eq!(again.root(), p.root());
    }
    assert_eq!(win("C:/a//b").join_path(&win("")).to_str(), "C:\\a\\b");
}

#[test]
fn windows_first_segment_may_read_as_a_drive() {
    let p = win("./C:");
    assert_eq!(p.drive(), None);
    assert_eq!(p.parts(), vec!["C:"]);
    let normal = p.join_path(&win(""));
    assert_eq!(normal.to_str(), "C:");
    assert_eq!(win(normal.to_str()).drive(), Some("C:"));
}

#[test]
fn windows_share_normal_text_names_the_same_path() {
    let p = win("//srv/share/x//y");
    let normal = p.join_path(&win(""));
    assert_eq!(normal.to_str(), "\\\\srv\\share\\x\\y");
    let again = win(normal.to_str());
    assert_eq!(again.drive(), Some("\\\\srv\\share"));
    assert_eq!(again.parts(), p.parts());
    assert_eq!(p.parents(), vec!["\\\\srv\\share\\x", "\\\\srv\\share\\"]);
}

#[test]
fn windows_relative_to_leaves_the_anchor_out() {
    let r = win("C:\\a\\b").relative_to(&win("")).unwrap();
    assert_eq!(r.parts(), vec!["a", "b"]);
    assert_eq!(r.drive(), None);
    let s = win("C:\\a\\b").relative_to(&win("c:/")).unwrap();
    assert_eq!(s.parts(), vec!["a", "b"]);
    assert_eq!(s.to_str(), "a\\b");
}
