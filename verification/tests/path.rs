use lib::path::{absolute, is_separator, Component, FilesystemError, Path, PathBuf, MAIN_SEPARATOR};

#[test]
fn separator_is_slash() {
    assert!(is_separator('/'));
    assert!(!is_separator('❤'));
    assert_eq!(MAIN_SEPARATOR, '/');
}

#[test]
fn components_of_absolute_path() {
    let path = Path::new("/tmp/foo/bar.txt");
    let mut it = path.components();
    let mut got = Vec::new();
    while let Some(c) = it.next() {
        got.push(c);
    }
    assert_eq!(
        got,
        vec![
            Component::RootDir,
            Component::Normal("tmp"),
            Component::Normal("foo"),
            Component::Normal("bar.txt"),
        ]
    );
}

#[test]
fn component_as_str() {
    let path = Path::new("./tmp/foo/bar.txt");
    let mut it = path.components();
    let mut got = Vec::new();
    while let Some(c) = it.next() {
        got.push(c.as_str());
    }
    assert_eq!(got, vec![".", "tmp", "foo", "bar.txt"]);
}

#[test]
fn components_skip_empty_and_dot_pieces() {
    let path = Path::new("a//b/./c/..//");
    let mut it = path.components();
    let mut got = Vec::new();
    while let Some(c) = it.next() {
        got.push(c);
    }
    assert_eq!(
        got,
        vec![
            Component::Normal("a"),
            Component::Normal("b"),
            Component::Normal("c"),
            Component::ParentDir,
        ]
    );
}

#[test]
fn components_from_the_back() {
    let path = Path::new("/a/b/../c");
    let mut it = path.components();
    let mut got = Vec::new();
    while let Some(c) = it.next_back() {
        got.push(c);
    }
    assert_eq!(
        got,
        vec![
            Component::Normal("c"),
            Component::ParentDir,
            Component::Normal("b"),
            Component::Normal("a"),
            Component::RootDir,
        ]
    );
}

#[test]
fn components_as_path_after_two() {
    let mut components = Path::new("/tmp/foo/bar.txt").components();
    components.next();
    components.next();
    assert_eq!(Path::new("foo/bar.txt"), components.as_path());
}

#[test]
fn iter_as_path_after_two() {
    let mut iter = Path::new("/tmp/foo/bar.txt").iter();
    assert_eq!(iter.next(), Some("/"));
    assert_eq!(iter.next(), Some("tmp"));
    assert_eq!(Path::new("foo/bar.txt"), iter.as_path());
    assert_eq!(iter.next_back(), Some("bar.txt"));
}

#[test]
fn parent_stem_and_extension() {
    let path = Path::new("./foo/bar.txt");
    assert_eq!(path.parent(), Some(Path::new("./foo")));
    assert_eq!(path.file_stem(), Some("bar"));
    assert_eq!(path.extension(), Some("txt"));
    assert_eq!(path.file_name(), Some("bar.txt"));
}

#[test]
fn parent_of_root_and_empty() {
    assert_eq!(Path::new("/").parent(), None);
    assert_eq!(Path::new("").parent(), None);
    assert_eq!(Path::new("foo").parent(), Some(Path::new("")));
    assert_eq!(Path::new("/foo").parent(), Some(Path::new("/")));
}

#[test]
fn stems_and_extensions_of_dotted_names() {
    assert_eq!(Path::new(".hidden").file_stem(), Some(".hidden"));
    assert_eq!(Path::new(".hidden").extension(), None);
    assert_eq!(Path::new("a.tar.gz").file_stem(), Some("a.tar"));
    assert_eq!(Path::new("a.tar.gz").extension(), Some("gz"));
    assert_eq!(Path::new("a/..").file_name(), None);
    assert_eq!(Path::new("a/..").file_stem(), None);
    assert_eq!(Path::new("noext").extension(), None);
}

#[test]
fn absolute_and_relative() {
    assert!(Path::new("/etc").is_absolute());
    assert!(Path::new("/etc").has_root());
    assert!(!Path::new("/etc").is_relative());
    assert!(Path::new("etc").is_relative());
    assert!(!Path::new("").is_absolute());
}

#[test]
fn push_relative_extends() {
    let mut path = PathBuf::from_str_slice("/tmp");
    path.push("file.bk");
    assert_eq!(path, PathBuf::from_str_slice("/tmp/file.bk"));
    assert_eq!(path.as_str(), "/tmp/file.bk");
}

#[test]
fn push_absolute_replaces() {
    let mut path = PathBuf::from_str_slice("/tmp");
    path.push("/etc");
    assert_eq!(path, PathBuf::from_str_slice("/etc"));
}

#[test]
fn push_builds_a_path() {
    let mut path = PathBuf::new();
    path.push("/");
    path.push("feel");
    path.push("the");
    assert!(path.set_extension("force"));
    assert_eq!(path.as_str(), "/feel/the.force");
}

#[test]
fn push_after_trailing_separator() {
    let mut path = PathBuf::from_str_slice("a/");
    path.push("b");
    assert_eq!(path.as_str(), "a/b");
}

#[test]
fn pop_to_parent() {
    let mut p = PathBuf::from_str_slice("/test/test.rs");
    assert!(p.pop());
    assert_eq!(Path::new("/test"), p.as_path());
    assert!(p.pop());
    assert_eq!(Path::new("/"), p.as_path());
    assert!(!p.pop());
    assert_eq!(p.as_str(), "/");
}

#[test]
fn set_file_name_examples() {
    let mut buf = PathBuf::from_str_slice("/");
    assert!(buf.as_path().file_name() == None);
    buf.set_file_name("bar");
    assert!(buf == PathBuf::from_str_slice("/bar"));
    assert!(buf.as_path().file_name().is_some());
    buf.set_file_name("baz.txt");
    assert!(buf == PathBuf::from_str_slice("/baz.txt"));
}

#[test]
fn set_extension_examples() {
    let mut p = PathBuf::from_str_slice("/feel/the");
    p.set_extension("force");
    assert_eq!(Path::new("/feel/the.force"), p.as_path());
    p.set_extension("dark_side");
    assert_eq!(Path::new("/feel/the.dark_side"), p.as_path());
    p.set_extension("");
    assert_eq!(p.as_str(), "/feel/the");
}

#[test]
fn set_extension_without_file_name() {
    let mut p = PathBuf::from_str_slice("/");
    assert!(!p.set_extension("txt"));
    assert_eq!(p.as_str(), "/");
}

#[test]
fn with_file_name_and_extension() {
    let p = Path::new("/a/b.txt");
    assert_eq!(p.with_file_name("c.rs").as_str(), "/a/c.rs");
    assert_eq!(p.with_extension("md").as_str(), "/a/b.md");
    assert_eq!(p.join("c").as_str(), "/a/b.txt/c");
}

#[test]
fn is_empty_examples() {
    let p = PathBuf::from_str_slice("/test");
    assert_eq!(false, p.is_empty());
    let p = PathBuf::new();
    assert_eq!(true, p.is_empty());
    let p: PathBuf = Default::default();
    assert!(p.is_empty());
}

#[test]
fn as_path_example() {
    let p = PathBuf::from_str_slice("/test");
    assert_eq!(Path::new("/test"), p.as_path());
    assert_eq!(PathBuf::from_string(String::from("/x")).into_string(), "/x");
}

#[test]
fn equality_is_by_components() {
    assert_eq!(Path::new("/a//b/"), Path::new("/a/b"));
    assert_eq!(Path::new("a/./b"), Path::new("a/b"));
    assert_ne!(Path::new("a/../b"), Path::new("b"));
    assert_ne!(Path::new("./a"), Path::new("a"));
    assert_eq!(Path::new("foo.txt").to_path_buf(), PathBuf::from_str_slice("foo.txt"));
}

#[test]
fn strip_prefix_examples() {
    let path = Path::new("/test/haha/foo.txt");
    assert_eq!(path.strip_prefix("/"), Ok(Path::new("test/haha/foo.txt")));
    assert_eq!(path.strip_prefix("/test"), Ok(Path::new("haha/foo.txt")));
    assert_eq!(path.strip_prefix("/test/"), Ok(Path::new("haha/foo.txt")));
    assert_eq!(path.strip_prefix("/test/haha/foo.txt"), Ok(Path::new("")));
    assert_eq!(path.strip_prefix("/test/haha/foo.txt/"), Ok(Path::new("")));
    assert!(path.strip_prefix("test").is_err());
    assert!(path.strip_prefix("/haha").is_err());
}

#[test]
fn starts_with_whole_components() {
    let path = Path::new("/etc/passwd");
    assert!(path.starts_with("/etc"));
    assert!(path.starts_with("/etc/"));
    assert!(path.starts_with("/etc/passwd"));
    assert!(path.starts_with("/etc/passwd/"));
    assert!(path.starts_with("/etc//passwd"));
    assert!(!path.starts_with("/e"));
    assert!(!path.starts_with("/etc/passwd.txt"));
    assert!(!Path::new("/etc/foo.rs").starts_with("/etc/foo"));
}

#[test]
fn ends_with_whole_components() {
    let path = Path::new("/etc/resolv.conf");
    assert!(path.ends_with("resolv.conf"));
    assert!(path.ends_with("etc/resolv.conf"));
    assert!(path.ends_with("/etc/resolv.conf"));
    assert!(!path.ends_with("/resolv.conf"));
    assert!(!path.ends_with("conf"));
}

#[test]
fn ancestors_walk_up() {
    let mut ancestors = Path::new("/foo/bar").ancestors();
    assert_eq!(ancestors.next(), Some(Path::new("/foo/bar")));
    assert_eq!(ancestors.next(), Some(Path::new("/foo")));
    assert_eq!(ancestors.next(), Some(Path::new("/")));
    assert_eq!(ancestors.next(), None);
    assert_eq!(ancestors.next(), None);
}

#[test]
fn absolute_resolves_against_cwd() {
    let p = absolute("foo/./bar/../baz", "/home").unwrap();
    assert_eq!(p.as_str(), "/home/foo/baz");
    let p = absolute("/already/there", "/home").unwrap();
    assert_eq!(p.as_str(), "/already/there");
    let p = Path::new("..").absolute("/a/b").unwrap();
    assert_eq!(p.as_str(), "/a");
    let p = PathBuf::from_str_slice("x").absolute("/").unwrap();
    assert_eq!(p.as_str(), "/x");
}

#[test]
fn absolute_of_empty_path_is_an_error() {
    assert_eq!(absolute("", "/home").err(), Some(FilesystemError::EmptyPath));
}

#[test]
fn capacity_and_reserve_keep_the_path() {
    let mut path = PathBuf::with_capacity(10);
    assert!(path.capacity() >= 10);
    path.push("/");
    path.reserve(5);
    path.reserve_exact(5);
    path.shrink_to_fit();
    assert_eq!(path.as_str(), "/");
    path.clear();
    assert!(path.is_empty());
}

#[test]
fn parent_has_all_components_but_the_last() {
    let path = Path::new("/a/b//c/");
    let parent = path.parent().unwrap();
    assert_eq!(parent, Path::new("/a/b"));
    let mut pc = parent.components();
    let mut n = 0;
    while pc.next().is_some() {
        n += 1;
    }
    assert_eq!(n, 3);
}

#[test]
fn stripped_rest_joined_back_gives_the_path() {
    let path = Path::new("/a/b/c.txt");
    let rest = path.strip_prefix("/a").unwrap();
    assert_eq!(Path::new("/a").join(rest.as_str()).as_path(), path);
    let rest = Path::new("./x/y").strip_prefix(".").unwrap();
    assert_eq!(rest, Path::new("x/y"));
    assert_eq!(Path::new(".").join(rest.as_str()).as_path(), Path::new("./x/y"));
}

#[test]
fn join_of_relative_drops_leading_dot() {
    assert_eq!(Path::new("a").join("./b").as_path(), Path::new("a/b"));
    assert_eq!(Path::new("a").join("./b").as_str(), "a/./b");
    assert_eq!(Path::new("").join("./b").as_str(), "./b");
}

#[test]
fn stem_dot_extension_is_the_file_name() {
    let p = Path::new("dir/archive.tar.gz");
    let joined = format!("{}.{}", p.file_stem().unwrap(), p.extension().unwrap());
    assert_eq!(Some(joined.as_str()), p.file_name());
}

#[test]
fn extend_and_from_parts() {
    let p = PathBuf::from_parts(&["/", "feel", "the.force"]);
    assert_eq!(p.as_str(), "/feel/the.force");
    let mut q = PathBuf::from_str_slice("a");
    q.extend(&["b", "/c", "d"]);
    assert_eq!(q.as_str(), "/c/d");
    let r: PathBuf = "x/y".parse().unwrap();
    assert_eq!(r.to_string(), "x/y");
    assert_eq!(Path::new("z").to_string(), "z");
}

#[test]
fn strip_prefix_error_message() {
    let e = Path::new("/a").strip_prefix("/b").unwrap_err();
    assert_eq!(e.to_string(), "prefix not found");
}

#[test]
fn paths_order_by_components() {
    assert_eq!(Path::new("/a").cmp(&Path::new("/b")), std::cmp::Ordering::Less);
    assert_eq!(Path::new("/a/b").cmp(&Path::new("/a")), std::cmp::Ordering::Greater);
    assert_eq!(Path::new("/a//b").cmp(&Path::new("/a/b")), std::cmp::Ordering::Equal);
    // the root comes before `.`, `.` before `..`, `..` before normal components
    assert!(Path::new("/") < Path::new("."));
    assert!(Path::new(".") < Path::new(".."));
    assert!(Path::new("..") < Path::new("a"));
    assert!(PathBuf::from_str_slice("a/b") < PathBuf::from_str_slice("a/c"));
    assert_eq!(
        PathBuf::from_str_slice("ab").cmp(&PathBuf::from_str_slice("a")),
        std::cmp::Ordering::Greater
    );
}

#[test]
fn pop_undoes_push() {
    let mut p = PathBuf::from_str_slice("/a/b/");
    p.push("c.txt");
    assert_eq!(p.as_str(), "/a/b/c.txt");
    assert!(p.pop());
    assert_eq!(p, PathBuf::from_str_slice("/a/b/"));
}

#[test]
fn components_read_from_both_ends_once() {
    let path = Path::new("/a/./b/../c/d.txt");
    let all: Vec<Component> = {
        let mut it = path.components();
        let mut v = Vec::new();
        while let Some(c) = it.next() {
            v.push(c);
        }
        v
    };
    assert_eq!(all.len(), 6);
    // every interleaving of five or more steps over six components reads each once
    for pattern in 0u32..(1 << 8) {
        let mut it = path.components();
        let mut front = Vec::new();
        let mut back = Vec::new();
        let mut results = Vec::new();
        for step in 0..8 {
            let from_back = pattern & (1 << step) != 0;
            let r = if from_back { it.next_back() } else { it.next() };
            results.push(r.is_some());
            if let Some(c) = r {
                if from_back { back.push(c) } else { front.push(c) }
            }
        }
        back.reverse();
        front.extend(back);
        assert_eq!(front, all);
        assert_eq!(results, vec![true, true, true, true, true, true, false, false]);
    }
}

#[test]
fn ancestors_of_relative_path() {
    let mut ancestors = Path::new("foo/bar").ancestors();
    assert_eq!(ancestors.next(), Some(Path::new("foo/bar")));
    assert_eq!(ancestors.next(), Some(Path::new("foo")));
    assert_eq!(ancestors.next(), Some(Path::new("")));
    assert_eq!(ancestors.next(), None);
    assert_eq!(ancestors.next(), None);
}

#[test]
fn set_empty_extension_keeps_the_stem() {
    let mut p = PathBuf::from_str_slice("dir/a.tar.gz");
    assert!(p.set_extension(""));
    assert_eq!(p.as_str(), "dir/a.tar");
    assert_eq!(p.as_path().file_name(), Some("a.tar"));
    assert_eq!(p.as_path().extension(), Some("tar"));
    assert_eq!(p.as_path().parent(), Some(Path::new("dir")));
}
