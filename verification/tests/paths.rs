use std::path::Path;

use rgit::paths::{component_key, extension, file_name, join, syntax_token};

const PATHS: [&str; 40] = [
    "", "/", ".", "..", "...", "a", "a/", "a//", "/a", "a/.", "a/./", "./.", "/.", "a/..", "../a",
    "a//b", "a/b.rs", "b.tar.gz", ".gitignore", "x/.gitignore", ".a.b", "foo.", "x/foo./", "a.b/c",
    "a.b/..", "a.b/./.", "..a", "a..", "a..b", "..../x", "Makefile", "src/Makefile/", "./a.txt",
    "/..", "/../x.y", " ", "a/ ", "\u{e9}.\u{e8}", "dir.d/\u{4e2d}\u{6587}", "x.md/README",
];

#[test]
fn file_names_are_those_of_std() {
    for path in PATHS {
        let expected = Path::new(path).file_name().map(|name| name.to_str().unwrap().as_bytes());
        assert_eq!(file_name(path.as_bytes()), expected, "{path:?}");
    }
}

#[test]
fn extensions_are_those_of_std() {
    for path in PATHS {
        let expected = Path::new(path).extension().map(|name| name.to_str().unwrap().as_bytes());
        assert_eq!(extension(path.as_bytes()), expected, "{path:?}");
    }
}

#[test]
fn joins_are_those_of_std() {
    for path in PATHS {
        for name in PATHS {
            let whole = Path::new(path).join(name);
            let expected = whole.to_str().unwrap().as_bytes();
            assert_eq!(join(path.as_bytes(), name.as_bytes()), expected, "{path:?} {name:?}");
        }
    }
}

#[test]
fn token_is_extension_then_name_then_nothing() {
    assert_eq!(syntax_token(b"src/main.rs"), "rs");
    assert_eq!(syntax_token(b"src/Makefile"), "Makefile");
    assert_eq!(syntax_token(b".bashrc"), ".bashrc");
    assert_eq!(syntax_token(b"foo."), "");
    assert_eq!(syntax_token(b"a/.."), "");
    assert_eq!(syntax_token(b""), "");
}

#[test]
fn token_replaces_what_is_not_utf8() {
    assert_eq!(syntax_token(b"a.r\xffs"), "r\u{fffd}s");
    assert_eq!(syntax_token(b"dir/\xc3"), "\u{fffd}");
}

#[test]
fn bytes_that_are_not_utf8_are_kept() {
    assert_eq!(file_name(b"a/\xff.\xfe"), Some(&b"\xff.\xfe"[..]));
    assert_eq!(extension(b"a/\xff.\xfe"), Some(&b"\xfe"[..]));
    assert_eq!(join(b"\xff", b"\xfe"), b"\xff/\xfe");
}

#[test]
fn joined_component_is_file_name() {
    for path in PATHS {
        let whole = join(path.as_bytes(), b"lib.rs");
        assert_eq!(file_name(&whole), Some(&b"lib.rs"[..]));
        assert_eq!(syntax_token(&whole), "rs");
    }
}

#[test]
fn keys_are_equal_where_paths_of_std_are() {
    for a in PATHS {
        for b in PATHS {
            assert_eq!(
                component_key(a.as_bytes()) == component_key(b.as_bytes()),
                Path::new(a) == Path::new(b),
                "{a:?} {b:?}"
            );
        }
    }
}

#[test]
fn key_is_the_shortest_way_to_write_a_path() {
    assert_eq!(component_key(b"//srv/./git//a.git/."), b"/srv/git/a.git");
    assert_eq!(component_key(b"./a/../b/"), b"./a/../b");
    assert_eq!(component_key(b"/."), b"/");
    assert_eq!(component_key(b"././"), b".");
    assert_eq!(component_key(b""), b"");
    for path in PATHS {
        let key = component_key(path.as_bytes());
        assert_eq!(component_key(&key), key);
        assert!(Path::new(std::str::from_utf8(&key).unwrap()) == Path::new(path));
    }
}
