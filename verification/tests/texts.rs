use renri::order::{is_before, path_is_before, sort_paths};
use renri::{paths, strings};

#[test]
fn lines_are_those_of_std() {
    for s in ["", "\n", "a", "a\n", "a\r\nb", "a\r", "\r\n\r\n", "a\n\nb\n", "x\r\r\n"] {
        let std: Vec<&str> = s.lines().collect();
        assert_eq!(strings::lines(s), std, "{s:?}");
    }
}

#[test]
fn trimming_is_that_of_std() {
    for s in ["", " ", " a ", "\u{3000}a\u{2003}b\u{85}", "\u{200b}x", "\ta\n\r\u{b}"] {
        assert_eq!(strings::trim(s), s.trim(), "{s:?}");
        assert_eq!(strings::trim_start(s), s.trim_start(), "{s:?}");
        assert_eq!(strings::trim_end(s), s.trim_end(), "{s:?}");
    }
}

#[test]
fn white_space_is_that_of_std() {
    for n in 0..0x11_0000u32 {
        if let Some(c) = char::from_u32(n) {
            assert_eq!(strings::is_white(c), c.is_whitespace(), "{n:x}");
        }
    }
}

#[test]
fn searching_is_that_of_std() {
    for (s, p) in [("aab", "ab"), ("", ""), ("abc", ""), ("abc", "d"), ("ab", "abc"), ("日本", "本")] {
        assert_eq!(strings::contains(s, p), s.contains(p));
        assert_eq!(strings::starts_with(s, p), s.starts_with(p));
        assert_eq!(strings::ends_with(s, p), s.ends_with(p));
        assert_eq!(strings::strip_prefix(s, p), s.strip_prefix(p));
        assert_eq!(strings::strip_suffix(s, p), s.strip_suffix(p));
    }
    assert_eq!(strings::find("日本語", "語"), Some(2));
    assert_eq!(strings::first_word("  a\tb"), "a");
    assert_eq!(strings::first_word(" \n"), "");
}

#[test]
fn pieces_are_those_of_std() {
    for s in ["", "a", "a/b", "/a//b/", "///"] {
        let std: Vec<&str> = s.split('/').collect();
        assert_eq!(strings::split(s, '/'), std);
        let three: Vec<&str> = s.splitn(3, '/').collect();
        assert_eq!(strings::split_n(s, '/', 3), three);
    }
    assert_eq!(strings::replace_char("a/b/", '/', "--"), "a--b--");
    assert_eq!(
        strings::join(&vec!["a".to_string(), "b".to_string()], ", "),
        "a, b"
    );
}

#[test]
fn numbers_and_padding_are_those_of_format() {
    for n in [0, 7, 10, 99, 100, 12345, u64::MAX] {
        assert_eq!(strings::decimal(n), format!("{n}"));
    }
    assert_eq!(strings::pad_end("ab", 4), format!("{:4}", "ab"));
    assert_eq!(strings::pad_start("ab", 4), format!("{:>4}", "ab"));
    assert_eq!(strings::pad_end("abcde", 4), "abcde");
}

#[test]
fn paths_are_read_as_std_reads_them() {
    let samples = [
        "", "/", ".", "..", "a", "/a", "a/", "a/b", "/a/b/", "a//b", "a/./b", "./a", "./.", "/.",
        "/./a", "a/..", "/..", "//", "a/b/.", ".a/b", "/a/b/../c",
    ];
    for s in samples {
        let p = std::path::Path::new(s);
        let name = p.file_name().and_then(|n| n.to_str()).map(String::from);
        assert_eq!(paths::base_name(s, false), name, "name of {s:?}");
        let parent = p.parent().and_then(|n| n.to_str()).map(String::from);
        assert_eq!(paths::parent_of(s, false), parent, "parent of {s:?}");
        assert_eq!(paths::absolute(s, false), p.is_absolute());
        let parts: Vec<String> = p
            .components()
            .map(|c| c.as_os_str().to_str().unwrap().to_string())
            .collect();
        assert_eq!(paths::split_texts(s, false), parts, "components of {s:?}");
        for t in samples {
            let q = std::path::Path::new(t);
            assert_eq!(paths::joined(s, t, false), p.join(q).to_str().unwrap(), "{s:?} + {t:?}");
            assert_eq!(paths::same(s, t, false), p == q, "{s:?} == {t:?}");
            assert_eq!(path_is_before(s, t, false), p < q, "{s:?} < {t:?}");
        }
    }
}

/// All texts of up to `n` of these characters.
fn all_texts(n: usize) -> Vec<String> {
    let mut all = vec![String::new()];
    let mut from = 0;
    for _ in 0..n {
        let to = all.len();
        for i in from..to {
            for c in ['/', '.', 'a', '\\'] {
                all.push(format!("{}{c}", all[i]));
            }
        }
        from = to;
    }
    all
}

#[test]
fn all_short_paths_are_read_as_std_reads_them() {
    for s in all_texts(7) {
        let p = std::path::Path::new(&s);
        let name = p.file_name().and_then(|n| n.to_str()).map(String::from);
        assert_eq!(paths::base_name(&s, false), name, "name of {s:?}");
        let parent = p.parent().and_then(|n| n.to_str()).map(String::from);
        assert_eq!(paths::parent_of(&s, false), parent, "parent of {s:?}");
        assert_eq!(paths::absolute(&s, false), p.is_absolute(), "{s:?}");
        let parts: Vec<String> = p
            .components()
            .map(|c| c.as_os_str().to_str().unwrap().to_string())
            .collect();
        assert_eq!(paths::split_texts(&s, false), parts, "components of {s:?}");
    }
    let short = all_texts(4);
    for s in &short {
        let p = std::path::Path::new(s);
        for t in &short {
            let q = std::path::Path::new(t);
            assert_eq!(paths::joined(s, t, false), p.join(q).to_str().unwrap(), "{s:?} + {t:?}");
            assert_eq!(paths::same(s, t, false), p == q, "{s:?} == {t:?}");
            assert_eq!(path_is_before(s, t, false), p < q, "{s:?} < {t:?}");
        }
    }
}

#[test]
fn texts_are_ordered_as_std_orders_them() {
    let samples = ["", "a", "b", "ab", "日", "\u{10000}", "\u{ffff}", "A"];
    for s in samples {
        for t in samples {
            assert_eq!(is_before(s, t), s < t, "{s:?} < {t:?}");
        }
    }
}

#[test]
fn sorting_keeps_all_paths() {
    let v: Vec<String> = ["b", "a/b", "a", "a-b", "b"].iter().map(|s| s.to_string()).collect();
    assert_eq!(sort_paths(&v, false), vec!["a", "a/b", "a-b", "b", "b"]);
}

#[test]
fn joining_is_undone_by_taking_apart() {
    for (p, n) in [("/", "x"), ("/a/b", ".git"), ("rel", "...")] {
        let s = paths::joined(p, n, false);
        assert_eq!(paths::parent_of(&s, false).as_deref(), Some(p));
        assert_eq!(paths::base_name(&s, false).as_deref(), Some(n));
    }
}
