use msm::order;
use msm::paths;
use msm::slug;
use msm::text;
use std::path::Path;

fn strings(v: &[&str]) -> Vec<String> {
    v.iter().map(|s| s.to_string()).collect()
}

#[test]
fn white_space_is_that_of_unicode() {
    for c in '\0'..=char::MAX {
        assert_eq!(text::white(c), c.is_whitespace(), "{:?}", c);
    }
}

#[test]
fn trimming_drops_white_space_around() {
    assert_eq!(text::trim(" \t a b\u{a0}\r\n"), "a b");
    assert_eq!(text::trim("\u{3000}"), "");
    assert!(text::is_blank(" \n\t"));
    assert!(text::is_blank(""));
    assert!(!text::is_blank(" x "));
}

#[test]
fn searching_finds_parts() {
    assert!(text::contains("hello world", "lo w"));
    assert!(text::contains("abc", ""));
    assert!(!text::contains("abc", "abcd"));
    assert!(text::starts_with("world_nether", "world"));
    assert!(!text::starts_with("wor", "world"));
    assert_eq!(text::strip_prefix("VmRSS: 1", "VmRSS:"), Some(" 1".to_string()));
    assert_eq!(text::strip_prefix("x", "VmRSS:"), None);
    assert_eq!(text::strip_suffix("a.tar.zst", ".tar.zst"), Some("a".to_string()));
    assert_eq!(text::strip_suffix("a.tar", ".tar.zst"), None);
    assert_eq!(
        text::split_once("a=b=c", "="),
        Some(("a".to_string(), "b=c".to_string()))
    );
    assert_eq!(text::split_once("abc", "="), None);
}

#[test]
fn splitting_agrees_with_std() {
    for s in ["", "a", "a.b", ".a.", "1.20.4", "21.0.3-tem", "..", "-.-"] {
        let two: Vec<String> = s.split(['.', '-']).map(|x| x.to_string()).collect();
        assert_eq!(text::split(s, '.', '-'), two);
        let one: Vec<String> = s.split('.').map(|x| x.to_string()).collect();
        assert_eq!(text::split(s, '.', '.'), one);
    }
}

#[test]
fn lines_agree_with_std() {
    for s in ["", "\n", "a", "a\n", "a\nb", "a\r\nb\r\n", "\r", "a\r", "\n\n", "a\n\r\nb"] {
        let lines: Vec<String> = s.lines().map(|x| x.to_string()).collect();
        assert_eq!(text::lines(s), lines, "{:?}", s);
    }
}

#[test]
fn words_agree_with_std() {
    for s in ["", " ", "a", " a  b ", "0 4 * * *", "0 0 4 * * *", "\ta\u{a0}b"] {
        assert_eq!(text::count_words(s), s.split_whitespace().count(), "{:?}", s);
        assert_eq!(
            text::first_word(s),
            s.split_whitespace().next().map(|w| w.to_string()),
            "{:?}",
            s
        );
    }
}

#[test]
fn numbers_agree_with_std() {
    for s in ["", "0", "+7", "-7", "007", "4294967295", "4294967296", "1a", " 1", "+", "++1"] {
        assert_eq!(
            text::parse_uint(s, u32::MAX as u64),
            s.parse::<u32>().ok().map(|n| n as u64),
            "{:?}",
            s
        );
    }
    assert_eq!(text::parse_uint("18446744073709551615", u64::MAX), Some(u64::MAX));
    assert_eq!(text::parse_uint("18446744073709551616", u64::MAX), None);
    assert_eq!(text::decimal(0), "0");
    assert_eq!(text::decimal(u64::MAX), "18446744073709551615");
    assert_eq!(text::signed_decimal(-1), "-1");
    assert_eq!(text::signed_decimal(i32::MIN), "-2147483648");
    assert_eq!(text::signed_decimal(137), "137");
    assert_eq!(text::two_digit(7), "07");
    assert_eq!(text::two_digit(42), "42");
    assert_eq!(text::two_digit(123), "123");
}

#[test]
fn characters_are_stripped_from_the_ends() {
    assert_eq!(text::strip_front("///a/", '/'), "a/");
    assert_eq!(text::strip_back("/a///", '/'), "/a");
    assert_eq!(text::strip_back("///", '/'), "");
}

#[test]
fn ascii_case_does_not_count() {
    assert!(text::eq_ignore_ascii_case("Steve", "sTEVE"));
    assert!(!text::eq_ignore_ascii_case("Steve", "Steven"));
    assert!(!text::eq_ignore_ascii_case("Ä", "ä"));
}

#[test]
fn texts_are_sorted_as_std_sorts_them() {
    let all = strings(&["b", "a", "", "ab", "B", "ä", "😀", "\u{ffff}", "a"]);
    let mut expected = all.clone();
    expected.sort();
    assert_eq!(order::sort_texts(all), expected);
    assert!(text::le("a", "a"));
    assert!(text::le("a", "ab"));
    assert!(!text::le("b", "ab"));
}

#[test]
fn joining_puts_separators_between() {
    assert_eq!(text::join(&strings(&[]), ", "), "");
    assert_eq!(text::join(&strings(&["a"]), ", "), "a");
    assert_eq!(text::join(&strings(&["a", "b", ""]), ", "), "a, b, ");
}

#[test]
fn slugs_are_lower_case_words() {
    assert_eq!(slug::slugify("My Server!"), "my-server");
    assert_eq!(slug::slugify("--a--b--"), "a-b");
    assert_eq!(slug::slugify("   "), "");
    assert_eq!(slug::slugify("ÄÖ 1"), "äö-1");
    assert_eq!(slug::slugify("İ"), "i");
    assert_eq!(slug::ascii_slugify("My Server!"), "my-server");
    assert_eq!(slug::ascii_slugify("ÄÖ 1"), "ÄÖ-1");
    assert_eq!(slug::ascii_slugify("a-b"), "a-b");
}

#[test]
fn slugs_of_slugs_stay() {
    for s in ["My Server", "a--b", "x_y.z", "Größe 10"] {
        let once = slug::slugify(s);
        assert_eq!(slug::slugify(&once), once);
        assert!(once.split('-').all(|p| !p.is_empty()));
        let ascii = slug::ascii_slugify(s);
        assert_eq!(slug::ascii_slugify(&ascii), ascii);
    }
}

#[test]
fn paths_agree_with_std() {
    let all = [
        "", "/", "a", "/a", "a/b", "a/b/", "a//b", "./a", "a/.", "a/..", "..", ".", "/..", "a/./b",
        "/usr/bin/java", "java", ".hidden", "x.jar", "x.tar.zst", "dir.d/x", "x.", "..jar",
    ];
    for p in all {
        let path = Path::new(p);
        assert_eq!(
            paths::file_name(p),
            path.file_name().map(|n| n.to_string_lossy().to_string()),
            "name of {:?}",
            p
        );
        assert_eq!(
            paths::parent(p).map(|x| Path::new(&x).to_path_buf()),
            path.parent().map(|x| x.to_path_buf()),
            "parent of {:?}",
            p
        );
        assert_eq!(paths::is_absolute(p), path.is_absolute(), "{:?}", p);
        for ext in ["jar", "zst", "hidden", ""] {
            assert_eq!(
                paths::has_extension(p, ext),
                path.extension().and_then(|e| e.to_str()) == Some(ext),
                "extension of {:?}",
                p
            );
        }
        for q in all {
            assert_eq!(
                paths::join(p, q),
                path.join(q).to_string_lossy().to_string(),
                "{:?} and {:?}",
                p,
                q
            );
            assert_eq!(
                paths::is_under(p, q),
                path.starts_with(q),
                "{:?} under {:?}",
                p,
                q
            );
            assert_eq!(paths::same_path(p, q), path == Path::new(q), "{:?} is {:?}", p, q);
        }
    }
}

#[test]
fn joined_paths_stay_below() {
    assert!(paths::is_under(&paths::join("/srv/mc", "mods/a.jar"), "/srv/mc"));
    assert!(!paths::is_under(&paths::join("/srv/mc", "/etc/passwd"), "/srv/mc"));
}

#[test]
fn ascii_names_have_one_slug() {
    for name in ["My Server!", "--a--B--", "", " . ", "x_1", "A1-b2"] {
        let s = slug::slugify(name);
        assert_eq!(s, slug::ascii_slugify(name));
        assert_eq!(slug::slugify(&s), s);
        assert!(s.chars().all(|c| c.is_ascii_lowercase() || c.is_ascii_digit() || c == '-'));
        assert!(!s.starts_with('-') && !s.ends_with('-') && !s.contains("--"));
    }
    assert_eq!(slug::slugify(" . "), "");
}

#[test]
fn paths_that_leave_are_not_inside() {
    assert!(paths::is_inside("/srv/a/mods/x.jar", "/srv/a"));
    assert!(paths::is_inside("/srv/a", "/srv/a"));
    assert!(paths::is_inside("/srv/../a/b", "/srv/../a"));
    assert!(!paths::is_inside("/srv/a/../b", "/srv/a"));
    assert!(paths::is_inside("/srv/a/x/..", "/srv/a"));
    assert!(paths::is_inside("s/a/../b", "s"));
    assert!(!paths::is_inside("s/a/../../b", "s"));
    assert!(!paths::is_inside("./../b", "."));
    assert!(!paths::is_inside("../../b", ".."));
    assert!(paths::is_inside("../b", ".."));
    assert!(paths::is_inside("/../../b", "/"));
    assert!(!paths::is_inside("/srv/b/../a/x", "/srv/a"));
    assert!(paths::stays_below("/srv/b/../a/x", "/srv/a"));
    assert!(!paths::is_inside("/srv/b", "/srv/a"));
    assert!(!paths::is_inside("srv/a", "/srv/a"));
}
