use std::path::Path;
use swarm::paths::{file_name, join_path, parent, with_file_name};
use swarm::table::{TextMap, TextSet};
use swarm::text;

fn samples() -> Vec<String> {
    let pieces = ["", " ", "a", "\n", "\r\n", "b c", "\t", "/", ":", "\u{3000}", "é", "x/y", "-"];
    let mut out: Vec<String> = Vec::new();
    for a in pieces {
        for b in pieces {
            for c in pieces {
                out.push(format!("{a}{b}{c}"));
            }
        }
    }
    out
}

#[test]
fn white_space_is_that_of_unicode() {
    for n in 0..=0x10ffffu32 {
        if let Some(c) = char::from_u32(n) {
            assert_eq!(text::is_whitespace(c), c.is_whitespace(), "{n:x}");
        }
    }
}

#[test]
fn texts_are_taken_apart_as_usual() {
    for s in samples() {
        assert_eq!(text::trim(&s), s.trim(), "{s:?}");
        assert_eq!(
            text::lines(&s),
            s.lines().map(str::to_string).collect::<Vec<_>>(),
            "{s:?}"
        );
        assert_eq!(
            text::split(&s, '/'),
            s.split('/').map(str::to_string).collect::<Vec<_>>(),
            "{s:?}"
        );
        assert_eq!(
            text::split_whitespace(&s),
            s.split_whitespace().map(str::to_string).collect::<Vec<_>>(),
            "{s:?}"
        );
        assert_eq!(text::split_once(&s, ':'), s.split_once(':'), "{s:?}");
        assert_eq!(text::rsplit_once(&s, ':'), s.rsplit_once(':'), "{s:?}");
        assert_eq!(text::contains_char(&s, '/'), s.contains('/'), "{s:?}");
        assert_eq!(
            text::contains_whitespace(&s),
            s.chars().any(char::is_whitespace),
            "{s:?}"
        );
        assert_eq!(text::starts_with(&s, "a"), s.starts_with('a'), "{s:?}");
        assert_eq!(text::contains_text(&s, "b c"), s.contains("b c"), "{s:?}");
        assert_eq!(text::strip_prefix(&s, "x/"), s.strip_prefix("x/"), "{s:?}");
        assert_eq!(text::strip_suffix(&s, "/y"), s.strip_suffix("/y"), "{s:?}");
        assert_eq!(text::trim_matches(&s, '/'), s.trim_matches('/'), "{s:?}");
        assert_eq!(text::chars_of(&s), s.chars().collect::<Vec<_>>());
    }
}

#[test]
fn texts_are_compared_as_usual() {
    let all = samples();
    for a in all.iter().step_by(7) {
        for b in all.iter().step_by(11) {
            assert_eq!(text::same(a, b), a == b);
            assert_eq!(text::is_before(a, b), a < b, "{a:?} {b:?}");
        }
    }
}

#[test]
fn numbers_are_written_and_read() {
    for n in [0u64, 1, 9, 10, 99, 100, 12345, u64::MAX] {
        assert_eq!(text::decimal_text(n), n.to_string());
        assert_eq!(text::hex_text(n), format!("{n:x}"));
    }
    for n in [0i64, -1, 7, i64::MIN, i64::MAX] {
        assert_eq!(text::signed_text(n), n.to_string());
    }
    for s in ["", "0", "+5", "-5", "--5", "007", "9223372036854775807", "9223372036854775808", "x", " 1", "-", "+"] {
        assert_eq!(
            text::parse_integer(s, i64::MIN, i64::MAX),
            s.parse::<i64>().ok(),
            "{s:?}"
        );
        assert_eq!(
            text::parse_integer(s, i32::MIN as i64, i32::MAX as i64),
            s.parse::<i32>().ok().map(i64::from),
            "{s:?}"
        );
        assert_eq!(text::parse_natural(s, u32::MAX), s.parse::<u32>().ok(), "{s:?}");
    }
}

#[test]
fn texts_are_joined() {
    let parts = vec!["a".to_string(), "b".to_string(), "c".to_string()];
    assert_eq!(text::join(&parts, ", "), "a, b, c");
    assert_eq!(text::join(&vec![], ", "), "");
}

#[test]
fn paths_are_taken_apart_as_usual() {
    for path in [
        "/", "/a", "/a/", "a", "a/b", "/a/b/c", "a//b", "/a/b/", "a/..", "..", ".", "", "a/.", "//a",
    ] {
        let expected = Path::new(path);
        assert_eq!(
            file_name(path),
            expected.file_name().map(|n| n.to_str().unwrap().to_string()),
            "{path:?}"
        );
        assert_eq!(
            parent(path),
            expected.parent().map(|p| p.display().to_string()),
            "{path:?}"
        );
    }
    for (base, tail) in [("/a", "b"), ("/a/", "b"), ("/a", "/b"), ("", "b"), ("a", "b/c")] {
        assert_eq!(
            join_path(base, tail),
            Path::new(base).join(tail).display().to_string()
        );
    }
    for path in ["/usr/bin/swarm", "swarm", "/swarm"] {
        assert_eq!(
            with_file_name(path, "swarmctl"),
            Path::new(path).with_file_name("swarmctl").display().to_string()
        );
    }
}

#[test]
fn sets_and_maps_of_texts() {
    let mut set = TextSet::new();
    assert!(set.insert("a"));
    assert!(!set.insert("a"));
    assert!(set.insert("b"));
    assert_eq!(set.len(), 2);
    set.remove("a");
    assert!(!set.contains("a"));
    assert!(set.contains("b"));
    let mut map: TextMap<String> = TextMap::new();
    map.insert("k", "1".to_string());
    map.insert("k", "2".to_string());
    map.insert("l", "3".to_string());
    assert_eq!(map.get("k").map(String::as_str), Some("2"));
    assert_eq!(map.remove("k").as_deref(), Some("2"));
    assert!(map.get("k").is_none());
    assert!(map.remove("k").is_none());
    assert_eq!(map.get("l").map(String::as_str), Some("3"));
}
