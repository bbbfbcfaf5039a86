use my_sync::clock::{is_remote_newer, last_modified_instant, last_run_due_at, now_string, Timestamp};
use my_sync::config::generate_client_id;
use my_sync::ops::conflict_copy_name;
use my_sync::digest::digest_of;
use my_sync::paths::{
    collection_chain, join_remote_segments, join_remote_segments_with_client, normalize_segments,
    relative_remote_path,
};
use my_sync::text::{
    blank, decimal_string, parse_u64, signed_decimal_string, to_ascii_lower, to_forward_slashes,
    trim, trim_class, CharClass,
};
use my_sync::listing::{listing_entries, ListingResponse};
use my_sync::urls::{build_url_with_segments, extract_href_path, percent_encode_str, plain_file_url, EncodeSet};

const SEGMENT_SET: &percent_encoding::AsciiSet = &percent_encoding::CONTROLS
    .add(b' ')
    .add(b'"')
    .add(b'#')
    .add(b'%')
    .add(b'<')
    .add(b'>')
    .add(b'?')
    .add(b'`')
    .add(b'{')
    .add(b'}');

fn strings(items: &[&str]) -> Vec<String> {
    items.iter().map(|s| s.to_string()).collect()
}

#[test]
fn decimal_rendering() {
    assert_eq!(decimal_string(0), "0");
    assert_eq!(decimal_string(1234), "1234");
    assert_eq!(decimal_string(u64::MAX), "18446744073709551615");
    assert_eq!(signed_decimal_string(-42), "-42");
    assert_eq!(signed_decimal_string(7), "7");
    assert_eq!(signed_decimal_string(i64::MIN), "-9223372036854775808");
}

#[test]
fn parse_u64_follows_str_parse() {
    assert_eq!(parse_u64("42"), Some(42));
    assert_eq!(parse_u64("+7"), Some(7));
    assert_eq!(parse_u64("007"), Some(7));
    assert_eq!(parse_u64("18446744073709551615"), Some(u64::MAX));
    assert_eq!(parse_u64("18446744073709551616"), None);
    assert_eq!(parse_u64(""), None);
    assert_eq!(parse_u64("+"), None);
    assert_eq!(parse_u64("12a"), None);
    assert_eq!(parse_u64(" 1"), None);
    assert_eq!(parse_u64("-1"), None);
    for text in ["0", "12", "+3", "x", "", "99999999999999999999"] {
        assert_eq!(parse_u64(text), text.parse::<u64>().ok());
    }
}

#[test]
fn trimming_and_case() {
    assert_eq!(trim("  a b \t\n"), "a b");
    assert_eq!(trim("\u{3000}x\u{a0}"), "x");
    assert!(blank("  \n"));
    assert!(!blank(" x "));
    assert_eq!(to_forward_slashes("a\\b\\c"), "a/b/c");
    assert_eq!(to_ascii_lower("LoCaL"), "local");
    assert_eq!(trim_class("//a/b//", CharClass::Exactly('/')), "a/b");
    for text in [" a ", "\tb\n", "c", "  "] {
        assert_eq!(trim(text), text.trim());
    }
}

#[test]
fn sha256_digests() {
    let abc = "ba7816bf8f01cfea414140de5dae2223b00361a396177a9cb410ff61f20015ad";
    let empty = "e3b0c44298fc1c149afbf4c8996fb92427ae41e4649b934ca495991b7852b855";
    assert_eq!(digest_of(&Some(b"abc".to_vec())), Some(abc.to_string()));
    assert_eq!(digest_of(&Some(Vec::new())), Some(empty.to_string()));
    assert_eq!(digest_of(&None), None);
}

#[test]
fn segments_of_paths() {
    assert_eq!(normalize_segments("/a//b\\c/./d/"), strings(&["a", "b", "c", "d"]));
    assert_eq!(normalize_segments(""), Vec::<String>::new());
    assert_eq!(normalize_segments(" "), strings(&[" "]));
    assert_eq!(normalize_segments("..\\x"), strings(&["..", "x"]));
}

#[test]
fn segments_are_clean() {
    for input in ["/a//b\\c/./d/", "./.././/\\\\", "x.y/z", ""] {
        for seg in normalize_segments(input) {
            assert!(!seg.is_empty());
            assert_ne!(seg, ".");
            assert!(!seg.contains('/') && !seg.contains('\\'));
        }
    }
}

#[test]
fn joined_segments() {
    assert_eq!(join_remote_segments("configs", "notes/todo.md"), strings(&["configs", "notes", "todo.md"]));
    for (base, extra) in [("configs/", "/a\\b"), ("", "x"), ("a/.", "./b"), ("", "")] {
        assert_eq!(join_remote_segments(base, extra), normalize_segments(&format!("{base}/{extra}")));
    }
    assert_eq!(
        join_remote_segments_with_client("my-sync", "  dev-1 ", "a/b.txt"),
        strings(&["my-sync", "dev-1", "a", "b.txt"])
    );
    assert_eq!(join_remote_segments_with_client("my-sync", "  ", "a/b.txt"), strings(&["my-sync", "a", "b.txt"]));
    let chain = collection_chain(&strings(&["a", "b", "c"]));
    assert_eq!(chain, vec![strings(&["a"]), strings(&["a", "b"]), strings(&["a", "b", "c"])]);
    assert!(collection_chain(&Vec::new()).is_empty());
}

#[test]
fn relative_paths() {
    assert_eq!(relative_remote_path("/dav/my-sync/notes/a.md", "/dav/my-sync/"), "notes/a.md");
    assert_eq!(relative_remote_path("/other/x", "/dav"), "other/x");
    assert_eq!(relative_remote_path("/dav/", "/dav"), "");
}

#[test]
fn percent_encoding() {
    assert_eq!(percent_encode_str("a b#?%é", EncodeSet::PathSegment), "a%20b%23%3F%25%C3%A9");
    assert_eq!(percent_encode_str("plain-name_1.txt", EncodeSet::PathSegment), "plain-name_1.txt");
    assert_eq!(percent_encode_str("a-b_c.txt", EncodeSet::NonAlphanumeric), "a%2Db%5Fc%2Etxt");
    assert_eq!(percent_encode_str("", EncodeSet::NonAlphanumeric), "");
}

#[test]
fn url_paths() {
    assert_eq!(extract_href_path("/dav/file.txt"), "/dav/file.txt");
    assert_eq!(extract_href_path("https://h.example/dav/x%20y"), "/dav/x%20y");
    let responses = vec![ListingResponse {
        href: "/dav/root/a.txt".to_string(),
        display_name: None,
        content_length: None,
        last_modified: None,
        is_collection: false,
    }];
    let entries = listing_entries("https://h.example/dav/root/", &responses, "").unwrap();
    assert_eq!(entries.len(), 1);
    assert_eq!(entries[0].name, "a.txt");
    assert!(listing_entries("not a url", &responses, "").is_err());
}

#[test]
fn built_urls() {
    assert_eq!(
        build_url_with_segments("  https://dav.example.com/remote.php/dav  ", &strings(&["my-sync", "a b.txt"]), EncodeSet::PathSegment),
        Ok("https://dav.example.com/remote.php/dav/my-sync/a%20b.txt".to_string())
    );
    assert_eq!(
        plain_file_url("https://h.example/", "configs", "a.json"),
        Ok("https://h.example/configs/a%2Ejson".to_string())
    );
    assert!(build_url_with_segments("not a url", &Vec::new(), EncodeSet::PathSegment).is_err());
}

#[test]
fn remote_newer_cases() {
    let a = Timestamp { secs: 100, nanos: 0 };
    let b = Timestamp { secs: 100, nanos: 5 };
    assert!(is_remote_newer(Some(a), Some(b)));
    assert!(!is_remote_newer(Some(b), Some(a)));
    assert!(!is_remote_newer(Some(a), Some(a)));
    assert!(is_remote_newer(None, Some(a)));
    assert!(!is_remote_newer(Some(a), None));
    assert!(!is_remote_newer(None, None));
}

#[test]
fn rfc3339_and_http_dates() {
    let base = 1_704_067_200i64;
    let at = |secs: i64| Timestamp { secs, nanos: 0 };
    let last = Some("2024-01-01T08:00:00.5+08:00".to_string());
    assert!(!last_run_due_at(&last, 30, at(base + 30)));
    assert!(last_run_due_at(&last, 30, at(base + 31)));
    assert!(last_run_due_at(&Some("garbage".to_string()), 30, at(base)));
    assert_eq!(last_modified_instant("Sun, 06 Nov 1994 08:49:37 GMT"), Some(Timestamp { secs: 784111777, nanos: 0 }));
    assert_eq!(last_modified_instant("Sunday, 06-Nov-94 08:49:37 GMT"), Some(Timestamp { secs: 784111777, nanos: 0 }));
    assert_eq!(last_modified_instant("yesterday"), None);
}

#[test]
fn clock_readings() {
    let now = now_string();
    let id = generate_client_id();
    assert!(id.starts_with("client-"));
    assert!(id["client-".len()..].chars().all(|c| c.is_ascii_digit()));
    let name = conflict_copy_name(&Some("notes".to_string()), &Some("md".to_string()));
    assert!(name.starts_with("notes.remote-conflict-"));
    assert!(name.ends_with(".md"));
    assert_eq!(name.len(), "notes.remote-conflict-".len() + 15 + 3);
    let stamp = &name["notes.remote-conflict-".len()..name.len() - 3];
    assert_eq!(stamp.as_bytes()[8], b'-');
    assert!(stamp.chars().enumerate().all(|(i, c)| i == 8 || c.is_ascii_digit()));
    let far = Timestamp { secs: 4_102_444_800, nanos: 0 };
    assert!(last_run_due_at(&Some(now), 30, far));
}
