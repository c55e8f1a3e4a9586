use rustywiki::text::{join_strs, replace_all, split_str, parse_usize_str, format_zero_padded};
use rustywiki::wikifile::{join_version, split_version, PageRevisionStruct, DELIMETER};
use rustywiki::site::{is_site_dir, is_top_file, page_html, site_get_nonauth};
use rustywiki::logs::{debug_log_text, truncate_chars, LogData, TRUNC_DEBUG_LEN};

fn header(page: &str, revision: &str) -> PageRevisionStruct {
    PageRevisionStruct {
        page: page.to_string(),
        revision: revision.to_string(),
        previous_revision: "000000000".to_string(),
        create_date: "2018/05/05 19:53:05.248-07:00".to_string(),
        revision_date: "2018/05/05 19:53:05.248-07:00".to_string(),
        revised_by: "user".to_string(),
        comment: "".to_string(),
        lock: "".to_string(),
        data: "".to_string(),
    }
}

#[test]
fn split_str_behaves_like_str_split() {
    for (s, p) in [("a:b:c", ":"), ("", ":"), (":", ":"), ("abcabc", "bc"), ("aaa", "aa"), ("no match", "xyz")] {
        let ours: Vec<String> = split_str(s, p);
        let std_parts: Vec<String> = s.split(p).map(|x| x.to_string()).collect();
        assert_eq!(ours, std_parts);
    }
}

#[test]
fn join_and_replace() {
    let parts = vec!["a".to_string(), "b".to_string(), "c".to_string()];
    assert_eq!(join_strs(&parts, ", "), "a, b, c");
    assert_eq!(join_strs(&vec![], ", "), "");
    assert_eq!(replace_all("x DUMMY y DUMMY", "DUMMY", "z"), "x z y z");
    assert_eq!(replace_all("aaa", "aa", "b"), "aaa".replace("aa", "b"));
}

#[test]
fn parse_and_format_numbers() {
    assert_eq!(parse_usize_str("000000007"), Some(7));
    assert_eq!(parse_usize_str("+12"), Some(12));
    assert_eq!(parse_usize_str(""), None);
    assert_eq!(parse_usize_str("+"), None);
    assert_eq!(parse_usize_str("-1"), None);
    assert_eq!(parse_usize_str("12a"), None);
    assert_eq!(parse_usize_str(&usize::MAX.to_string()), Some(usize::MAX));
    assert_eq!(parse_usize_str("99999999999999999999999"), None);
    assert_eq!(format_zero_padded(8, 9), "000000008");
    assert_eq!(format_zero_padded(1234567890, 9), "1234567890");
    assert_eq!(format_zero_padded(0, 9), format!("{:09}", 0));
}

#[test]
fn version_file_round_trip() {
    let joined = join_version("{\"Page\": \"start\"}", "page text");
    assert_eq!(joined, format!("{{\"Page\": \"start\"}}\n{}\npage text", DELIMETER));
    let (v, d) = split_version(&joined).unwrap();
    assert_eq!(v, "{\"Page\": \"start\"}\n");
    assert_eq!(d, "\npage text");
}

#[test]
fn version_file_needs_exactly_one_delimiter() {
    assert_eq!(split_version("no header here"), Err("Bad versioned string".to_string()));
    let twice = format!("a{}b{}c", DELIMETER, DELIMETER);
    assert_eq!(split_version(&twice), Err("Bad versioned string".to_string()));
}

#[test]
fn clean_removes_path_characters() {
    let mut h = header("../Some/Page.Name\\x", "000000001");
    h.clean(true);
    assert_eq!(h.page, "SomePageNamex");
    assert_eq!(h.revision, "000000001");
    let mut h = header("../Some/Page", "000000001");
    h.clean(false);
    assert_eq!(h.page, "somepage");
    let mut again = header(&h.page.clone(), "1");
    again.clean(true);
    assert_eq!(again.page, h.page);
}

#[test]
fn next_revision_counts_up() {
    let h = header("_user", "000000007");
    let n = h.next_revision("admin", "2020/01/01").unwrap();
    assert_eq!(n.revision, "000000008");
    assert_eq!(n.previous_revision, "000000007");
    assert_eq!(n.revised_by, "admin");
    assert_eq!(n.revision_date, "2020/01/01");
    assert_eq!(n.page, "_user");
    let m = n.next_revision("admin", "2020/01/02").unwrap();
    assert_eq!(m.revision, "000000009");
    assert!(header("_user", "seven").next_revision("a", "b").is_none());
    assert!(header("_user", &usize::MAX.to_string()).next_revision("a", "b").is_none());
}

#[test]
fn site_files_and_pages() {
    assert!(is_top_file("index.html"));
    assert!(is_top_file("favicon.ico"));
    assert!(!is_top_file("login.html"));
    assert!(is_site_dir("css") && is_site_dir("js") && is_site_dir("media"));
    assert!(!is_site_dir("wiki"));
    assert_eq!(page_html("<p>DUMMYSTARTPAGE</p>", "start"), "<p>start</p>");
}

#[test]
fn debug_messages_are_truncated() {
    let long: String = std::iter::repeat('é').take(300).collect();
    let t = debug_log_text(&LogData { log_text: long.clone() });
    assert_eq!(t.chars().count(), TRUNC_DEBUG_LEN);
    assert_eq!(truncate_chars("abc", 10), "abc");
    assert_eq!(truncate_chars("abc", 2), "ab");
}

#[test]
fn unserved_requests() {
    let r = site_get_nonauth(true);
    assert_eq!(r.code, 500);
    assert!(r.authenticate.is_none() && r.body.is_none());
    let r = site_get_nonauth(false);
    assert_eq!(r.code, 401);
    assert_eq!(r.authenticate.as_deref(), Some("Basic realm=RWIKI"));
    assert_eq!(r.body.as_deref(), Some("Unauthorized!"));
}

#[test]
fn revised_header_records_saver() {
    let h = header("start", "000000003").revised("ann", "2021/02/03 04:05:06.789+00:00");
    assert_eq!(h.revised_by, "ann");
    assert_eq!(h.revision_date, "2021/02/03 04:05:06.789+00:00");
    assert_eq!(h.revision, "000000003");
    assert_eq!(h.create_date, "2018/05/05 19:53:05.248-07:00");
}
