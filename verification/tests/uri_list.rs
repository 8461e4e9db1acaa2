use ui_gtk::uri_list::{is_local_host, local_paths, uri_list_entries, DecodedUri};

/// Decode a `file:` URI: its path with `%xx` resolved, and its host.
fn decode(uri: &str) -> Option<DecodedUri> {
    let rest = uri.strip_prefix("file://")?;
    let slash = rest.find('/')?;
    let (host, path) = rest.split_at(slash);
    let mut bytes = Vec::new();
    let mut it = path.bytes();
    while let Some(b) = it.next() {
        if b == b'%' {
            let hex: String = [it.next()? as char, it.next()? as char].iter().collect();
            bytes.push(u8::from_str_radix(&hex, 16).ok()?);
        } else {
            bytes.push(b);
        }
    }
    let host = if host.is_empty() { None } else { Some(host.to_string()) };
    Some(DecodedUri { path: bytes, host })
}

fn parse_uri_list(list: &str) -> Vec<String> {
    let decoded: Vec<Option<DecodedUri>> =
        uri_list_entries(list).iter().map(|uri| decode(uri)).collect();
    local_paths(&decoded).into_iter().map(|p| String::from_utf8(p).unwrap()).collect()
}

#[test]
fn parses_file_uris_skipping_comments_and_blanks() {
    let list = "# a comment\r\nfile:///tmp/a.txt\r\n\r\nfile:///home/u/b%20c.txt\r\n";
    assert_eq!(parse_uri_list(list), vec!["/tmp/a.txt", "/home/u/b c.txt"]);
}

#[test]
fn rejects_non_file_schemes_and_remote_hosts() {
    let list = "https://example.com/x\r\nfile://otherhost/tmp/x\r\nfile:///tmp/ok.txt";
    assert_eq!(parse_uri_list(list), vec!["/tmp/ok.txt"]);
}

#[test]
fn accepts_explicit_localhost_host() {
    assert_eq!(parse_uri_list("file://localhost/tmp/ok.txt"), vec!["/tmp/ok.txt"]);
}

#[test]
fn entries_are_trimmed_lines_without_comments() {
    assert_eq!(uri_list_entries("  a \n\t\n#b\n # c\nd"), vec!["a", "d"]);
    assert!(uri_list_entries("").is_empty());
    assert!(uri_list_entries("\r\n\r\n").is_empty());
}

#[test]
fn only_this_machine_is_local() {
    assert!(is_local_host(&None));
    assert!(is_local_host(&Some("localhost".to_string())));
    assert!(!is_local_host(&Some("LOCALHOST".to_string())));
    assert!(!is_local_host(&Some(String::new())));
}

#[test]
fn lists_join_and_line_ends_do_not_matter() {
    let a = "file:///tmp/a\n# none\nfile:///tmp/b";
    let b = "\n file:///tmp/a \nfile://far/tmp/c\nfile:///tmp/d";
    let mut paths = parse_uri_list(a);
    paths.extend(parse_uri_list(b));
    let both = format!("{a}\n{b}");
    assert_eq!(paths, vec!["/tmp/a", "/tmp/b", "/tmp/a", "/tmp/d"]);
    assert_eq!(parse_uri_list(&both), paths);
    assert_eq!(parse_uri_list(&both.replace('\n', "\r\n")), paths);
    assert_eq!(uri_list_entries("a\n\nb"), uri_list_entries("a\r\n\r\nb"));
}
