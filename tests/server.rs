use web_engine::{
    binary_header, decimal, forbidden, is_within, join_request_path, method_of, not_found,
    not_implemented, ok_with_body, parse_request_line, request_segments, Action, EntryKind, Event,
    HttpServer, Method, Phase, CHUNK_SIZE,
};

fn comps(parts: &[&str]) -> Vec<Vec<u8>> {
    parts.iter().map(|p| p.as_bytes().to_vec()).collect()
}

fn server() -> HttpServer {
    HttpServer::new(comps(&["srv", "web"]))
}

fn lines(first: &str) -> Vec<Vec<u8>> {
    vec![first.as_bytes().to_vec(), b"Host: example".to_vec()]
}

fn sent(a: &Action) -> Vec<u8> {
    match a {
        Action::Send(b) => b.clone(),
        other => panic!("expected a response, got {:?}", other),
    }
}

#[test]
fn home_page_is_index_of_root() {
    let s = server();
    let (p, a) = s.handle(&lines("GET / HTTP/1.1"));
    match &a {
        Action::Canonicalize(c) => assert_eq!(c, &comps(&["srv", "web"])),
        other => panic!("{:?}", other),
    }
    let (p, a) = s.step(p, Event::Resolved(Some(comps(&["srv", "web"]))));
    match &a {
        Action::Classify(c) => assert_eq!(c, &comps(&["srv", "web"])),
        other => panic!("{:?}", other),
    }
    let (p, a) = s.step(p, Event::Kind(EntryKind::Directory));
    match &a {
        Action::ReadText(c) => assert_eq!(c, &comps(&["srv", "web", "index.html"])),
        other => panic!("{:?}", other),
    }
    let (p, a) = s.step(p, Event::Text(Some(b"<h1>Home</h1>".to_vec())));
    assert_eq!(sent(&a), b"HTTP/1.1 200 OK\r\n\r\n<h1>Home</h1>".to_vec());
    assert!(matches!(p, Phase::Finished));
}

#[test]
fn traversal_is_forbidden() {
    let s = server();
    let (p, a) = s.handle(&lines("GET /../../etc/passwd HTTP/1.1"));
    match &a {
        Action::Canonicalize(c) => {
            assert_eq!(c, &comps(&["srv", "web", "..", "..", "etc", "passwd"]))
        }
        other => panic!("{:?}", other),
    }
    let (p, a) = s.step(p, Event::Resolved(Some(comps(&["etc", "passwd"]))));
    assert_eq!(sent(&a), b"HTTP/1.1 403 OK\r\n".to_vec());
    assert!(matches!(p, Phase::Finished));
    let (_, a) = s.step(p, Event::Text(Some(b"root:x:0:0".to_vec())));
    assert!(matches!(a, Action::Close));
}

#[test]
fn sibling_with_common_prefix_is_forbidden() {
    let s = server();
    let (p, _) = s.handle(&lines("GET /x HTTP/1.1"));
    let (_, a) = s.step(p, Event::Resolved(Some(comps(&["srv", "web2", "x"]))));
    assert_eq!(sent(&a), b"HTTP/1.1 403 OK\r\n".to_vec());
}

#[test]
fn missing_without_fallback_is_bare_404() {
    let s = server();
    let (p, _) = s.handle(&lines("GET /missing.txt HTTP/1.1"));
    let (p, a) = s.step(p, Event::Resolved(None));
    match &a {
        Action::ReadText(c) => assert_eq!(c, &comps(&["srv", "web", "404.html"])),
        other => panic!("{:?}", other),
    }
    let (p, a) = s.step(p, Event::Text(None));
    assert_eq!(sent(&a), b"HTTP/1.1 404 OK\r\n".to_vec());
    assert!(matches!(p, Phase::Finished));
}

#[test]
fn missing_with_fallback_is_200_page() {
    let s = server();
    let (p, _) = s.handle(&lines("GET /missing.txt HTTP/1.1"));
    let (p, _) = s.step(p, Event::Resolved(None));
    let (_, a) = s.step(p, Event::Text(Some(b"gone".to_vec())));
    assert_eq!(sent(&a), b"HTTP/1.1 200 OK\r\n\r\ngone".to_vec());
}

#[test]
fn directory_without_index_falls_back() {
    let s = server();
    let (p, _) = s.handle(&lines("GET /docs HTTP/1.1"));
    let (p, _) = s.step(p, Event::Resolved(Some(comps(&["srv", "web", "docs"]))));
    let (p, a) = s.step(p, Event::Kind(EntryKind::Directory));
    match &a {
        Action::ReadText(c) => assert_eq!(c, &comps(&["srv", "web", "docs", "index.html"])),
        other => panic!("{:?}", other),
    }
    let (p, a) = s.step(p, Event::Text(None));
    match &a {
        Action::ReadText(c) => assert_eq!(c, &comps(&["srv", "web", "404.html"])),
        other => panic!("{:?}", other),
    }
    let (_, a) = s.step(p, Event::Text(None));
    assert_eq!(sent(&a), b"HTTP/1.1 404 OK\r\n".to_vec());
}

#[test]
fn text_file_body_is_exact() {
    let s = server();
    let (p, _) = s.handle(&lines("GET /notes/a.txt HTTP/1.1"));
    let t = comps(&["srv", "web", "notes", "a.txt"]);
    let (p, _) = s.step(p, Event::Resolved(Some(t.clone())));
    let (p, a) = s.step(p, Event::Kind(EntryKind::File));
    match &a {
        Action::ReadText(c) => assert_eq!(c, &t),
        other => panic!("{:?}", other),
    }
    let (_, a) = s.step(p, Event::Text(Some(b"line one\r\nline two".to_vec())));
    assert_eq!(sent(&a), b"HTTP/1.1 200 OK\r\n\r\nline one\r\nline two".to_vec());
}

#[test]
fn binary_file_is_streamed() {
    let s = server();
    let (p, _) = s.handle(&lines("GET /img.png HTTP/1.1"));
    let t = comps(&["srv", "web", "img.png"]);
    let (p, _) = s.step(p, Event::Resolved(Some(t.clone())));
    let (p, _) = s.step(p, Event::Kind(EntryKind::File));
    let (p, a) = s.step(p, Event::Text(None));
    match &a {
        Action::MeasureSize(c) => assert_eq!(c, &t),
        other => panic!("{:?}", other),
    }
    let (mut p, a) = s.step(p, Event::Size(Some(5)));
    match &a {
        Action::SendHeader(h, c) => {
            assert_eq!(
                h,
                &b"HTTP/1.1 200 OK\r\nAccept-Ranges: bytes\r\nContent-Type: application/octet-stream\r\nContent-Length: 5\r\nContent-Disposition: attachment;\r\n\r\n".to_vec()
            );
            assert_eq!(c, &t);
        }
        other => panic!("{:?}", other),
    }
    let file: Vec<u8> = vec![0x89, 0x50, 0x00, 0xff, 0x10];
    let mut out: Vec<u8> = Vec::new();
    for chunk in [&file[..3], &file[3..], &[][..]] {
        let (q, a) = s.step(p, Event::Wrote(true));
        assert!(matches!(a, Action::ReadChunk(n) if n == CHUNK_SIZE));
        let (q, a) = s.step(q, Event::Chunk(Some(chunk.to_vec())));
        match a {
            Action::Write(b) => out.extend_from_slice(&b),
            Action::Close => assert!(chunk.is_empty()),
            other => panic!("{:?}", other),
        }
        p = q;
    }
    assert_eq!(out, file);
    assert!(matches!(p, Phase::Finished));
}

#[test]
fn failed_write_stops_streaming() {
    let s = server();
    let (p, _) = s.handle(&lines("GET /a.bin HTTP/1.1"));
    let t = comps(&["srv", "web", "a.bin"]);
    let (p, _) = s.step(p, Event::Resolved(Some(t)));
    let (p, _) = s.step(p, Event::Kind(EntryKind::File));
    let (p, _) = s.step(p, Event::Text(None));
    let (p, _) = s.step(p, Event::Size(Some(9000)));
    let (p, a) = s.step(p, Event::Wrote(false));
    assert!(matches!(a, Action::Close));
    assert!(matches!(p, Phase::Finished));
}

#[test]
fn failed_read_stops_streaming() {
    let s = server();
    let (p, _) = s.handle(&lines("GET /a.bin HTTP/1.1"));
    let (p, _) = s.step(p, Event::Resolved(Some(comps(&["srv", "web", "a.bin"]))));
    let (p, _) = s.step(p, Event::Kind(EntryKind::File));
    let (p, _) = s.step(p, Event::Text(None));
    let (p, _) = s.step(p, Event::Size(Some(1)));
    let (p, _) = s.step(p, Event::Wrote(true));
    let (p, a) = s.step(p, Event::Chunk(None));
    assert!(matches!(a, Action::Close));
    assert!(matches!(p, Phase::Finished));
}

#[test]
fn unknown_size_falls_back() {
    let s = server();
    let (p, _) = s.handle(&lines("GET /a.bin HTTP/1.1"));
    let (p, _) = s.step(p, Event::Resolved(Some(comps(&["srv", "web", "a.bin"]))));
    let (p, _) = s.step(p, Event::Kind(EntryKind::File));
    let (p, _) = s.step(p, Event::Text(None));
    let (_, a) = s.step(p, Event::Size(None));
    match &a {
        Action::ReadText(c) => assert_eq!(c, &comps(&["srv", "web", "404.html"])),
        other => panic!("{:?}", other),
    }
}

#[test]
fn neither_file_nor_directory_closes() {
    let s = server();
    let (p, _) = s.handle(&lines("GET /fifo HTTP/1.1"));
    let (p, _) = s.step(p, Event::Resolved(Some(comps(&["srv", "web", "fifo"]))));
    let (p, a) = s.step(p, Event::Kind(EntryKind::Other));
    assert!(matches!(a, Action::Close));
    assert!(matches!(p, Phase::Finished));
}

#[test]
fn same_request_same_reply() {
    let s = server();
    let mut replies = Vec::new();
    for _ in 0..2 {
        let (p, _) = s.handle(&lines("GET /a.txt HTTP/1.1"));
        let (p, _) = s.step(p, Event::Resolved(Some(comps(&["srv", "web", "a.txt"]))));
        let (p, _) = s.step(p, Event::Kind(EntryKind::File));
        let (_, a) = s.step(p, Event::Text(Some(b"same".to_vec())));
        replies.push(sent(&a));
    }
    assert_eq!(replies[0], replies[1]);
    assert_eq!(replies[0], b"HTTP/1.1 200 OK\r\n\r\nsame".to_vec());
}

#[test]
fn no_lines_no_response() {
    let s = server();
    let (p, a) = s.handle(&Vec::new());
    assert!(matches!(a, Action::Close));
    assert!(matches!(p, Phase::Finished));
}

#[test]
fn missing_http_no_response() {
    let s = server();
    let (_, a) = s.handle(&lines("GET /index.html"));
    assert!(matches!(a, Action::Close));
}

#[test]
fn unknown_method_no_response() {
    let s = server();
    let (_, a) = s.handle(&lines("BREW /pot HTTP/1.1"));
    assert!(matches!(a, Action::Close));
    let (_, a) = s.handle(&lines("get / HTTP/1.1"));
    assert!(matches!(a, Action::Close));
}

#[test]
fn other_methods_not_implemented() {
    let s = server();
    for m in ["POST", "PUT", "DELETE", "HEAD", "OPTIONS", "TRACE", "CONNECT", "PATCH"] {
        let (p, a) = s.handle(&lines(&format!("{} / HTTP/1.1", m)));
        assert_eq!(sent(&a), b"HTTP/1.1 501 Not Implemented\r\n".to_vec());
        assert!(matches!(p, Phase::Finished));
    }
}

#[test]
fn parses_method_and_path() {
    let q = parse_request_line(b"GET /a/b.html HTTP/1.1").unwrap();
    assert_eq!(q.method, Method::Get);
    assert_eq!(q.path, b"/a/b.html".to_vec());
    let q = parse_request_line(b"DELETE /x HTTP/1.0").unwrap();
    assert_eq!(q.method, Method::Delete);
    assert_eq!(q.path, b"/x".to_vec());
    let q = parse_request_line(b"GET HTTP/1.1").unwrap();
    assert_eq!(q.path, Vec::<u8>::new());
    assert!(parse_request_line(b"GET / http/1.1").is_none());
    assert!(parse_request_line(b"").is_none());
}

#[test]
fn method_tokens_are_case_sensitive() {
    assert_eq!(method_of(b"GET / HTTP/1.1"), Method::Get);
    assert_eq!(method_of(b"PATCH / HTTP/1.1"), Method::Patch);
    assert_eq!(method_of(b"Get / HTTP/1.1"), Method::Unknown);
    assert_eq!(method_of(b"GETX / HTTP/1.1"), Method::Unknown);
    assert_eq!(method_of(b""), Method::Unknown);
}

#[test]
fn segments_skip_empty_parts() {
    assert_eq!(request_segments(b"/"), Vec::<Vec<u8>>::new());
    assert_eq!(request_segments(b""), Vec::<Vec<u8>>::new());
    assert_eq!(request_segments(b"//a///b/"), comps(&["a", "b"]));
    assert_eq!(request_segments(b"/./../c"), comps(&[".", "..", "c"]));
    assert_eq!(join_request_path(&comps(&["r"]), b"/x/y"), comps(&["r", "x", "y"]));
}

#[test]
fn within_compares_whole_components() {
    let root = comps(&["srv", "web"]);
    assert!(is_within(&root, &comps(&["srv", "web"])));
    assert!(is_within(&root, &comps(&["srv", "web", "a"])));
    assert!(!is_within(&root, &comps(&["srv", "web2", "a"])));
    assert!(!is_within(&root, &comps(&["srv"])));
    assert!(!is_within(&root, &comps(&["etc", "passwd"])));
}

#[test]
fn decimal_digits() {
    assert_eq!(decimal(0), b"0".to_vec());
    assert_eq!(decimal(7), b"7".to_vec());
    assert_eq!(decimal(4096), b"4096".to_vec());
    assert_eq!(decimal(u64::MAX), b"18446744073709551615".to_vec());
}

#[test]
fn response_bytes() {
    assert_eq!(forbidden(), b"HTTP/1.1 403 OK\r\n".to_vec());
    assert_eq!(not_found(), b"HTTP/1.1 404 OK\r\n".to_vec());
    assert_eq!(not_implemented(), b"HTTP/1.1 501 Not Implemented\r\n".to_vec());
    assert_eq!(ok_with_body(b""), b"HTTP/1.1 200 OK\r\n\r\n".to_vec());
    assert_eq!(
        binary_header(0),
        b"HTTP/1.1 200 OK\r\nAccept-Ranges: bytes\r\nContent-Type: application/octet-stream\r\nContent-Length: 0\r\nContent-Disposition: attachment;\r\n\r\n".to_vec()
    );
}
