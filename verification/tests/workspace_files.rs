use holon_http::files::{
    attachment_disposition, build_etag, if_none_match_matches, if_range_matches,
    parse_range_header, serve_file_bytes, sniff_is_text, text_preview_end, ByteRange,
    FileResponsePlan, FileTime, RangeOutcome,
};

#[test]
fn sniff_detects_text() {
    assert!(sniff_is_text(b""));
    assert!(sniff_is_text(b"Hello, world!\n"));
    assert!(sniff_is_text(b"all: build\n\tcargo build\n"));
    assert!(sniff_is_text(
        "UTF-8: \u{4e2d}\u{6587}\u{6d4b}\u{8bd5}\n".as_bytes()
    ));
    assert!(sniff_is_text(b"col1\tcol2\r\nval1\tval2\r\n"));
}

#[test]
fn sniff_detects_binary() {
    assert!(!sniff_is_text(&[0x00, 0x01, 0x02, 0x03]));
    assert!(!sniff_is_text(&[
        0x89, 0x50, 0x4e, 0x47, 0x0d, 0x0a, 0x1a, 0x0a
    ]));
    assert!(!sniff_is_text(&[
        0x7f, 0x45, 0x4c, 0x46, 0x02, 0x01, 0x01, 0x00
    ]));
}

#[test]
fn sniff_threshold_boundary() {
    let mut data = b"normal text\n".to_vec();
    data.extend_from_slice(&[0x01, 0x02, 0x03]);
    assert!(sniff_is_text(&data));
    let mut data = b"normal tex\n".to_vec();
    data.extend_from_slice(&[0x01, 0x02, 0x03, 0x04, 0x05]);
    assert!(!sniff_is_text(&data));
}

#[test]
fn sniff_exact_thirty_percent_is_binary() {
    // 3 control bytes out of 10: the ratio 0.3 is not below the threshold.
    let data = [b'a', b'b', b'c', b'd', b'e', b'f', b'g', 0x01, 0x02, 0x03];
    assert!(!sniff_is_text(&data));
    // Invalid UTF-8 without NUL bytes is binary.
    assert!(!sniff_is_text(&[0xff, b'a', b'b']));
}

#[test]
fn parse_range_header_forms() {
    assert_eq!(
        parse_range_header("bytes=0-3", 26),
        RangeOutcome::Partial(ByteRange { start: 0, end: 3 })
    );
    assert_eq!(
        parse_range_header("bytes=20-", 26),
        RangeOutcome::Partial(ByteRange { start: 20, end: 25 })
    );
    assert_eq!(
        parse_range_header("bytes=20-100", 26),
        RangeOutcome::Partial(ByteRange { start: 20, end: 25 })
    );
    assert_eq!(
        parse_range_header("bytes=-4", 26),
        RangeOutcome::Partial(ByteRange { start: 22, end: 25 })
    );
    assert_eq!(
        parse_range_header("bytes=0-", 26),
        RangeOutcome::Partial(ByteRange { start: 0, end: 25 })
    );
}

#[test]
fn parse_range_header_degenerate() {
    assert_eq!(
        parse_range_header("bytes=26-", 26),
        RangeOutcome::Unsatisfiable
    );
    assert_eq!(
        parse_range_header("bytes=100-200", 26),
        RangeOutcome::Unsatisfiable
    );
    assert_eq!(
        parse_range_header("bytes=-0", 26),
        RangeOutcome::Unsatisfiable
    );
    assert_eq!(
        parse_range_header("bytes=0-1", 0),
        RangeOutcome::Unsatisfiable
    );
    assert_eq!(parse_range_header("items=0-3", 26), RangeOutcome::Full);
    assert_eq!(parse_range_header("bytes=0-1,3-4", 26), RangeOutcome::Full);
    assert_eq!(parse_range_header("bytes=5-3", 26), RangeOutcome::Full);
    assert_eq!(parse_range_header("bytes=25-24", 26), RangeOutcome::Full);
    assert_eq!(parse_range_header("bytes=abc", 26), RangeOutcome::Full);
    assert_eq!(parse_range_header("bytes=", 26), RangeOutcome::Full);
}

#[test]
fn parse_range_header_whitespace_plus_and_overflow() {
    assert_eq!(
        parse_range_header("  bytes= 2 - 4 ", 26),
        RangeOutcome::Partial(ByteRange { start: 2, end: 4 })
    );
    assert_eq!(
        parse_range_header("bytes=+2-+4", 26),
        RangeOutcome::Partial(ByteRange { start: 2, end: 4 })
    );
    assert_eq!(
        parse_range_header("bytes=-100", 26),
        RangeOutcome::Partial(ByteRange { start: 0, end: 25 })
    );
    assert_eq!(
        parse_range_header("bytes=0-99999999999999999999", 26),
        RangeOutcome::Full
    );
    assert_eq!(parse_range_header("bytes=-+", 26), RangeOutcome::Full);
}

#[test]
fn entity_tag_matchers() {
    let etag = "\"abc-123\"";
    assert!(if_none_match_matches(etag, etag));
    assert!(if_none_match_matches(&format!("W/{etag}"), etag));
    assert!(if_none_match_matches("\"other\", W/\"abc-123\"", etag));
    assert!(if_none_match_matches("*", etag));
    assert!(!if_none_match_matches("\"stale\"", etag));

    assert!(if_range_matches(etag, etag, None));
    assert!(!if_range_matches("W/\"abc-123\"", etag, None));
    assert!(!if_range_matches(&format!("W/{etag}"), etag, None));
    assert!(if_range_matches(
        "Sun, 06 Nov 1994 08:49:37 GMT",
        etag,
        Some("Sun, 06 Nov 1994 08:49:37 GMT")
    ));
    assert!(!if_range_matches("\"stale\"", etag, None));
    assert!(!if_range_matches(
        "Sun, 06 Nov 1994 08:49:37 GMT",
        etag,
        Some("Mon, 07 Nov 1994 08:49:37 GMT")
    ));
}

#[test]
fn attachment_disposition_forms() {
    assert_eq!(
        attachment_disposition("notes.txt"),
        "attachment; filename=\"notes.txt\""
    );
    assert_eq!(
        attachment_disposition("bad\"name.txt"),
        "attachment; filename=\"bad_name.txt\""
    );
    assert_eq!(
        attachment_disposition("笔记.txt"),
        "attachment; filename*=UTF-8''%E7%AC%94%E8%AE%B0.txt"
    );
}

#[test]
fn build_etag_is_deterministic() {
    let modified = Some(1_000_000_000u128 * 1_000_000_000u128);
    let etag = build_etag("src/lib.rs", 1024, modified);
    assert_eq!(etag, build_etag("src/lib.rs", 1024, modified));
    assert!(etag.starts_with('"') && etag.ends_with('"'));
    assert_ne!(etag, build_etag("src/other.rs", 1024, modified));
    assert_ne!(etag, build_etag("src/lib.rs", 2048, modified));
    assert_ne!(etag, build_etag("src/lib.rs", 1024, None));
}

#[test]
fn build_etag_matches_fnv1a_reference() {
    // Independent FNV-1a over the same byte layout.
    let path = "a.txt";
    let size: u64 = 5;
    let nanos: u128 = 0x1234;
    let mut hash: u64 = 0xcbf2_9ce4_8422_2325;
    for byte in path
        .as_bytes()
        .iter()
        .chain(&size.to_le_bytes())
        .chain(&nanos.to_le_bytes())
    {
        hash ^= u64::from(*byte);
        hash = hash.wrapping_mul(0x0000_0100_0000_01b3);
    }
    assert_eq!(
        build_etag(path, size, Some(nanos)),
        format!("\"{hash:x}-{nanos:x}\"")
    );
    assert!(build_etag(path, size, None).ends_with("-0\""));
}

#[test]
fn file_plan_conditional_and_ranges() {
    let etag = build_etag("notes.txt", 26, Some(7));
    match serve_file_bytes("notes.txt", Some("notes.txt"), "text/plain", 26, Some(FileTime { secs: 0, nanos: 7 }), false,
        Some(&format!("W/{etag}")), None, None)
    {
        FileResponsePlan::NotModified { etag: e, last_modified } => {
            assert_eq!(e, etag);
            assert_eq!(last_modified.as_deref(), Some("Thu, 01 Jan 1970 00:00:00 GMT"));
        }
        other => panic!("expected 304, got {other:?}"),
    }
    match serve_file_bytes("notes.txt", Some("notes.txt"), "text/plain", 26, Some(FileTime { secs: 0, nanos: 7 }), false,
        None, Some("bytes=20-"), None)
    {
        FileResponsePlan::Stream { partial, start, length, content_type, content_range, sandbox, content_disposition, .. } => {
            assert!(partial);
            assert_eq!((start, length), (20, 6));
            assert_eq!(content_type, "text/plain; charset=utf-8");
            assert_eq!(content_range.as_deref(), Some("bytes 20-25/26"));
            assert!(!sandbox);
            assert!(content_disposition.is_none());
        }
        other => panic!("expected 206, got {other:?}"),
    }
    match serve_file_bytes("notes.txt", None, "text/plain", 26, Some(FileTime { secs: 0, nanos: 7 }), true,
        None, Some("bytes=30-"), None)
    {
        FileResponsePlan::RangeNotSatisfiable { unsatisfied_range } => {
            assert_eq!(unsatisfied_range, "bytes */26");
        }
        other => panic!("expected 416, got {other:?}"),
    }
    // A stale If-Range ignores the Range header and serves everything.
    match serve_file_bytes("page.html", None, "text/html", 10, None, true,
        None, Some("bytes=0-1"), Some("\"stale\""))
    {
        FileResponsePlan::Stream { partial, start, length, content_type, content_disposition, sandbox, .. } => {
            assert!(!partial);
            assert_eq!((start, length), (0, 10));
            assert_eq!(content_type, "text/html");
            assert_eq!(content_disposition.as_deref(), Some("attachment; filename=\"download\""));
            assert!(!sandbox);
        }
        other => panic!("expected 200, got {other:?}"),
    }
    match serve_file_bytes("page.svg", None, "image/svg+xml", 10, None, false,
        None, None, None)
    {
        FileResponsePlan::Stream { sandbox, .. } => assert!(sandbox),
        other => panic!("expected 200, got {other:?}"),
    }
}

#[test]
fn text_preview_backs_up_over_continuation_bytes() {
    let data = "aé".as_bytes(); // 61 C3 A9
    assert_eq!(text_preview_end(data, 10), 3);
    assert_eq!(text_preview_end(data, 2), 2);
    let data = [b'a', 0x80, 0x80, b'b'];
    assert_eq!(text_preview_end(&data, 3), 1);
    assert_eq!(text_preview_end(&[0x80, 0x80], 1), 0);
}

#[test]
fn disposition_never_carries_line_breaks_or_quotes() {
    assert_eq!(
        attachment_disposition("a\"b\r\nc\\d.txt"),
        "attachment; filename=\"a_b__c_d.txt\""
    );
    let v = attachment_disposition("r\u{e9}sum\u{e9}\n.pdf");
    assert_eq!(v, "attachment; filename*=UTF-8''r%C3%A9sum%C3%A9%0A.pdf");
    assert!(!v.contains('\n') && !v.contains('\r'));
}

#[test]
fn last_modified_is_the_http_date_of_the_file_time() {
    let t = FileTime { secs: 1_700_000_000, nanos: 5 };
    let etag = build_etag("a.txt", 3, Some(1_700_000_000_000_000_005));
    match serve_file_bytes("a.txt", None, "text/plain", 3, Some(t), false, None, None, None) {
        FileResponsePlan::Stream { etag: e, last_modified, .. } => {
            assert_eq!(e, etag);
            assert_eq!(last_modified.as_deref(), Some("Tue, 14 Nov 2023 22:13:20 GMT"));
        }
        other => panic!("expected 200, got {other:?}"),
    }
    // Before the epoch there is no duration since it: the tag uses 0.
    let before = FileTime { secs: -1, nanos: 0 };
    match serve_file_bytes("a.txt", None, "text/plain", 3, Some(before), false, None, None, None) {
        FileResponsePlan::Stream { etag: e, last_modified, .. } => {
            assert_eq!(e, build_etag("a.txt", 3, None));
            assert_eq!(last_modified.as_deref(), Some("Wed, 31 Dec 1969 23:59:59 GMT"));
        }
        other => panic!("expected 200, got {other:?}"),
    }
}
