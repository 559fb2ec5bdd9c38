use gws::list_unsubscribe::{
    list_unsubscribe_parsable, message_unsub_info, summarize_headers, HeaderField, HeaderSummary,
};
use gws::parse_list_unsubscribe;
use gws::text::is_whitespace;

#[test]
fn test_parse_list_unsubscribe_both() {
    let header = "<https://example.com/unsubscribe?id=123>, <mailto:unsub@example.com>";
    let (https, mailto) = parse_list_unsubscribe(header);
    assert_eq!(https.unwrap(), "https://example.com/unsubscribe?id=123");
    assert_eq!(mailto.unwrap(), "unsub@example.com");
}

#[test]
fn test_parse_list_unsubscribe_https_only() {
    let header = "<https://example.com/unsub>";
    let (https, mailto) = parse_list_unsubscribe(header);
    assert_eq!(https.unwrap(), "https://example.com/unsub");
    assert!(mailto.is_none());
}

#[test]
fn test_parse_list_unsubscribe_mailto_only() {
    let header = "<mailto:leave@example.com>";
    let (https, mailto) = parse_list_unsubscribe(header);
    assert!(https.is_none());
    assert_eq!(mailto.unwrap(), "leave@example.com");
}

#[test]
fn test_parse_list_unsubscribe_empty() {
    let (https, mailto) = parse_list_unsubscribe("");
    assert!(https.is_none());
    assert!(mailto.is_none());
}

#[test]
fn test_parse_list_unsubscribe_http_rejected() {
    // Only HTTPS URLs should be extracted, not plain HTTP
    let header = "<http://example.com/unsub>";
    let (https, mailto) = parse_list_unsubscribe(header);
    assert!(https.is_none());
    assert!(mailto.is_none());
}

#[test]
fn test_parse_list_unsubscribe_multiple_urls() {
    let header = "<https://first.com/unsub>, <https://second.com/unsub>, <mailto:a@b.com>";
    let (https, mailto) = parse_list_unsubscribe(header);
    // Should pick the first HTTPS URL
    assert_eq!(https.unwrap(), "https://first.com/unsub");
    assert_eq!(mailto.unwrap(), "a@b.com");
}

#[test]
fn test_parse_list_unsubscribe_whitespace() {
    let header = "  < https://example.com/unsub > , < mailto:a@b.com > ";
    let (https, mailto) = parse_list_unsubscribe(header);
    assert_eq!(https.unwrap(), "https://example.com/unsub");
    assert_eq!(mailto.unwrap(), "a@b.com");
}

#[test]
fn parse_first_mailto_wins_and_order_does_not_matter() {
    let header = "<mailto:first@x.org>,<mailto:second@x.org>,<https://late.example/u>";
    let (https, mailto) = parse_list_unsubscribe(header);
    assert_eq!(https.unwrap(), "https://late.example/u");
    assert_eq!(mailto.unwrap(), "first@x.org");
}

#[test]
fn parse_entries_without_brackets_are_ignored() {
    let header = "https://example.com/u, mailto:a@b.com, <, >";
    let (https, mailto) = parse_list_unsubscribe(header);
    assert!(https.is_none());
    assert!(mailto.is_none());
}

#[test]
fn parse_uses_first_brackets_and_text_outside_them_is_ignored() {
    let header = "junk <https://a.example/x> more <https://b.example/y>";
    let (https, _) = parse_list_unsubscribe(header);
    assert_eq!(https.unwrap(), "https://a.example/x");
}

#[test]
fn parse_keeps_inner_text_up_to_first_closing_bracket() {
    let header = "<mailto:list@x.org?subject=unsubscribe>";
    let (_, mailto) = parse_list_unsubscribe(header);
    assert_eq!(mailto.unwrap(), "list@x.org?subject=unsubscribe");
    let header = "<https://x.org/a>b>";
    let (https, _) = parse_list_unsubscribe(header);
    assert_eq!(https.unwrap(), "https://x.org/a");
}

#[test]
fn parse_unicode_whitespace_is_trimmed() {
    let header = "\u{3000}<\u{a0}https://example.com/u\u{2009}>\u{85}";
    let (https, _) = parse_list_unsubscribe(header);
    assert_eq!(https.unwrap(), "https://example.com/u");
}

#[test]
fn parse_scheme_is_case_sensitive() {
    let (https, mailto) = parse_list_unsubscribe("<HTTPS://example.com/u>, <MAILTO:a@b.com>");
    assert!(https.is_none());
    assert!(mailto.is_none());
}

#[test]
fn parsable_only_when_no_entry_closes_before_it_opens() {
    assert!(list_unsubscribe_parsable(""));
    assert!(list_unsubscribe_parsable("<https://a.example/>, <mailto:a@b.c>"));
    assert!(list_unsubscribe_parsable("no brackets at all"));
    assert!(list_unsubscribe_parsable("only < opening"));
    assert!(list_unsubscribe_parsable("only > closing"));
    assert!(!list_unsubscribe_parsable("><"));
    assert!(!list_unsubscribe_parsable("<https://a.example/>, x>y<z"));
}

#[test]
fn appending_entries_keeps_first_links() {
    let h = "<https://first.example/u>, <mailto:first@example.com>";
    let first = parse_list_unsubscribe(h);
    for s in ["<https://second.example/u>", " <mailto:second@example.com>", "<http://x>", ""] {
        let joined = format!("{},{}", h, s);
        assert!(list_unsubscribe_parsable(&joined));
        assert_eq!(parse_list_unsubscribe(&joined), first);
    }
    let joined = format!("{},{}", "<mailto:only@example.com>", "<https://late.example/u>");
    let (https, mailto) = parse_list_unsubscribe(&joined);
    assert_eq!(mailto.unwrap(), "only@example.com");
    assert_eq!(https.unwrap(), "https://late.example/u");
}

#[test]
fn entry_without_link_changes_nothing() {
    let h = "<https://a.example/u>, <mailto:a@example.com>";
    for s in ["<http://x>", "no brackets", "<ftp://y>", "  ", "< MAILTO:z@example.com >"] {
        assert_eq!(parse_list_unsubscribe(&format!("{},{}", h, s)), parse_list_unsubscribe(h));
        assert_eq!(parse_list_unsubscribe(&format!("{},{}", s, h)), parse_list_unsubscribe(h));
    }
    assert_eq!(parse_list_unsubscribe("<http://x>,<https://b.example>").0.unwrap(), "https://b.example");
}

#[test]
fn whitespace_agrees_with_std_for_every_char() {
    for c in (0u32..=0x10FFFF).filter_map(char::from_u32) {
        assert_eq!(is_whitespace(c), c.is_whitespace(), "char {:?}", c);
    }
}

fn field(name: &str, value: &str) -> HeaderField {
    HeaderField {
        name: Some(name.to_string()),
        value: Some(value.to_string()),
    }
}

#[test]
fn summarize_headers_keeps_last_value_of_each_name() {
    let headers = vec![
        field("From", "a@x.org"),
        field("Subject", "hello"),
        field("List-Unsubscribe", "<https://first/>"),
        field("From", "b@x.org"),
        field("List-Unsubscribe", "<https://second/>"),
        field("List-Unsubscribe-Post", "List-Unsubscribe=One-Click"),
        field("List-Unsubscribe-Post", "nothing useful"),
    ];
    let s = summarize_headers(&headers);
    assert_eq!(s.from, "b@x.org");
    assert_eq!(s.list_unsubscribe, "<https://second/>");
    assert!(!s.has_post_header);
}

#[test]
fn summarize_headers_one_click_marker_anywhere_in_value() {
    let headers = vec![field(
        "List-Unsubscribe-Post",
        "  List-Unsubscribe=One-Click; extra",
    )];
    assert!(summarize_headers(&headers).has_post_header);
    let headers = vec![field("List-Unsubscribe-Post", "List-Unsubscribe=one-click")];
    assert!(!summarize_headers(&headers).has_post_header);
}

#[test]
fn summarize_headers_names_are_exact_and_missing_fields_are_empty() {
    let headers = vec![
        field("from", "lower@x.org"),
        HeaderField { name: Some("From".to_string()), value: None },
        HeaderField { name: None, value: Some("<https://ignored/>".to_string()) },
    ];
    let s = summarize_headers(&headers);
    assert_eq!(s.from, "");
    assert_eq!(s.list_unsubscribe, "");
    assert!(!s.has_post_header);
    let empty = summarize_headers(&[]);
    assert_eq!(empty.from, "");
}

#[test]
fn message_unsub_info_none_without_header() {
    let summary = HeaderSummary {
        from: "a@x.org".to_string(),
        list_unsubscribe: String::new(),
        has_post_header: true,
    };
    assert!(message_unsub_info("m1".to_string(), summary).is_none());
}

#[test]
fn message_unsub_info_carries_parsed_links() {
    let summary = HeaderSummary {
        from: "News <news@x.org>".to_string(),
        list_unsubscribe: "<mailto:u@x.org>, <https://x.org/u>".to_string(),
        has_post_header: true,
    };
    let m = message_unsub_info("m7".to_string(), summary).unwrap();
    assert_eq!(m.message_id, "m7");
    assert_eq!(m.from, "News <news@x.org>");
    assert_eq!(m.https_url.as_deref(), Some("https://x.org/u"));
    assert_eq!(m.mailto.as_deref(), Some("u@x.org"));
    assert!(m.has_post_header);
    // A header with no usable URI still gives a record, with no links.
    let summary = HeaderSummary {
        from: "a".to_string(),
        list_unsubscribe: "nothing".to_string(),
        has_post_header: false,
    };
    let m = message_unsub_info("m8".to_string(), summary).unwrap();
    assert!(m.https_url.is_none() && m.mailto.is_none());
}
