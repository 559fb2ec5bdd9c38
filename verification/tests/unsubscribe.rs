use gws::command::{choose_mode, max_messages, parse_u32, UnsubscribeMode};
use gws::list_unsubscribe::MessageUnsubInfo;
use gws::plan::{
    dry_run_method, plan_from_matches, plan_unsubscribe, post_report, sender_matches,
    UnsubscribePlan,
};
use gws::senders::{
    candidate_report, group_by_sender, method_for, sort_senders_by_count, SenderInfo,
    UnsubscribeMethod,
};
use gws::GwsError;

fn msg(id: &str, from: &str, url: Option<&str>, mailto: Option<&str>, post: bool) -> MessageUnsubInfo {
    MessageUnsubInfo {
        message_id: id.to_string(),
        from: from.to_string(),
        https_url: url.map(|s| s.to_string()),
        mailto: mailto.map(|s| s.to_string()),
        has_post_header: post,
    }
}

fn sender(from: &str, count: u32) -> SenderInfo {
    SenderInfo {
        from: from.to_string(),
        count,
        has_rfc8058: false,
        unsubscribe_url: None,
        mailto: None,
    }
}

#[test]
fn group_by_sender_counts_and_keeps_first_links() {
    let messages = vec![
        msg("1", "a@x", None, Some("a-mail"), false),
        msg("2", "b@x", Some("https://b/1"), None, false),
        msg("3", "a@x", Some("https://a/1"), Some("a-mail-2"), true),
        msg("4", "a@x", Some("https://a/2"), None, false),
    ];
    let g = group_by_sender(&messages);
    assert_eq!(g.len(), 2);
    assert_eq!(g[0].from, "a@x");
    assert_eq!(g[0].count, 3);
    assert!(g[0].has_rfc8058);
    assert_eq!(g[0].unsubscribe_url.as_deref(), Some("https://a/1"));
    assert_eq!(g[0].mailto.as_deref(), Some("a-mail"));
    assert_eq!(g[1].from, "b@x");
    assert_eq!(g[1].count, 1);
    assert!(!g[1].has_rfc8058);
    assert_eq!(g[1].unsubscribe_url.as_deref(), Some("https://b/1"));
    assert!(g[1].mailto.is_none());
}

#[test]
fn group_by_sender_is_case_sensitive_on_from() {
    let messages = vec![msg("1", "A@x", None, None, false), msg("2", "a@x", None, None, false)];
    assert_eq!(group_by_sender(&messages).len(), 2);
}

#[test]
fn sort_by_count_is_descending_and_stable() {
    let sorted = sort_senders_by_count(vec![
        sender("one", 1),
        sender("three", 3),
        sender("one-b", 1),
        sender("two", 2),
        sender("three-b", 3),
    ]);
    let order: Vec<(&str, u32)> = sorted.iter().map(|s| (s.from.as_str(), s.count)).collect();
    assert_eq!(
        order,
        vec![("three", 3), ("three-b", 3), ("two", 2), ("one", 1), ("one-b", 1)]
    );
    assert!(sort_senders_by_count(Vec::new()).is_empty());
}

#[test]
fn method_prefers_one_click_then_mail_then_link() {
    let mut s = sender("x", 1);
    assert_eq!(method_for(&s), UnsubscribeMethod::Unknown);
    s.unsubscribe_url = Some("https://x".to_string());
    assert_eq!(method_for(&s), UnsubscribeMethod::UrlOnly);
    s.mailto = Some("m".to_string());
    assert_eq!(method_for(&s), UnsubscribeMethod::MailtoOnly);
    s.has_rfc8058 = true;
    assert_eq!(method_for(&s), UnsubscribeMethod::OneClickPost);
    assert_eq!(UnsubscribeMethod::OneClickPost.label(), "RFC 8058 (one-click POST)");
    assert_eq!(UnsubscribeMethod::MailtoOnly.label(), "mailto only");
    assert_eq!(UnsubscribeMethod::UrlOnly.label(), "URL only (may need browser)");
    assert_eq!(UnsubscribeMethod::Unknown.label(), "unknown");
}

#[test]
fn candidate_report_lists_senders_by_count() {
    assert!(candidate_report(&[]).is_none());
    let messages = vec![
        msg("1", "solo@x", Some("https://s"), None, false),
        msg("2", "news@x", None, Some("n@x"), false),
        msg("3", "news@x", Some("https://n"), None, true),
    ];
    let report = candidate_report(&messages).unwrap();
    assert_eq!(report.total_messages, 3);
    assert_eq!(report.total_senders, 2);
    assert_eq!(report.candidates.len(), 2);
    let first = &report.candidates[0];
    assert_eq!(first.from, "news@x");
    assert_eq!(first.count, 2);
    assert!(first.rfc8058);
    assert_eq!(first.method, UnsubscribeMethod::OneClickPost);
    let second = &report.candidates[1];
    assert_eq!(second.from, "solo@x");
    assert_eq!(second.count, 1);
    assert_eq!(second.method, UnsubscribeMethod::UrlOnly);
    let total: u32 = report.candidates.iter().map(|c| c.count).sum();
    assert_eq!(total as usize, report.total_messages);
}

#[test]
fn sender_matches_ignores_case_in_both() {
    assert!(sender_matches("Newsletter <News@Example.COM>", "example.com"));
    assert!(sender_matches("news@example.com", "EXAMPLE"));
    assert!(sender_matches("anything", ""));
    assert!(!sender_matches("news@example.com", "other.com"));
    assert!(sender_matches("ÉCOLE <x@y>", "école"));
}

#[test]
fn plan_no_matching_sender() {
    let messages = vec![msg("1", "a@x", Some("https://a"), None, true)];
    assert!(matches!(
        plan_unsubscribe(&messages, "b@x", false),
        UnsubscribePlan::NoMatchingSender
    ));
    assert!(matches!(plan_unsubscribe(&[], "a", false), UnsubscribePlan::NoMatchingSender));
}

#[test]
fn plan_prefers_one_click_link() {
    let messages = vec![
        msg("1", "a@x", Some("https://plain"), None, false),
        msg("2", "other", Some("https://other"), None, true),
        msg("3", "A@X", Some("https://one-click"), None, true),
    ];
    match plan_unsubscribe(&messages, "a@x", false) {
        UnsubscribePlan::Post { from, url, one_click } => {
            assert_eq!(from, "A@X");
            assert_eq!(url, "https://one-click");
            assert!(one_click);
        }
        _ => panic!("expected a POST"),
    }
}

#[test]
fn plan_prefers_mail_over_plain_link() {
    let messages = vec![
        msg("1", "a@x", None, Some("first@x"), true),
        msg("2", "a@x", Some("https://plain"), None, false),
    ];
    match plan_unsubscribe(&messages, "a@x", false) {
        UnsubscribePlan::MailtoFallback { mailto } => assert_eq!(mailto, "first@x"),
        _ => panic!("expected the mail fallback"),
    }
    let messages = vec![
        msg("1", "a@x", Some("https://plain"), Some("same@x"), false),
    ];
    match plan_unsubscribe(&messages, "a@x", false) {
        UnsubscribePlan::MailtoFallback { mailto } => assert_eq!(mailto, "same@x"),
        _ => panic!("expected the mail fallback"),
    }
    let messages = vec![
        msg("1", "a@x", None, None, true),
        msg("2", "a@x", Some("https://plain"), None, false),
    ];
    match plan_unsubscribe(&messages, "a@x", false) {
        UnsubscribePlan::Post { url, one_click, .. } => {
            assert_eq!(url, "https://plain");
            assert!(!one_click);
        }
        _ => panic!("expected a POST"),
    }
    let messages = vec![
        msg("1", "a@x", None, None, true),
        msg("2", "a@x", None, Some("m@x"), false),
        msg("3", "a@x", None, Some("n@x"), false),
    ];
    match plan_unsubscribe(&messages, "a@x", false) {
        UnsubscribePlan::MailtoFallback { mailto } => assert_eq!(mailto, "m@x"),
        _ => panic!("expected the mail fallback"),
    }
    let messages = vec![msg("1", "a@x", None, None, true)];
    assert!(matches!(
        plan_unsubscribe(&messages, "a@x", false),
        UnsubscribePlan::NoUsableMechanism
    ));
}

#[test]
fn plan_dry_run_and_refusal() {
    let messages = vec![msg("m9", "a@x", Some("http://insecure"), None, false)];
    match plan_unsubscribe(&messages, "a", true) {
        UnsubscribePlan::DryRun { from, url, message_id, one_click } => {
            assert_eq!(from, "a@x");
            assert_eq!(url, "http://insecure");
            assert_eq!(message_id, "m9");
            assert!(!one_click);
        }
        _ => panic!("expected a dry run"),
    }
    match plan_unsubscribe(&messages, "a", false) {
        UnsubscribePlan::RefuseNonHttps { url, one_click } => {
            assert_eq!(url, "http://insecure");
            assert!(!one_click);
        }
        _ => panic!("expected a refusal"),
    }
}

#[test]
fn plan_from_matches_uses_only_marked_messages() {
    let messages = vec![
        msg("1", "a", Some("https://one"), None, true),
        msg("2", "b", Some("https://two"), None, false),
    ];
    match plan_from_matches(&messages, &[false, true], false) {
        UnsubscribePlan::Post { url, .. } => assert_eq!(url, "https://two"),
        _ => panic!("expected a POST"),
    }
    assert!(matches!(
        plan_from_matches(&messages, &[false, false], false),
        UnsubscribePlan::NoMatchingSender
    ));
}

#[test]
fn dry_run_method_labels() {
    assert_eq!(dry_run_method(true), "RFC 8058");
    assert_eq!(dry_run_method(false), "HTTPS (no Post header)");
}

#[test]
fn post_report_success_range_and_truncation() {
    let r = post_report("a@x", "https://u", 200, "ok");
    assert!(r.success);
    assert_eq!(r.response, "ok");
    assert_eq!(r.from, "a@x");
    assert_eq!(r.url, "https://u");
    assert_eq!(r.status, 200);
    assert!(post_report("a", "u", 299, "").success);
    assert!(!post_report("a", "u", 300, "").success);
    assert!(!post_report("a", "u", 199, "").success);
    assert!(!post_report("a", "u", 404, "").success);
    let long = "x".repeat(700);
    assert_eq!(post_report("a", "u", 200, &long).response.len(), 500);
    let exact = "y".repeat(500);
    assert_eq!(post_report("a", "u", 200, &exact).response, exact);
    let multi = "é".repeat(300);
    assert_eq!(post_report("a", "u", 500, &multi).response, "é".repeat(250));
}

#[test]
fn max_messages_default_and_parse() {
    assert_eq!(max_messages(None), 100);
    assert_eq!(max_messages(Some("200")), 200);
    assert_eq!(max_messages(Some("+7")), 7);
    assert_eq!(max_messages(Some("abc")), 100);
    assert_eq!(max_messages(Some("")), 100);
    assert_eq!(max_messages(Some("-1")), 100);
    assert_eq!(max_messages(Some("4294967296")), 100);
    assert_eq!(max_messages(Some("4294967295")), u32::MAX);
}

#[test]
fn parse_u32_agrees_with_std() {
    let samples = [
        "", "+", "-", "0", "00", "+0", "-0", "1", "42", "+42", "007", " 1", "1 ", "1a",
        "4294967295", "4294967296", "99999999999999999999", "++1", "+-1", "١", "12_3",
    ];
    for s in samples {
        assert_eq!(parse_u32(s), s.parse::<u32>().ok(), "input {:?}", s);
    }
    for n in (0u64..5000).chain(4294967000..4294967400) {
        let s = n.to_string();
        assert_eq!(parse_u32(&s), s.parse::<u32>().ok());
    }
}

#[test]
fn choose_mode_list_wins_then_from_then_error() {
    assert!(matches!(choose_mode(true, Some("a")), Ok(UnsubscribeMode::List)));
    assert!(matches!(choose_mode(true, None), Ok(UnsubscribeMode::List)));
    match choose_mode(false, Some("news@x")) {
        Ok(UnsubscribeMode::Unsubscribe { sender }) => assert_eq!(sender, "news@x"),
        _ => panic!("expected unsubscribe mode"),
    }
    match choose_mode(false, None) {
        Err(GwsError::Validation(msg)) => assert_eq!(
            msg,
            "Specify --list to scan for candidates, or --from <sender> to unsubscribe"
        ),
        _ => panic!("expected a validation error"),
    }
}
