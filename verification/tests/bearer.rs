use telemetry::bearer::{
    headers_from, parse_headers, run_helper, timeout, HeaderClient, HelperEvent, HelperStep,
    HELPER_POLL_MILLIS,
};
use telemetry::headers::Headers;

fn bound(pairs: &[(&str, &str)]) -> Headers {
    Headers::of(pairs.iter().map(|(n, v)| (n.to_string(), v.to_string())).collect())
}

fn done(step: HelperStep) -> Result<Headers, &'static str> {
    match step {
        HelperStep::Done(answer) => answer,
        _ => panic!("the helper is done"),
    }
}

fn why(answer: Result<Headers, &'static str>) -> &'static str {
    match answer {
        Ok(_) => panic!("the helper failed"),
        Err(why) => why,
    }
}

#[test]
fn a_json_object_is_headers() {
    let headers = parse_headers(r#"{"Authorization":"Bearer test","X-Scope":"apps"}"#)
        .expect("an object parses");
    assert_eq!(headers.len(), 2);
    assert_eq!(headers.get("X-Scope").map(String::as_str), Some("apps"));
}

#[test]
fn anything_that_is_not_an_object_of_strings_is_nothing() {
    assert!(parse_headers(r#""Bearer test""#).is_none(), "a bare string");
    assert!(parse_headers("").is_none(), "empty output");
    assert!(parse_headers("not json at all").is_none(), "invalid JSON");
    assert!(parse_headers("[1, 2]").is_none(), "an array");
    assert!(
        parse_headers(r#"{"Authorization":7}"#).is_none(),
        "a number"
    );
}

#[test]
fn one_value_that_is_no_string_spoils_the_object() {
    assert!(parse_headers(r#"{"A":"1","B":null,"C":"3"}"#).is_none());
    assert!(parse_headers(r#"{"A":"1","B":{"C":"3"}}"#).is_none());
    assert_eq!(parse_headers(" {} ").map(|h| h.len()), Some(0));
}

#[test]
fn a_name_that_is_printed_twice_is_bound_to_its_last_value() {
    let headers = parse_headers(r#"{"A":"1","A":"2"}"#).expect("an object");
    assert_eq!(headers.len(), 1);
    assert_eq!(headers.get("A").map(String::as_str), Some("2"));
    assert!(headers.get("a").is_none());
}

#[test]
fn members_are_taken_over_in_order() {
    let headers = headers_from(Some(vec![
        ("b".to_owned(), Some("1".to_owned())),
        ("a".to_owned(), Some("2".to_owned())),
    ]))
    .expect("all strings");
    assert_eq!(headers.entry(0), ("b", "1"));
    assert_eq!(headers.entry(1), ("a", "2"));
    assert!(headers_from(Some(vec![("b".to_owned(), None)])).is_none());
    assert!(headers_from(None).is_none());
}

#[test]
fn a_helper_that_prints_an_object_yields_headers() {
    let output = br#"{"Authorization":"Bearer test"}"#.to_vec();
    assert!(matches!(run_helper(HelperEvent::Exited { success: true }, 10_000), HelperStep::Read));
    let headers = done(run_helper(HelperEvent::Output(output), 10_000)).expect("the helper succeeds");
    assert_eq!(headers.len(), 1);
}

#[test]
fn a_failing_or_silent_helper_names_its_condition() {
    for (event, expected) in [
        (HelperEvent::Exited { success: false }, "the header helper exited non-zero"),
        (
            HelperEvent::Output(b"not json".to_vec()),
            "the header helper did not print a JSON object of headers",
        ),
        (
            HelperEvent::Output(Vec::new()),
            "the header helper did not print a JSON object of headers",
        ),
    ] {
        assert_eq!(why(done(run_helper(event, 10_000))), expected);
    }
}

#[test]
fn a_hanging_helper_is_killed_at_the_deadline() {
    match run_helper(HelperEvent::Running { elapsed_millis: 199 }, 200) {
        HelperStep::Sleep { millis } => assert_eq!(millis, HELPER_POLL_MILLIS),
        _ => panic!("there is time left"),
    }
    match run_helper(HelperEvent::Running { elapsed_millis: 200 }, 200) {
        HelperStep::Kill { why } => assert_eq!(why, "the header helper timed out"),
        _ => panic!("the time is up"),
    }
}

/// `sleep 30 & printf '{"A":"b"}'` exits at once and leaves its output open.
#[test]
fn a_helper_whose_output_stays_open_is_given_up_at_the_deadline() {
    assert!(matches!(run_helper(HelperEvent::Exited { success: true }, 200), HelperStep::Read));
    match run_helper(HelperEvent::Reading { elapsed_millis: 199 }, 200) {
        HelperStep::Sleep { millis } => assert_eq!(millis, 20),
        _ => panic!("there is time left"),
    }
    for elapsed_millis in [200, 201, u64::MAX] {
        match run_helper(HelperEvent::Reading { elapsed_millis }, 200) {
            HelperStep::Kill { why } => assert_eq!(why, "the header helper timed out"),
            _ => panic!("the time is up"),
        }
    }
}

#[test]
fn every_other_condition_has_its_phrase() {
    for (event, expected) in [
        (HelperEvent::NotStarted, "the header helper could not be started"),
        (HelperEvent::WaitFailed, "the header helper could not be waited on"),
        (HelperEvent::Unreadable, "the header helper produced no readable output"),
        (HelperEvent::Output(vec![0xff]), "the header helper printed non-UTF-8"),
    ] {
        assert_eq!(why(done(run_helper(event, 10_000))), expected);
    }
    assert!(matches!(run_helper(HelperEvent::Started, 10_000), HelperStep::Poll));
}

#[test]
fn debug_never_prints_a_header_value() {
    let client = HeaderClient::new(1_000, &bound(&[("Authorization", "Bearer hunter2")]));
    let rendered = client.debug_text();
    assert!(!rendered.contains("hunter2"), "{rendered}");
    assert_eq!(rendered, "HeaderClient { headers: 1 }");
}

#[test]
fn a_header_http_cannot_carry_is_left_out() {
    let long = "n".repeat(65_536);
    let client = HeaderClient::new(
        1_000,
        &bound(&[
            ("", "empty"),
            ("with space", "x"),
            ("Grün", "x"),
            ("Newline", "a\nb"),
            ("Delete", "a\u{7f}"),
            (&long, "x"),
            ("X-Tab!#$%&'*+-.^_`|~09", "a\tb"),
            ("X-Ü", "x"),
            ("X-Value", "grün"),
        ]),
    );
    let headers = client.post_headers();
    let names: Vec<&str> = headers.iter().map(|h| h.name.as_str()).collect();
    assert_eq!(names, ["content-type", "x-tab!#$%&'*+-.^_`|~09", "x-value"]);
    assert_eq!(headers[2].value, "grün".as_bytes());
    assert_eq!(headers[0].value, b"application/x-protobuf");
    assert!(!headers[0].sensitive && headers[1].sensitive && headers[2].sensitive);
}

#[test]
fn the_longest_name_is_kept() {
    let long = "n".repeat(65_535);
    let client = HeaderClient::new(1_000, &bound(&[(&long, "x")]));
    assert_eq!(client.post_headers().len(), 2);
}

#[test]
fn the_helpers_headers_win() {
    let mut map = http::HeaderMap::new();
    map.append("authorization", http::HeaderValue::from_static("static"));
    map.append("authorization", http::HeaderValue::from_static("twice"));
    map.append("x-other", http::HeaderValue::from_static("kept"));
    let client = HeaderClient::new(1_000, &bound(&[("Authorization", "Bearer test"), ("X-New", "n")]));
    assert!(client.stamp(&mut map));
    let values: Vec<_> = map.get_all("authorization").iter().collect();
    assert_eq!(values, ["Bearer test"]);
    assert!(values[0].is_sensitive());
    assert_eq!(map["x-other"], "kept");
    assert!(!map["x-other"].is_sensitive());
    assert_eq!(map["x-new"], "n");
    assert_eq!(map.keys_len(), 3);
}

#[test]
fn stamping_twice_is_stamping_once() {
    let mut map = http::HeaderMap::new();
    let client = HeaderClient::new(1_000, &bound(&[("A", "1"), ("a", "2"), ("B", "3")]));
    assert!(client.stamp(&mut map));
    let once = map.clone();
    assert!(client.stamp(&mut map));
    assert_eq!(map, once);
    assert_eq!(map["a"], "2");
    assert_eq!(map.len(), 2);
}

#[test]
fn a_request_with_room_takes_every_header() {
    let mut map = http::HeaderMap::new();
    for i in 0..6_000 {
        map.insert(
            http::HeaderName::try_from(format!("x-{i}")).expect("a name"),
            http::HeaderValue::from_static("v"),
        );
    }
    let client = HeaderClient::new(1_000, &bound(&[("Authorization", "Bearer test")]));
    assert!(client.stamp(&mut map));
    assert_eq!(map.keys_len(), 6_001);
}

#[test]
fn a_full_request_takes_what_it_can() {
    let mut map = http::HeaderMap::new();
    for i in 0..40_000 {
        let name = http::HeaderName::try_from(format!("x-{i}")).expect("a name");
        if map.try_insert(name, http::HeaderValue::from_static("old")).is_err() {
            break;
        }
    }
    let full = map.keys_len();
    assert!(full > 6553);
    let client = HeaderClient::new(1, &bound(&[("x-0", "new"), ("y", "1"), ("x-1", "new")]));
    assert!(!client.stamp(&mut map));
    assert_eq!(map.keys_len(), full);
    assert!(!map.contains_key("y"));
    assert_eq!(map["x-1"], "old");
}

#[test]
fn the_signals_own_timeout_comes_first() {
    let text = |value: &str| Some(value.to_owned());
    assert_eq!(timeout(&text("250"), &text("4000")), 250);
    assert_eq!(timeout(&text(" 0\n"), &text("4000")), 0);
    assert_eq!(timeout(&text("fast"), &text("4000")), 4000);
    assert_eq!(timeout(&None, &text("+7")), 7);
    assert_eq!(timeout(&text(""), &text("-1")), 10_000);
    assert_eq!(timeout(&None, &None), 10_000);
}

#[test]
fn a_client_keeps_its_timeout() {
    assert_eq!(HeaderClient::new(77, &bound(&[])).timeout_millis(), 77);
    assert_eq!(HeaderClient::new(77, &Headers::new()).post_headers().len(), 1);
}
