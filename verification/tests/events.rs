use mkube_console::clients::aggregator::Aggregator;
use mkube_console::clients::transport::Reply;
use mkube_console::clients::NodeClient;
use mkube_console::routes::sse::{
    handle_pod_events, pod_list_event, pod_update_event, Emission, KEEP_ALIVE_SECS,
    POLL_INTERVAL_SECS,
};
use mkube_console::text::{char_is_whitespace, push_record_lines, text_less};

fn registry(names: &[&str]) -> Aggregator {
    Aggregator::new(
        names
            .iter()
            .map(|n| NodeClient::new(n.to_string(), format!("http://{}", n)))
            .collect(),
    )
}

fn answer(body: &str) -> Reply {
    Reply::Answer { status: 200, body: body.to_string() }
}

fn lines_of(body: &str) -> Vec<String> {
    let mut out = Vec::new();
    push_record_lines(body, &mut out);
    out
}

fn with_std(body: &str) -> Vec<String> {
    body.lines().filter(|l| !l.trim().is_empty()).map(|l| l.to_string()).collect()
}

#[test]
fn feed_with_no_nodes_only_keeps_alive() {
    let agg = registry(&[]);
    let mut events = handle_pod_events(&agg, Vec::new());
    for _ in 0..50 {
        assert!(matches!(events.next(), Emission::KeepAlive));
    }
    let mut events = handle_pod_events(&agg, vec![answer("{\"type\":\"ADDED\"}\n")]);
    for _ in 0..5 {
        assert!(matches!(events.next(), Emission::KeepAlive));
    }
    assert_eq!(KEEP_ALIVE_SECS, 15);
}

#[test]
fn feed_replays_two_buffered_lines_then_polls_every_three_seconds() {
    let agg = registry(&["a"]);
    let body = "{\"type\":\"ADDED\",\"object\":1}\n{\"type\":\"MODIFIED\",\"object\":2}\n";
    let mut events = handle_pod_events(&agg, vec![answer(body)]);
    match events.next() {
        Emission::PodUpdate { data } => assert_eq!(data, "{\"type\":\"ADDED\",\"object\":1}"),
        other => panic!("unexpected: {:?}", other),
    }
    match events.next() {
        Emission::PodUpdate { data } => assert_eq!(data, "{\"type\":\"MODIFIED\",\"object\":2}"),
        other => panic!("unexpected: {:?}", other),
    }
    for _ in 0..20 {
        match events.next() {
            Emission::PollAfter { secs } => assert_eq!(secs, 3),
            other => panic!("unexpected: {:?}", other),
        }
    }
    assert_eq!(POLL_INTERVAL_SECS, 3);
    assert_eq!(pod_update_event(), "pod-update");
    assert_eq!(pod_list_event(), "pod-list");
}

#[test]
fn feed_polls_at_once_when_no_watch_opened() {
    let agg = registry(&["a", "b"]);
    let refused = Reply::Answer { status: 404, body: "no watch here\n".to_string() };
    let mut events = handle_pod_events(&agg, vec![Reply::Lost, refused]);
    assert!(matches!(events.next(), Emission::PollAfter { secs: 3 }));
    assert!(matches!(events.next(), Emission::PollAfter { secs: 3 }));
}

#[test]
fn feed_keeps_line_order_within_and_across_nodes() {
    let agg = registry(&["a", "b", "c"]);
    let mut events = handle_pod_events(
        &agg,
        vec![answer("a1\r\n\r\na2"), Reply::Lost, answer("\n  \nc1\n")],
    );
    let mut seen = Vec::new();
    loop {
        match events.next() {
            Emission::PodUpdate { data } => seen.push(data),
            Emission::PollAfter { .. } => break,
            Emission::KeepAlive => panic!("an idle feed with nodes"),
        }
    }
    assert_eq!(seen, vec!["a1", "a2", "c1"]);
}

#[test]
fn record_lines_split_as_lines_do() {
    assert_eq!(lines_of(""), Vec::<String>::new());
    assert_eq!(lines_of("\n"), Vec::<String>::new());
    assert_eq!(lines_of("one"), vec!["one"]);
    assert_eq!(lines_of("one\n"), vec!["one"]);
    assert_eq!(lines_of("one\ntwo"), vec!["one", "two"]);
    assert_eq!(lines_of("one\r\ntwo\r\n"), vec!["one", "two"]);
    assert_eq!(lines_of("one\r"), vec!["one\r"]);
    assert_eq!(lines_of("a\rb\n"), vec!["a\rb"]);
    assert_eq!(lines_of("a\r\r\n"), vec!["a\r"]);
    assert_eq!(lines_of(" \t \nx\n\u{3000}\n"), vec!["x"]);
    assert_eq!(lines_of("  padded  \n"), vec!["  padded  "]);
    assert_eq!(lines_of("é\nñ\r\n日本\n"), vec!["é", "ñ", "日本"]);
}

#[test]
fn record_lines_agree_with_std() {
    for body in [
        "",
        "\n",
        "\r\n",
        "\r",
        "a",
        "a\n",
        "a\r\n",
        "a\r",
        "\na",
        "\n\na\n\n",
        "a\n\rb",
        "a\r\rb\r\n\r",
        " \n\t\n\u{a0}\n\u{2003}x\n",
        "{\"k\":\"v\"}\n{\"k\":\"w\"}",
        "x\u{85}\ny\u{2028}z\n\u{feff}\n",
        "\u{b}\u{c}\n\u{1680}\n\u{200b}\n",
    ] {
        assert_eq!(lines_of(body), with_std(body), "for {:?}", body);
    }
}

#[test]
fn record_lines_append_to_what_is_there() {
    let mut out = vec!["kept".to_string()];
    push_record_lines("new\n", &mut out);
    assert_eq!(out, vec!["kept", "new"]);
}

#[test]
fn whitespace_is_what_std_says() {
    let mut code: u32 = 0;
    while code < 0x11000 {
        if let Some(c) = char::from_u32(code) {
            assert_eq!(char_is_whitespace(c), c.is_whitespace(), "for U+{:04X}", code);
        }
        code += 1;
    }
}

#[test]
fn text_order_is_the_order_of_strings() {
    let samples = ["", "a", "ab", "abc", "b", "B", "default", "kube-system", "z", "é", "日本", "a\u{10000}"];
    for a in samples {
        for b in samples {
            assert_eq!(text_less(a, b), a < b, "for {:?} and {:?}", a, b);
        }
    }
}
