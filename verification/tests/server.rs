use kata_pulse::server::{
    aggregate_reply, sandboxes_reply, single_sandbox_reply, SandboxQuery, CONTENT_TYPE_JSON,
    CONTENT_TYPE_TEXT,
};

#[test]
fn query_holds_the_requested_sandbox() {
    assert_eq!(SandboxQuery::new(None).sandbox(), &None);
    assert_eq!(
        SandboxQuery::new(Some("sbx-1".to_string())).sandbox(),
        &Some("sbx-1".to_string())
    );
}

#[test]
fn single_sandbox_reply_carries_the_metrics() {
    let reply = single_sandbox_reply(Some("m 1\n".to_string()));
    assert_eq!(reply.status, 200);
    assert_eq!(reply.content_type, "text/plain; charset=utf-8");
    assert_eq!(reply.body, "m 1\n");
}

#[test]
fn single_sandbox_reply_without_metrics_is_an_error() {
    let reply = single_sandbox_reply(None);
    assert_eq!(reply.status, 500);
    assert_eq!(reply.content_type, CONTENT_TYPE_TEXT);
    assert_eq!(reply.body, "No cached metrics available for this sandbox");
}

#[test]
fn single_sandbox_reply_with_empty_metrics_is_ok() {
    let reply = single_sandbox_reply(Some(String::new()));
    assert_eq!(reply.status, 200);
    assert_eq!(reply.body, "");
}

#[test]
fn aggregate_reply_joins_what_is_there() {
    let reply = aggregate_reply(&vec![
        Some("a 1\n".to_string()),
        None,
        Some("b 2\n".to_string()),
    ]);
    assert_eq!(reply.status, 200);
    assert_eq!(reply.content_type, CONTENT_TYPE_TEXT);
    assert_eq!(reply.body, "a 1\n\nb 2\n\n");
}

#[test]
fn aggregate_reply_without_any_metrics_is_an_error() {
    for rendered in [Vec::new(), vec![None, None]] {
        let reply = aggregate_reply(&rendered);
        assert_eq!(reply.status, 500);
        assert_eq!(reply.body, "No cached metrics available");
    }
}

#[test]
fn aggregate_reply_with_one_empty_text_is_ok() {
    let reply = aggregate_reply(&vec![Some(String::new())]);
    assert_eq!(reply.status, 200);
    assert_eq!(reply.body, "\n");
}

#[test]
fn sandboxes_reply_falls_back_to_an_empty_list() {
    let reply = sandboxes_reply(Some("[[\"a\",{}]]".to_string()));
    assert_eq!(reply.status, 200);
    assert_eq!(reply.content_type, CONTENT_TYPE_JSON);
    assert_eq!(reply.body, "[[\"a\",{}]]");
    let reply = sandboxes_reply(None);
    assert_eq!(reply.status, 200);
    assert_eq!(reply.content_type, "application/json; charset=utf-8");
    assert_eq!(reply.body, "[]");
}
