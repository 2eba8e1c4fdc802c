use tracker_sync::rpc::{
    build_sync_request, classify_http_response, correlate_frames, json_escape, plan_sync,
    select_transport, ws_step, Correlation, RpcError, RpcOutcome, Transport, WsStep,
};
use tracker_sync::trackers::merge_trackers;

fn strings(items: &[&str]) -> Vec<String> {
    items.iter().map(|s| s.to_string()).collect()
}

#[test]
fn http_scheme_selects_http_transport() {
    assert_eq!(select_transport("http://host/jsonrpc"), Transport::Http);
    assert_eq!(select_transport("https://host/jsonrpc"), Transport::Http);
}

#[test]
fn other_schemes_select_websocket_transport() {
    assert_eq!(select_transport("ws://host/jsonrpc"), Transport::WebSocket);
    assert_eq!(select_transport("wss://host/jsonrpc"), Transport::WebSocket);
    assert_eq!(select_transport(""), Transport::WebSocket);
}

#[test]
fn envelope_has_exact_shape() {
    let body = build_sync_request("s3cret", "udp://a/announce,udp://b/announce");
    assert_eq!(
        body,
        "{\"jsonrpc\":\"2.0\",\"method\":\"aria2.changeGlobalOption\",\"id\":\"cron\",\
         \"params\":[\"token:s3cret\",{\"bt-tracker\":\"udp://a/announce,udp://b/announce\"}]}"
    );
    let parsed: serde_json::Value = serde_json::from_str(&body).unwrap();
    assert_eq!(parsed["jsonrpc"], "2.0");
    assert_eq!(parsed["method"], "aria2.changeGlobalOption");
    assert_eq!(parsed["id"], "cron");
    assert_eq!(parsed["params"][0], "token:s3cret");
    assert_eq!(
        parsed["params"][1]["bt-tracker"],
        "udp://a/announce,udp://b/announce"
    );
}

#[test]
fn escaping_keeps_envelope_valid_json() {
    assert_eq!(json_escape("plain"), "plain");
    assert_eq!(json_escape("a\"b"), "a\\\"b");
    assert_eq!(json_escape("a\\b"), "a\\\\b");
    assert_eq!(json_escape("a\nb"), "a\\u000ab");
    let body = build_sync_request("key\"with\\quirks", "udp://a/announce");
    let parsed: serde_json::Value = serde_json::from_str(&body).unwrap();
    assert_eq!(parsed["params"][0], "token:key\"with\\quirks");
}

#[test]
fn plan_uses_transport_implied_by_url() {
    let ts = merge_trackers(&strings(&["udp://a/announce", "udp://b/announce"]), &vec![]);
    let http_plan = plan_sync("http://host/jsonrpc", "k", &ts);
    assert_eq!(http_plan.transport, Transport::Http);
    assert_eq!(
        http_plan.body,
        "{\"jsonrpc\":\"2.0\",\"method\":\"aria2.changeGlobalOption\",\"id\":\"cron\",\
         \"params\":[\"token:k\",{\"bt-tracker\":\"udp://a/announce,udp://b/announce\"}]}"
    );
    let ws_plan = plan_sync("ws://host/jsonrpc", "k", &ts);
    assert_eq!(ws_plan.transport, Transport::WebSocket);
    assert_eq!(ws_plan.body, http_plan.body);
}

#[test]
fn http_reply_with_result_is_accepted() {
    assert_eq!(
        classify_http_response("{\"id\":\"cron\",\"jsonrpc\":\"2.0\",\"result\":\"OK\"}"),
        Ok(RpcOutcome::Accepted)
    );
}

#[test]
fn http_reply_with_error_completes_as_rejected() {
    assert_eq!(
        classify_http_response("{\"id\":\"cron\",\"error\":{\"code\":1,\"message\":\"x\"}}"),
        Ok(RpcOutcome::Rejected)
    );
}

#[test]
fn http_reply_that_is_not_json_is_malformed() {
    assert_eq!(
        classify_http_response("not json"),
        Err(RpcError::MalformedReply)
    );
}

#[test]
fn step_discards_foreign_frames() {
    assert_eq!(
        ws_step("{\"id\":\"other\",\"result\":\"OK\"}"),
        WsStep::Ignore
    );
    assert_eq!(
        ws_step("{\"method\":\"aria2.onDownloadStart\",\"params\":[]}"),
        WsStep::Ignore
    );
    assert_eq!(
        ws_step("{\"id\":\"cron\",\"result\":\"OK\"}"),
        WsStep::Reply(RpcOutcome::Accepted)
    );
    assert_eq!(
        ws_step("{\"id\":\"cron\",\"error\":{\"code\":1,\"message\":\"x\"}}"),
        WsStep::Reply(RpcOutcome::Rejected)
    );
    assert_eq!(ws_step("garbage"), WsStep::Malformed);
}

#[test]
fn correlation_reacts_to_first_matching_frame() {
    let frames = strings(&[
        "{\"method\":\"aria2.onDownloadStart\",\"params\":[]}",
        "{\"id\":\"other\",\"result\":\"ignored\"}",
        "{\"id\":\"cron\",\"result\":\"OK\"}",
        "{\"id\":\"cron\",\"error\":{\"code\":1,\"message\":\"late\"}}",
    ]);
    assert_eq!(correlate_frames(&frames), Correlation::Matched(RpcOutcome::Accepted));
}

#[test]
fn correlation_reports_daemon_error_without_failing() {
    let frames = strings(&[
        "{\"id\":\"other\",\"result\":\"ignored\"}",
        "{\"id\":\"cron\",\"error\":{\"code\":1,\"message\":\"x\"}}",
    ]);
    assert_eq!(correlate_frames(&frames), Correlation::Matched(RpcOutcome::Rejected));
}

#[test]
fn correlation_without_matching_frame_stays_unanswered() {
    let frames = strings(&["{\"id\":\"other\",\"result\":\"ignored\"}"]);
    assert_eq!(correlate_frames(&frames), Correlation::NoReply);
    assert_eq!(correlate_frames(&strings(&[])), Correlation::NoReply);
}

#[test]
fn correlation_fails_on_malformed_frame() {
    let frames = strings(&["{\"id\":\"other\"}", "not json", "{\"id\":\"cron\",\"result\":1}"]);
    assert_eq!(correlate_frames(&frames), Correlation::Malformed);
}
