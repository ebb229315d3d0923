use reverbq::errors::ExternalToolError;
use reverbq::http::{
    accept_job, poll, poll_content_type, poll_status, sync_response, PollOutcome,
    REDIRECT_STATUS,
};
use reverbq::store::ResultStore;

const ALPHANUMERIC: &str = "ABCDEFGHIJKLMNOPQRSTUVWXYZabcdefghijklmnopqrstuvwxyz0123456789";

#[test]
fn accepting_a_job_redirects_to_a_fresh_queue_route() {
    let mut store = ResultStore::new();
    let a = accept_job(&mut store, 8);
    assert_eq!(REDIRECT_STATUS, 307);
    assert_eq!(a.location, format!("/queue/{}", a.token));
    assert_eq!(a.token.chars().count(), 8);
    assert!(a.token.chars().all(|c| ALPHANUMERIC.contains(c)));
}

#[test]
fn polling_before_completion_reports_waiting() {
    let mut store = ResultStore::new();
    let a = accept_job(&mut store, 8);
    let outcome = poll(&store, &a.token);
    assert!(matches!(outcome, PollOutcome::Wait));
    assert_eq!(poll_status(&outcome), 200);
    assert_eq!(poll_content_type(&outcome), "text/html");
}

#[test]
fn polling_after_completion_serves_the_stored_audio() {
    let mut store = ResultStore::new();
    let a = accept_job(&mut store, 8);
    let bytes = vec![0x49, 0x44, 0x33, 0x04];
    assert_eq!(store.set_result(&a.token, bytes.clone()), Ok(()));
    let outcome = poll(&store, &a.token);
    match &outcome {
        PollOutcome::Audio(served) => assert_eq!(served, &bytes),
        other => panic!("expected audio, got {:?}", poll_status(other)),
    }
    assert_eq!(poll_status(&outcome), 200);
    assert_eq!(poll_content_type(&outcome), "audio/mpeg");
}

#[test]
fn unknown_token_is_not_found_not_a_server_error() {
    let store = ResultStore::new();
    let outcome = poll(&store, "not-a-real-token");
    assert!(matches!(outcome, PollOutcome::NotFound));
    assert_eq!(poll_status(&outcome), 404);
    assert_ne!(poll_status(&outcome), 500);
}

#[test]
fn sync_success_is_base64_with_its_own_content_type() {
    let resp = sync_response(Ok(b"Man".to_vec()));
    assert_eq!(resp.status, 200);
    assert_eq!(resp.content_type, "application/base64");
    assert_eq!(resp.body, "TWFu");
    assert!(resp
        .body
        .chars()
        .all(|c| ALPHANUMERIC.contains(c) || c == '+' || c == '/' || c == '='));
}

#[test]
fn sync_failure_is_a_plain_internal_error() {
    let resp = sync_response(Err(ExternalToolError::ToolFailed));
    assert_eq!(resp.status, 500);
    assert_eq!(resp.content_type, "text/plain");
    assert_eq!(resp.body, "an external tool exited with failure");
}
