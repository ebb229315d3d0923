//! The HTTP layer's decisions: what each handler answers, computed from
//! plain values. The unverified shell parses requests, hands the values
//! in, and turns the decisions into actual responses.
//!
//! The asynchronous handler accepts a job: it draws a token, inserts the
//! placeholder record, and answers a temporary redirect to the polling
//! route. The polling handler reads the store and answers the finished
//! audio, a "please wait" page, or not-found. The synchronous handler
//! runs the job inline and answers its base64 text or a plain error.

use vstd::prelude::*;
use vstd::string::StringExecFns;
use crate::base64::{encode_base64, spec_base64};
use crate::errors::ExternalToolError;
use crate::store::ResultStore;
use crate::token::{generate, token_chars};

verus! {

/// The status code of the asynchronous handler's answer: a temporary
/// redirect to the polling route.
pub const REDIRECT_STATUS: u16 = 307;

/// An accepted background job: the freshly drawn route token and the
/// polling location the client is redirected to.
pub struct Accepted {
    pub token: String,
    pub location: String,
}

/// Accepts a background job: draws a fresh random token of `token_len`
/// characters, inserts the placeholder record for it, and names the
/// polling location `/queue/{token}`. Every other route in the store is
/// left untouched.
pub fn accept_job(store: &mut ResultStore, token_len: usize) -> (a: Accepted)
    ensures
        a.token@.len() == token_len,
        token_chars(a.token@),
        a.location@ == "/queue/"@ + a.token@,
        final(store).spec_contains(a.token@),
        final(store).spec_get(a.token@) is None,
        forall|r: Seq<char>|
            r != a.token@ ==> (final(store).spec_contains(r) <==> old(store).spec_contains(r)),
        forall|r: Seq<char>|
            r != a.token@ && old(store).spec_contains(r) ==> final(store).spec_get(r) == old(
                store,
            ).spec_get(r),
{
    let token = generate(token_len);
    store.create(token.as_str());
    let location: String = "/queue/".to_owned().concat(token.as_str());
    Accepted { token, location }
}

/// What the polling handler answers for one route.
pub enum PollOutcome {
    /// The job completed: the processed bytes, served as audio.
    Audio(Vec<u8>),
    /// The route exists but the job is still processing: a wait page.
    Wait,
    /// The route was never created: not found, as distinct from a broken
    /// store as it is from a pending job.
    NotFound,
}

/// Decides the polling handler's answer for `route`: the stored bytes if
/// the job completed, a wait signal while it is pending, and not-found
/// for a route that was never created.
pub fn poll(store: &ResultStore, route: &str) -> (r: PollOutcome)
    ensures
        !store.spec_contains(route@) ==> r is NotFound,
        store.spec_contains(route@) && store.spec_get(route@) is None ==> r is Wait,
        store.spec_contains(route@) ==> (store.spec_get(route@) matches Some(d) ==> (
        r matches PollOutcome::Audio(b) && b@ == d)),
{
    match store.get(route) {
        Ok(Some(bytes)) => PollOutcome::Audio(bytes),
        Ok(None) => PollOutcome::Wait,
        Err(_) => PollOutcome::NotFound,
    }
}

/// The status code a polling outcome is served with: an unknown route is
/// not found, everything else — finished audio and the wait page alike —
/// is plain success.
pub open spec fn spec_poll_status(r: PollOutcome) -> u16 {
    match r {
        PollOutcome::Audio(_) => 200,
        PollOutcome::Wait => 200,
        PollOutcome::NotFound => 404,
    }
}

/// Returns the status code for one polling outcome.
pub fn poll_status(r: &PollOutcome) -> (code: u16)
    ensures
        code == spec_poll_status(*r),
{
    match r {
        PollOutcome::Audio(_) => 200,
        PollOutcome::Wait => 200,
        PollOutcome::NotFound => 404,
    }
}

/// The content type a polling outcome is served with.
pub open spec fn spec_poll_content_type(r: PollOutcome) -> Seq<char> {
    match r {
        PollOutcome::Audio(_) => "audio/mpeg"@,
        PollOutcome::Wait => "text/html"@,
        PollOutcome::NotFound => "text/html"@,
    }
}

/// Returns the content type for one polling outcome.
pub fn poll_content_type(r: &PollOutcome) -> (t: &'static str)
    ensures
        t@ == spec_poll_content_type(*r),
{
    match r {
        PollOutcome::Audio(_) => "audio/mpeg",
        PollOutcome::Wait => "text/html",
        PollOutcome::NotFound => "text/html",
    }
}

/// The synchronous handler's complete answer.
pub struct SyncResponse {
    pub status: u16,
    pub content_type: String,
    pub body: String,
}

/// Decides the synchronous handler's answer from the inline job's result:
/// success is served as the base64 text of the processed bytes, and a
/// tool failure as a plain-text internal error with a short message.
pub fn sync_response(job: Result<Vec<u8>, ExternalToolError>) -> (resp: SyncResponse)
    ensures
        job matches Ok(bytes) ==> resp.status == 200 && resp.content_type@
            == "application/base64"@ && resp.body@ == spec_base64(bytes@),
        job matches Err(e) ==> resp.status == 500 && resp.content_type@ == "text/plain"@
            && resp.body@ == e.spec_message(),
{
    match job {
        Ok(bytes) => SyncResponse {
            status: 200,
            content_type: "application/base64".to_owned(),
            body: encode_base64(bytes.as_slice()),
        },
        Err(e) => SyncResponse {
            status: 500,
            content_type: "text/plain".to_owned(),
            body: e.message().to_owned(),
        },
    }
}

} // verus!
