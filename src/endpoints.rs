//! What the fixed stateful endpoints do with a request, once its fields have
//! been read: the defaults they fill in and the store operation they run.
use vstd::prelude::*;
use vstd::string::*;
use base64::Engine;
use crate::state::auth::{AuthState, TokenInfo, token_issued};
use crate::state::buckets::{BucketInfo, BucketState, bucket_created};
use crate::state::issues::{IssueInfo, IssuesState, issue_created};
use crate::state::translations::{TranslationJob, TranslationState, TranslationStatus, status_name};
use crate::state::webhooks::{WebhookScope, WebhookSubscription, WebhooksState};

verus! {

/// Lifetime of an issued token, in seconds.
pub const TOKEN_LIFETIME: u64 = 3600;

pub open spec fn or_default(v: Option<Seq<char>>, d: Seq<char>) -> Seq<char> {
    match v {
        Some(s) => s,
        None => d,
    }
}

pub open spec fn opt_view(v: Option<&str>) -> Option<Seq<char>> {
    match v {
        Some(s) => Some(s@),
        None => None,
    }
}

pub open spec fn opt_string_view(v: Option<String>) -> Option<Seq<char>> {
    match v {
        Some(s) => Some(s@),
        None => None,
    }
}

fn text_or(v: Option<String>, d: &str) -> (r: String)
    ensures
        r@ == or_default(opt_string_view(v), d@),
{
    match v {
        Some(s) => s,
        None => String::from_str(d),
    }
}

/// Issues a token for `client_id` (`default-client` where the request names
/// none), valid for an hour.
pub fn issue_token(auth: &mut AuthState, client_id: Option<&str>, scope: Option<String>) -> (r: TokenInfo)
    requires
        old(auth).wf(),
    ensures
        exists|now: u64| token_issued(
            *old(auth),
            *final(auth),
            or_default(opt_view(client_id), "default-client"@),
            TOKEN_LIFETIME,
            scope,
            now,
            r,
        ),
{
    let client = match client_id {
        Some(c) => c,
        None => "default-client",
    };
    let ghost pre = *auth;
    let r = auth.generate_token(client, TOKEN_LIFETIME, scope);
    proof {
        let now = choose|now: u64| token_issued(pre, *auth, client@, TOKEN_LIFETIME, scope, now, r);
        assert(client@ == or_default(opt_view(client_id), "default-client"@));
        assert(token_issued(pre, *auth, or_default(opt_view(client_id), "default-client"@), TOKEN_LIFETIME, scope, now, r));
    }
    r
}

/// Creates the bucket a request asks for; the key defaults to
/// `default-bucket` and the policy to `transient`.
pub fn create_requested_bucket(buckets: &mut BucketState, key: Option<String>, policy: Option<String>) -> (r: BucketInfo)
    requires
        old(buckets).wf(),
    ensures
        exists|now: i64| bucket_created(
            *old(buckets),
            *final(buckets),
            or_default(opt_string_view(key), "default-bucket"@),
            or_default(opt_string_view(policy), "transient"@),
            now,
            r,
        ),
{
    buckets.create_bucket(text_or(key, "default-bucket"), text_or(policy, "transient"))
}

/// Starts the translation job for the request's input URN (empty where it
/// names none).
pub fn start_translation(jobs: &mut TranslationState, urn: Option<String>) -> (r: TranslationJob)
    requires
        old(jobs).wf(),
    ensures
        final(jobs).wf(),
        r.urn@ == or_default(opt_string_view(urn), ""@),
        r.status == TranslationStatus::Pending,
        final(jobs).jobs() == old(jobs).jobs().insert(r.urn@, r),
{
    jobs.create_job(text_or(urn, ""))
}

/// Files the issue a request asks for under `project_id`; the title defaults
/// to `Untitled Issue`.
pub fn create_requested_issue(
    issues: &mut IssuesState,
    project_id: String,
    title: Option<String>,
    description: Option<String>,
) -> (r: IssueInfo)
    requires
        old(issues).wf(),
    ensures
        issue_created(
            *old(issues),
            *final(issues),
            project_id@,
            or_default(opt_string_view(title), "Untitled Issue"@),
            description,
            r,
        ),
{
    issues.create_issue(project_id, text_or(title, "Untitled Issue"), description)
}

/// Registers the subscription a request asks for under the tenant `system`;
/// the callback defaults to `https://example.com/webhook`.
pub fn create_requested_hook(
    hooks: &mut WebhooksState,
    system: String,
    callback_url: Option<String>,
    scope: WebhookScope,
) -> (r: WebhookSubscription)
    requires
        old(hooks).wf(),
    ensures
        final(hooks).wf(),
        r.tenant@ == system@,
        r.callback_url@ == or_default(opt_string_view(callback_url), "https://example.com/webhook"@),
        r.scope == scope,
        r.status@ == "active"@,
        final(hooks).subscriptions() == old(hooks).subscriptions().insert(r.hook_id@, r),
{
    hooks.create_subscription(system, text_or(callback_url, "https://example.com/webhook"), scope)
}

/// What a manifest reports of a job.
pub struct ManifestSummary {
    pub status: &'static str,
    /// A finished job has a thumbnail and one complete derivative.
    pub complete: bool,
}

/// What the standard base64 alphabet, with padding, decodes a text to.
pub uninterp spec fn base64_decoded(s: Seq<char>) -> Option<Seq<u8>>;

/// What `String::from_utf8_lossy` makes of some bytes.
pub uninterp spec fn utf8_lossy(b: Seq<u8>) -> Seq<char>;

/// Relies on base64's `STANDARD` engine and its `decode`: the decoded bytes,
/// or `None` where the text is not valid base64; the result depends on the
/// text alone.
#[verifier::external_body]
fn decode_base64(s: &str) -> (r: Option<Vec<u8>>)
    ensures
        match r {
            Some(b) => base64_decoded(s@) == Some(b@),
            None => base64_decoded(s@) is None,
        },
{
    base64::engine::general_purpose::STANDARD.decode(s).ok()
}

/// Relies on `String::from_utf8_lossy`: the bytes as text, with invalid
/// sequences replaced; the result depends on the bytes alone.
#[verifier::external_body]
fn lossy_text(b: &Vec<u8>) -> (r: String)
    ensures
        r@ == utf8_lossy(b@),
{
    String::from_utf8_lossy(b).to_string()
}

/// The URN a manifest request names: its decoded text where the decoding
/// succeeded, else the request's URN as it came.
pub fn urn_or_raw(decoded: Option<String>, raw: &str) -> (r: String)
    ensures
        r@ == or_default(opt_string_view(decoded), raw@),
{
    text_or(decoded, raw)
}

/// The URN a manifest request names, from the base64 text in its path.
pub fn manifest_urn(encoded: &str) -> (r: String)
    ensures
        r@ == match base64_decoded(encoded@) {
            Some(b) => utf8_lossy(b),
            None => encoded@,
        },
{
    let decoded = match decode_base64(encoded) {
        Some(bytes) => Some(lossy_text(&bytes)),
        None => None,
    };
    urn_or_raw(decoded, encoded)
}

pub fn manifest_summary(job: &TranslationJob) -> (r: ManifestSummary)
    ensures
        r.status@ == status_name(job.status),
        r.complete == (job.status == TranslationStatus::Success),
{
    ManifestSummary { status: job.status.as_str(), complete: job.status == TranslationStatus::Success }
}

} // verus!
