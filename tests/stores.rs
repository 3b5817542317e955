use raps_mock::gate::{authorize, AuthDecision, AuthFailure};
use raps_mock::state::auth::AuthState;
use raps_mock::state::buckets::BucketState;
use raps_mock::state::issues::IssuesState;
use raps_mock::state::manager::StateManager;
use raps_mock::state::objects::ObjectState;
use raps_mock::state::projects::ProjectState;
use raps_mock::state::translations::{TranslationState, TranslationStatus};
use raps_mock::state::webhooks::{WebhookScope, WebhooksState};
use raps_mock::text::decimal_string;

#[test]
fn token_format_and_validation() {
    let mut auth = AuthState::new();
    let t = auth.generate_token_at("client", 3600, Some("data:read".to_string()), 1000);
    assert_eq!(t.access_token, "mock_token_client_1000");
    assert_eq!(t.refresh_token.as_deref(), Some("mock_refresh_client_1000"));
    assert_eq!(t.token_type, "Bearer");
    assert_eq!(t.expires_at, 4600);
    assert_eq!(t.scope.as_deref(), Some("data:read"));
    assert!(auth.validate_token_at("mock_token_client_1000", 4599));
    assert!(!auth.validate_token_at("mock_token_client_1000", 4600));
    assert!(!auth.validate_token_at("unknown", 0));
    assert_eq!(auth.get_token("client").unwrap().access_token, "mock_token_client_1000");
}

#[test]
fn second_token_invalidates_the_first() {
    let mut auth = AuthState::new();
    let first = auth.generate_token_at("c", 3600, None, 100);
    let second = auth.generate_token_at("c", 3600, None, 101);
    assert!(!auth.validate_token_at(&first.access_token, 100));
    assert!(auth.validate_token_at(&second.access_token, 100));
}

#[test]
fn tokens_of_other_clients_survive() {
    let mut auth = AuthState::new();
    let a = auth.generate_token_at("a", 10, None, 5);
    let _ = auth.generate_token_at("b", 10, None, 6);
    let _ = auth.generate_token_at("b", 10, None, 7);
    assert!(auth.validate_token_at(&a.access_token, 5));
    auth.revoke_token(&a.access_token);
    assert!(!auth.validate_token_at(&a.access_token, 5));
    assert!(auth.get_token("a").is_none());
}

#[test]
fn expiry_saturates() {
    let mut auth = AuthState::new();
    let t = auth.generate_token_at("c", u64::MAX, None, 10);
    assert_eq!(t.expires_at, u64::MAX);
}

#[test]
fn token_from_clock_validates() {
    let mut auth = AuthState::new();
    let t = auth.generate_token("clock", 3600, None);
    assert!(t.access_token.starts_with("mock_token_clock_"));
    assert!(auth.validate_token(&t.access_token));
}

#[test]
fn bucket_create_then_list() {
    let mut buckets = BucketState::new();
    let b = buckets.create_bucket("test-bucket".to_string(), "transient".to_string());
    assert_eq!(b.bucket_key, "test-bucket");
    assert_eq!(b.policy_key, "transient");
    assert_eq!(b.bucket_owner, "mock-owner");
    assert!(b.created_date > 0);
    assert!(b.permissions.is_empty());
    let listed = buckets.list_buckets();
    assert_eq!(listed.len(), 1);
    assert_eq!(listed[0].bucket_key, "test-bucket");
    assert!(buckets.get_bucket("test-bucket").is_some());
    assert!(buckets.delete_bucket("test-bucket"));
    assert!(!buckets.delete_bucket("test-bucket"));
    assert!(buckets.list_buckets().is_empty());
}

#[test]
fn bucket_created_at_given_time() {
    let mut buckets = BucketState::new();
    let b = buckets.create_bucket_at("k".to_string(), "persistent".to_string(), 1234);
    assert_eq!(b.created_date, 1234);
    let again = buckets.create_bucket_at("k".to_string(), "temporary".to_string(), 99);
    assert_eq!(again.policy_key, "temporary");
    assert_eq!(buckets.list_buckets().len(), 1);
}

#[test]
fn object_upload_then_list() {
    let mut objects = ObjectState::new();
    let o = objects.upload_object("test-bucket".to_string(), "model.rvt".to_string(), 42, None);
    assert_eq!(o.object_id, "urn:adsk.objects:os.object:test-bucket/model.rvt");
    assert_eq!(o.content_type, "application/octet-stream");
    assert_eq!(o.location, "https://developer.api.autodesk.com/oss/v2/buckets/test-bucket/objects/model.rvt");
    assert!(o.sha1.starts_with("sha1_"));
    assert!(o.sha1.len() > "sha1_".len());
    let listed = objects.list_objects("test-bucket");
    assert_eq!(listed.len(), 1);
    assert_eq!(listed[0].bucket_key, "test-bucket");
    assert_eq!(listed[0].object_key, "model.rvt");
    assert_eq!(listed[0].size, 42);
    assert!(objects.list_objects("other").is_empty());
}

#[test]
fn object_replace_get_and_delete() {
    let mut objects = ObjectState::new();
    let _ = objects.upload_object("b".to_string(), "o".to_string(), 1, None);
    let second = objects.upload_object("b".to_string(), "o".to_string(), 2, Some("text/plain".to_string()));
    assert_eq!(second.content_type, "text/plain");
    assert_eq!(objects.list_objects("b").len(), 1);
    assert_eq!(objects.get_object("b", "o").unwrap().size, 2);
    assert!(objects.get_object("b", "x").is_none());
    assert!(objects.delete_object("b", "o"));
    assert!(!objects.delete_object("b", "o"));
    assert!(!objects.delete_object("nope", "o"));
    assert!(objects.list_objects("b").is_empty());
}

#[test]
fn fresh_store_lists_the_default_hub() {
    let projects = ProjectState::new();
    let hubs = projects.list_hubs();
    assert_eq!(hubs.len(), 1);
    assert_eq!(hubs[0].id, "b.default-hub");
    assert_eq!(hubs[0].name, "Default Hub");
    assert_eq!(hubs[0].region, "US");
    let in_hub = projects.list_projects("b.default-hub");
    assert_eq!(in_hub.len(), 1);
    assert_eq!(in_hub[0].id, "b.default-project");
    assert_eq!(in_hub[0].hub_id, "b.default-hub");
    assert!(projects.list_projects("elsewhere").is_empty());
    assert!(projects.get_hub("b.default-hub").is_some());
    assert_eq!(projects.get_project("b.default-project").unwrap().name, "Default Project");
    assert!(projects.get_hub("missing").is_none());
}

#[test]
fn translation_job_progresses_to_success() {
    let mut jobs = TranslationState::new();
    let job = jobs.create_job_at("dXJu".to_string(), 7);
    assert_eq!(job.status, TranslationStatus::Pending);
    assert_eq!(job.progress, "0%");
    let steps = [
        (TranslationStatus::InProgress, "25%"),
        (TranslationStatus::InProgress, "50%"),
        (TranslationStatus::InProgress, "75%"),
        (TranslationStatus::InProgress, "100%"),
        (TranslationStatus::Success, "complete"),
        (TranslationStatus::Success, "complete"),
    ];
    for (status, progress) in steps {
        jobs.simulate_progress("dXJu");
        let j = jobs.get_job("dXJu").unwrap();
        assert_eq!(j.status, status);
        assert_eq!(j.progress, progress);
        assert_eq!(j.created_at, 7);
    }
}

#[test]
fn translation_progress_text_is_parsed_leniently() {
    let mut jobs = TranslationState::new();
    let _ = jobs.create_job("u".to_string());
    assert!(jobs.update_job_status("u", TranslationStatus::InProgress, "+40%%".to_string()));
    jobs.simulate_progress("u");
    assert_eq!(jobs.get_job("u").unwrap().progress, "65%");
    assert!(jobs.update_job_status("u", TranslationStatus::InProgress, "half".to_string()));
    jobs.simulate_progress("u");
    assert_eq!(jobs.get_job("u").unwrap().progress, "50%");
    assert!(jobs.update_job_status("u", TranslationStatus::InProgress, "99999999999%".to_string()));
    jobs.simulate_progress("u");
    assert_eq!(jobs.get_job("u").unwrap().progress, "50%");
    assert!(!jobs.update_job_status("missing", TranslationStatus::Failed, "x".to_string()));
    jobs.simulate_progress("missing");
    assert!(jobs.get_job("missing").is_none());
}

#[test]
fn translation_status_names() {
    assert_eq!(TranslationStatus::Pending.as_str(), "pending");
    assert_eq!(TranslationStatus::InProgress.as_str(), "inprogress");
    assert_eq!(TranslationStatus::Success.as_str(), "success");
    assert_eq!(TranslationStatus::Failed.as_str(), "failed");
}

#[test]
fn issues_are_scoped_by_project() {
    let mut issues = IssuesState::new();
    let a = issues.create_issue("p1".to_string(), "Leak".to_string(), Some("Roof".to_string()));
    let _ = issues.create_issue("p1".to_string(), "Crack".to_string(), None);
    let _ = issues.create_issue("p2".to_string(), "Other".to_string(), None);
    assert_eq!(a.status, "open");
    assert_eq!(a.project_id, "p1");
    assert!(!a.id.is_empty());
    assert_eq!(issues.list_issues("p1").len(), 2);
    assert_eq!(issues.list_issues("p2").len(), 1);
    assert!(issues.list_issues("p3").is_empty());
    assert!(issues.update_issue_status("p1", &a.id, "closed".to_string()));
    let updated = issues.get_issue("p1", &a.id).unwrap();
    assert_eq!(updated.status, "closed");
    assert_eq!(updated.title, "Leak");
    assert!(!issues.update_issue_status("p2", &a.id, "closed".to_string()));
    assert!(issues.get_issue("p2", &a.id).is_none());
}

#[test]
fn webhook_lifecycle() {
    let mut hooks = WebhooksState::new();
    let scope = WebhookScope { folder: Some("urn:folder".to_string()), project: None };
    let h = hooks.create_subscription("data".to_string(), "https://example.com/cb".to_string(), scope);
    let _ = hooks.create_subscription(
        "derivative".to_string(),
        "https://example.com/other".to_string(),
        WebhookScope { folder: None, project: None },
    );
    assert_eq!(h.status, "active");
    assert_eq!(h.scope.folder.as_deref(), Some("urn:folder"));
    assert_eq!(hooks.list_subscriptions().len(), 2);
    let data = WebhooksState::select_tenant(hooks.list_subscriptions(), "data");
    assert_eq!(data.len(), 1);
    assert_eq!(data[0].hook_id, h.hook_id);
    assert!(hooks.get_subscription(&h.hook_id).is_some());
    assert!(hooks.delete_subscription(&h.hook_id));
    assert!(!hooks.delete_subscription(&h.hook_id));
    assert_eq!(hooks.list_subscriptions().len(), 1);
}

#[test]
fn missing_header_is_rejected_with_auth_code() {
    let d = authorize("/oss/v2/buckets", None, None, 0);
    assert_eq!(d, AuthDecision::Reject(AuthFailure::MissingCredentials));
    if let AuthDecision::Reject(f) = d {
        assert_eq!(f.error_code(), "AUTH-001");
        assert_eq!(f.developer_message(), "Missing or malformed Authorization header. Expected: Bearer <token>");
    }
    let auth = AuthState::new();
    assert_eq!(
        authorize("/project/v1/hubs", None, Some(&auth), 0),
        AuthDecision::Reject(AuthFailure::MissingCredentials)
    );
}

#[test]
fn token_endpoint_needs_no_token() {
    assert_eq!(authorize("/authentication/v2/token", None, None, 0), AuthDecision::Allow);
    let auth = AuthState::new();
    assert_eq!(authorize("/authentication/v2/token", None, Some(&auth), 0), AuthDecision::Allow);
}

#[test]
fn bearer_tokens_checked_in_stateful_mode_only() {
    assert_eq!(authorize("/x", Some("Bearer anything"), None, 0), AuthDecision::Allow);
    assert_eq!(
        authorize("/x", Some("Basic abc"), None, 0),
        AuthDecision::Reject(AuthFailure::MissingCredentials)
    );
    let mut auth = AuthState::new();
    let t = auth.generate_token_at("c", 60, None, 100);
    let header = format!("Bearer {}", t.access_token);
    assert_eq!(authorize("/x", Some(&header), Some(&auth), 159), AuthDecision::Allow);
    assert_eq!(
        authorize("/x", Some(&header), Some(&auth), 160),
        AuthDecision::Reject(AuthFailure::InvalidToken)
    );
    assert_eq!(
        authorize("/x", Some("Bearer forged"), Some(&auth), 100),
        AuthDecision::Reject(AuthFailure::InvalidToken)
    );
    assert_eq!(AuthFailure::InvalidToken.developer_message(), "The access token provided is invalid or has expired.");
}

#[test]
fn state_manager_starts_fresh() {
    let s = StateManager::new();
    assert!(s.buckets.list_buckets().is_empty());
    assert_eq!(s.projects.list_hubs().len(), 1);
    assert!(s.load_from_file("state.json").is_ok());
    assert!(s.save_to_file("state.json").is_ok());
}

#[test]
fn decimal_notation() {
    assert_eq!(decimal_string(0), "0");
    assert_eq!(decimal_string(7), "7");
    assert_eq!(decimal_string(1000), "1000");
    assert_eq!(decimal_string(u64::MAX), "18446744073709551615");
}

#[test]
fn token_request_defaults_client_and_lifetime() {
    let mut auth = AuthState::new();
    let t = raps_mock::endpoints::issue_token(&mut auth, None, None);
    assert_eq!(t.client_id, "default-client");
    assert_eq!(t.expires_in, 3600);
    assert!(t.access_token.starts_with("mock_token_default-client_"));
    let named = raps_mock::endpoints::issue_token(&mut auth, Some("app"), Some("data:read".to_string()));
    assert_eq!(named.client_id, "app");
    assert_eq!(named.scope.as_deref(), Some("data:read"));
}

#[test]
fn bucket_request_with_key_and_policy() {
    let mut buckets = BucketState::new();
    let b = raps_mock::endpoints::create_requested_bucket(
        &mut buckets,
        Some("test-bucket".to_string()),
        Some("transient".to_string()),
    );
    assert_eq!(b.bucket_key, "test-bucket");
    assert_eq!(b.policy_key, "transient");
    assert!(b.created_date > 0);
    let d = raps_mock::endpoints::create_requested_bucket(&mut buckets, None, None);
    assert_eq!(d.bucket_key, "default-bucket");
    assert_eq!(d.policy_key, "transient");
}

#[test]
fn translation_issue_and_hook_requests_fill_defaults() {
    let mut jobs = TranslationState::new();
    let j = raps_mock::endpoints::start_translation(&mut jobs, None);
    assert_eq!(j.urn, "");
    let s = raps_mock::endpoints::manifest_summary(&j);
    assert_eq!(s.status, "pending");
    assert!(!s.complete);
    let mut issues = IssuesState::new();
    let i = raps_mock::endpoints::create_requested_issue(&mut issues, "p".to_string(), None, None);
    assert_eq!(i.title, "Untitled Issue");
    let mut hooks = WebhooksState::new();
    let h = raps_mock::endpoints::create_requested_hook(
        &mut hooks,
        "data".to_string(),
        None,
        WebhookScope { folder: None, project: None },
    );
    assert_eq!(h.callback_url, "https://example.com/webhook");
    assert_eq!(h.tenant, "data");
}

#[test]
fn finished_job_manifest_is_complete() {
    let mut jobs = TranslationState::new();
    let _ = jobs.create_job("u".to_string());
    assert!(jobs.update_job_status("u", TranslationStatus::Success, "complete".to_string()));
    let s = raps_mock::endpoints::manifest_summary(&jobs.get_job("u").unwrap());
    assert_eq!(s.status, "success");
    assert!(s.complete);
}

#[test]
fn manifest_urn_is_decoded_or_kept() {
    assert_eq!(raps_mock::endpoints::manifest_urn("dXJuOmFkc2s="), "urn:adsk");
    assert_eq!(raps_mock::endpoints::manifest_urn("not base64!"), "not base64!");
    assert_eq!(raps_mock::endpoints::urn_or_raw(Some("x".to_string()), "raw"), "x");
    assert_eq!(raps_mock::endpoints::urn_or_raw(None, "raw"), "raw");
}

#[test]
fn second_token_in_the_same_second_invalidates_the_first() {
    let mut auth = AuthState::new();
    let first = auth.generate_token_at("c", 3600, None, 100);
    let second = auth.generate_token_at("c", 3600, None, 100);
    let third = auth.generate_token_at("c", 3600, None, 100);
    assert_eq!(first.access_token, "mock_token_c_100");
    assert_eq!(second.access_token, "mock_token_c_100_r");
    assert_eq!(third.access_token, "mock_token_c_100_r_r");
    assert!(!auth.validate_token_at(&first.access_token, 100));
    assert!(!auth.validate_token_at(&second.access_token, 100));
    assert!(auth.validate_token_at(&third.access_token, 100));
    let later = auth.generate_token_at("c", 3600, None, 101);
    assert_eq!(later.access_token, "mock_token_c_101");
    assert!(!auth.validate_token_at(&third.access_token, 100));
}

#[test]
fn timed_creates_record_their_time_and_fresh_ids() {
    let mut issues = IssuesState::new();
    let a = issues.create_issue_at("p".to_string(), "t".to_string(), None, 42);
    let b = issues.create_issue_at("p".to_string(), "u".to_string(), None, 43);
    assert_eq!(a.created_at, 42);
    assert_eq!(b.created_at, 43);
    assert_ne!(a.id, b.id);
    assert_eq!(issues.list_issues("p").len(), 2);
    let mut hooks = WebhooksState::new();
    let h = hooks.create_subscription_at(
        "data".to_string(),
        "https://example.com/cb".to_string(),
        WebhookScope { folder: None, project: Some("p".to_string()) },
        7,
    );
    assert_eq!(h.created_at, 7);
    assert_eq!(hooks.get_subscription(&h.hook_id).unwrap().created_at, 7);
}

#[test]
fn object_digest_from_given_id() {
    let mut objects = ObjectState::new();
    let o = objects.upload_object_with_digest("b".to_string(), "k".to_string(), 3, None, "abc");
    assert_eq!(o.sha1, "sha1_abc");
    assert_eq!(objects.list_objects("b")[0].sha1, "sha1_abc");
}
