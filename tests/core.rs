use urlshortener::auth::{auth_finish, auth_start, check_api_key, to_lower_hex, AuthDecision, AuthStep, DenyReason};
use urlshortener::error::{internal_error, ServiceError};
use urlshortener::ident::{encode_id, generate_id, push_decimal};
use urlshortener::models::{Config, Link, LinkTarget, Server, Settings};
use urlshortener::protocol::{next_create_step, run_create_protocol, CreateStep, InsertOutcome, StoreError, MAX_CREATE_ATTEMPTS};
use urlshortener::redirect::{redirect_target, DEFAULT_CACHE_CONTROL_HEADER_VALUE};
use urlshortener::store::{LinkRepository, SETTINGS_ID};
use urlshortener::target::{settle, validate_target, RETRIES_EXHAUSTED_MESSAGE};
use urlshortener::timed::Timed;

const SECRET_DIGEST: &str = "f5a5207a8729b1f709cb710311751eb2fc8acad5a1fb8ac991b736e69b6529a3";

fn link(id: &str, url: &str) -> Link {
    Link { id: id.to_string(), target_url: url.to_string() }
}

fn settings() -> Settings {
    Settings { id: "DEFAULT_SETTINGS".to_string(), encrypted_global_api_key: SECRET_DIGEST.to_string() }
}

#[test]
fn decimal_digits_are_ascii() {
    let mut out = vec![7u8];
    push_decimal(4294967295, &mut out);
    assert_eq!(out, b"\x074294967295".to_vec());
    let mut zero = Vec::new();
    push_decimal(0, &mut zero);
    assert_eq!(zero, b"0".to_vec());
}

#[test]
fn encode_id_is_url_safe_base64_of_decimal() {
    assert_eq!(encode_id(0), "MA");
    assert_eq!(encode_id(42), "NDI");
    assert_eq!(encode_id(123), "MTIz");
    assert_eq!(encode_id(4294967294), "NDI5NDk2NzI5NA");
}

#[test]
fn generated_ids_are_short_and_url_safe() {
    for _ in 0..50 {
        let id = generate_id();
        assert!(!id.is_empty() && id.len() <= 14);
        assert!(id.chars().all(|c| c.is_ascii_alphanumeric() || c == '-' || c == '_'));
    }
}

#[test]
fn always_colliding_generator_stops_after_three_attempts() {
    let outcomes = vec![InsertOutcome::Collision, InsertOutcome::Collision, InsertOutcome::Collision, InsertOutcome::Collision, InsertOutcome::Collision];
    let (result, made) = run_create_protocol(outcomes, MAX_CREATE_ATTEMPTS);
    assert_eq!(made, 3);
    assert!(matches!(result, Err(StoreError::RetriesExhausted)));
}

#[test]
fn collision_then_insert_succeeds_on_second_attempt() {
    let outcomes = vec![InsertOutcome::Collision, InsertOutcome::Inserted(link("abc", "https://a.example/"))];
    let (result, made) = run_create_protocol(outcomes, 3);
    assert_eq!(made, 2);
    match result {
        Ok(l) => assert_eq!(l.id, "abc"),
        Err(_) => panic!("expected a link"),
    }
}

#[test]
fn backend_failure_is_never_retried() {
    let outcomes = vec![InsertOutcome::Failed("connection refused".to_string()), InsertOutcome::Inserted(link("x", "y"))];
    let (result, made) = run_create_protocol(outcomes, 3);
    assert_eq!(made, 1);
    assert!(matches!(result, Err(StoreError::Backend(m)) if m == "connection refused"));
}

#[test]
fn injectable_limit_is_honoured() {
    let (result, made) = run_create_protocol(vec![InsertOutcome::Collision; 10], 5);
    assert_eq!(made, 5);
    assert!(matches!(result, Err(StoreError::RetriesExhausted)));
    assert!(matches!(next_create_step(2, 3, InsertOutcome::Collision), CreateStep::Retry(3)));
    assert!(matches!(next_create_step(3, 3, InsertOutcome::Collision), CreateStep::Done(Err(StoreError::RetriesExhausted))));
}

#[test]
fn created_links_have_distinct_ids_and_can_be_read_back() {
    let mut repo = LinkRepository::new();
    let mut ids = Vec::new();
    for i in 0..20 {
        let url = format!("https://example.com/{i}");
        let l = repo.create_link(&url).expect("created");
        assert_eq!(l.target_url, url);
        assert!(!ids.contains(&l.id));
        let got = repo.get_link(&l.id).expect("no backend failure").expect("found");
        assert_eq!(got.target_url, url);
        ids.push(l.id);
    }
}

#[test]
fn get_link_of_unknown_id_is_not_found() {
    let repo = LinkRepository::new();
    let got = repo.get_link(&"nonexistent".to_string());
    assert!(matches!(got, Ok(None)));
    let decision = redirect_target(Timed::Completed(()), Timed::Completed(None));
    assert!(matches!(decision, Err(ServiceError::NotFound)));
}

#[test]
fn update_of_missing_link_is_a_backend_failure() {
    let mut repo = LinkRepository::new();
    let r = repo.update_link(&"nope".to_string(), &"https://b.example/".to_string());
    assert!(matches!(r, Err(StoreError::Backend(_))));
    assert!(matches!(settle(Timed::Completed(r)), Err(ServiceError::BackendFailure(_))));
}

#[test]
fn update_replaces_target() {
    let mut repo = LinkRepository::new();
    let l = repo.create_link(&"https://a.example/".to_string()).expect("created");
    let u = repo.update_link(&l.id, &"https://b.example/".to_string()).expect("updated");
    assert_eq!(u.id, l.id);
    assert_eq!(u.target_url, "https://b.example/");
    let got = repo.get_link(&l.id).expect("ok").expect("found");
    assert_eq!(got.target_url, "https://b.example/");
}

#[test]
fn three_identical_events_form_one_group() {
    let mut repo = LinkRepository::new();
    let id = "abc".to_string();
    let referer = Some("https://ref.example/".to_string());
    let agent = Some("curl/8".to_string());
    for _ in 0..3 {
        repo.add_statistic(&id, &referer, &agent).expect("recorded");
    }
    repo.add_statistic(&"other".to_string(), &referer, &agent).expect("recorded");
    let groups = repo.get_link_statistic(&id).expect("ok");
    assert_eq!(groups.len(), 1);
    assert_eq!(groups[0].amount, Some(3));
    assert_eq!(groups[0].referer, referer);
    assert_eq!(groups[0].user_agent, agent);
}

#[test]
fn statistics_group_by_referer_and_agent() {
    let mut repo = LinkRepository::new();
    let id = "abc".to_string();
    repo.add_statistic(&id, &None, &None).expect("recorded");
    repo.add_statistic(&id, &Some("r".to_string()), &None).expect("recorded");
    repo.add_statistic(&id, &None, &None).expect("recorded");
    repo.add_statistic(&id, &None, &Some("r".to_string())).expect("recorded");
    let mut groups: Vec<(i64, Option<String>, Option<String>)> = repo
        .get_link_statistic(&id)
        .expect("ok")
        .into_iter()
        .map(|g| (g.amount.unwrap(), g.referer, g.user_agent))
        .collect();
    groups.sort();
    assert_eq!(groups, vec![(1, None, Some("r".to_string())), (1, Some("r".to_string()), None), (2, None, None)]);
    assert!(repo.get_link_statistic(&"none".to_string()).expect("ok").is_empty());
}

#[test]
fn settings_row_must_exist() {
    let mut repo = LinkRepository::new();
    assert!(matches!(repo.get_settings(), Err(StoreError::Backend(_))));
    repo.set_settings(settings());
    let s = repo.get_settings().expect("present");
    assert_eq!(s.encrypted_global_api_key, SECRET_DIGEST);
    assert_eq!(s.id, "DEFAULT_SETTINGS");
}

#[test]
fn lower_hex_has_two_digits_per_byte() {
    assert_eq!(to_lower_hex(&[0x00, 0x0f, 0xab, 0xff]), b"000fabff".to_vec());
    assert!(to_lower_hex(&[]).is_empty());
}

#[test]
fn guard_accepts_exactly_the_stored_key() {
    let s = settings();
    assert!(check_api_key("secret", &s));
    assert!(!check_api_key("secret ", &s));
    assert!(!check_api_key("", &s));
    assert!(!check_api_key("Secret", &s));
    assert!(matches!(auth_finish("secret", Timed::Completed(s.clone())), AuthDecision::Allow));
    assert!(matches!(auth_finish("secret\n", Timed::Completed(s)), AuthDecision::Deny(DenyReason::InvalidKey)));
}

#[test]
fn guard_without_key_denies_before_fetching() {
    assert!(matches!(auth_start(None), AuthStep::Finish(AuthDecision::Deny(DenyReason::NoKeyHeader))));
    assert!(matches!(auth_start(Some("k".to_string())), AuthStep::FetchSettings(k) if k == "k"));
}

#[test]
fn guard_settings_failure_is_internal_not_denial() {
    let late = auth_finish("secret", Timed::TimedOut);
    assert!(matches!(late, AuthDecision::Fail(ServiceError::Timeout)));
    let failed = auth_finish("secret", Timed::Failed("pool timed out".to_string()));
    assert!(matches!(failed, AuthDecision::Fail(ServiceError::BackendFailure(ref m)) if m == "pool timed out"));
}

#[test]
fn failed_statistic_write_keeps_redirect() {
    let target = "https://target.example/path";
    for stat in [Timed::Completed(()), Timed::Failed("insert failed".to_string()), Timed::TimedOut] {
        let r = redirect_target(stat, Timed::Completed(Some(link("abc", target))));
        assert!(matches!(r, Ok(ref loc) if loc == target));
    }
    assert!(DEFAULT_CACHE_CONTROL_HEADER_VALUE.contains("max-age=300"));
    assert!(DEFAULT_CACHE_CONTROL_HEADER_VALUE.contains("stale-while-revalidate=300"));
    assert!(DEFAULT_CACHE_CONTROL_HEADER_VALUE.contains("stale-if-error=300"));
}

#[test]
fn late_link_fetch_is_a_timeout() {
    for stat in [Timed::Completed(()), Timed::Failed("insert failed".to_string()), Timed::TimedOut] {
        let r = redirect_target(stat, Timed::TimedOut);
        match r {
            Err(e) => {
                assert!(matches!(e, ServiceError::Timeout));
                assert_eq!(e.status_code(), 500);
            }
            Ok(_) => panic!("expected a timeout"),
        }
    }
    let failed = redirect_target(Timed::Completed(()), Timed::Failed("db down".to_string()));
    assert!(matches!(failed, Err(ServiceError::BackendFailure(ref m)) if m == "db down"));
}

#[test]
fn target_urls_are_parsed_and_normalised() {
    let ok = validate_target(&LinkTarget { target_url: "https://example.com".to_string() });
    assert!(matches!(ok, Ok(ref u) if u == "https://example.com/"));
    let bad = validate_target(&LinkTarget { target_url: "not a url".to_string() });
    assert!(matches!(bad, Err(ServiceError::InvalidInput)));
}

#[test]
fn status_codes_follow_the_taxonomy() {
    assert_eq!(ServiceError::Unauthenticated.status_code(), 401);
    assert_eq!(ServiceError::NotFound.status_code(), 404);
    assert_eq!(ServiceError::InvalidInput.status_code(), 409);
    assert_eq!(ServiceError::RetriesExhausted.status_code(), 500);
    assert_eq!(ServiceError::Timeout.status_code(), 500);
    assert_eq!(ServiceError::BackendFailure("x".to_string()).status_code(), 500);
    assert_eq!(internal_error("boom".to_string()), (500, "boom".to_string()));
}

#[test]
fn settle_maps_store_outcomes() {
    assert!(matches!(settle(Timed::Completed(Ok::<u8, StoreError>(4))), Ok(4)));
    assert!(matches!(settle(Timed::Completed(Err::<u8, StoreError>(StoreError::RetriesExhausted))), Err(ServiceError::BackendFailure(ref m)) if m == RETRIES_EXHAUSTED_MESSAGE));
    assert!(matches!(settle(Timed::Completed(Err::<u8, StoreError>(StoreError::Backend("db".to_string())))), Err(ServiceError::BackendFailure(ref m)) if m == "db"));
    assert!(matches!(settle(Timed::<Result<u8, StoreError>>::TimedOut), Err(ServiceError::Timeout)));
}

#[test]
fn server_keeps_its_config() {
    let server = Server::new(Config { host: "0.0.0.0".to_string(), port: "3000".to_string(), db_url: "postgres://db".to_string() });
    assert_eq!(server.config().port, "3000");
    assert_eq!(server.config().host, "0.0.0.0");
}

#[test]
fn settings_row_with_another_id_is_missing() {
    let mut repo = LinkRepository::new();
    repo.set_settings(Settings { id: "OTHER".to_string(), encrypted_global_api_key: SECRET_DIGEST.to_string() });
    assert!(matches!(repo.get_settings(), Err(StoreError::Backend(_))));
    assert_eq!(SETTINGS_ID, "DEFAULT_SETTINGS");
}

#[test]
fn create_with_candidates_stores_first_free_id() {
    let mut repo = LinkRepository::new();
    let url = "https://a.example/".to_string();
    let ids = vec!["a".to_string(), "b".to_string(), "c".to_string()];
    let (first, made) = repo.create_link_with(&ids, &url);
    assert_eq!(made, 1);
    assert_eq!(first.expect("created").id, "a");
    let (second, made) = repo.create_link_with(&ids, &url);
    assert_eq!(made, 2);
    assert_eq!(second.expect("created").id, "b");
    let ids = vec!["a".to_string(), "b".to_string(), "c".to_string(), "d".to_string()];
    let (third, made) = repo.create_link_with(&ids, &url);
    assert_eq!(made, 3);
    assert_eq!(third.expect("created").id, "c");
}

#[test]
fn create_with_colliding_candidates_stops_after_three() {
    let mut repo = LinkRepository::new();
    let url = "https://a.example/".to_string();
    repo.create_link_with(&vec!["taken".to_string()], &url).0.expect("created");
    let ids = vec!["taken".to_string(); 4];
    let (r, made) = repo.create_link_with(&ids, &url);
    assert_eq!(made, 3);
    assert!(matches!(r, Err(StoreError::RetriesExhausted)));
    let fresh = vec!["taken".to_string(), "taken".to_string(), "taken".to_string(), "free".to_string()];
    let (r, made) = repo.create_link_with(&fresh, &url);
    assert_eq!(made, 3);
    assert!(matches!(r, Err(StoreError::RetriesExhausted)));
    assert!(matches!(repo.get_link(&"free".to_string()), Ok(None)));
    let (r, made) = repo.create_link_with(&Vec::new(), &url);
    assert_eq!(made, 0);
    assert!(matches!(r, Err(StoreError::RetriesExhausted)));
}
