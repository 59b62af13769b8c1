//! Credential routes, failover and the scheduler's decisions.

use std::future::Future;
use std::pin::Pin;
use std::sync::Arc;

use object_store::aws::{AmazonS3Builder, AwsCredential};
use object_store::CredentialProvider;
use swarmy_store::blobs::{regional_mode, s3_namespace, BlobError, MemoryBlobs};
use swarmy_store::config::Config;
use swarmy_store::error::StoreError;
use swarmy_store::events::Event;
use swarmy_store::ids::{AgentId, LeaseOwnerId, RequestId, SessionId};
use swarmy_store::routes::{
    already_handled, earliest_retry, expand_chain, failover_reasons, failover_route_step,
    is_unserved_error, listed_route, order_pool, put_route, route_entry_labels, route_name,
    route_provider, route_providers, route_snapshot, set_session_route, skipped_step_reason,
    usable_labels, write_route_step, ExpandedChain, ExpandedRouteStep, FailoverAction, PoolEntry,
    RouteRecord, RouteSnapshot, RouteStep, RouteStepStatus,
};
use swarmy_store::scheduler::{
    breaker_park, due_sessions, may_park, next_cursor, nudge_step, owned_leases, prune_cutoff,
    wake_reply, CachedBreaker, NudgeStep, TickCache, WakeReply,
};
use swarmy_store::session::{Lease, RunnableEntry, SessionRows, SessionState, StoredSession};
use swarmy_store::textmap::TextMap;
use swarmy_store::time::{Duration, Timestamp};
use swarmy_store::waits::{Breaker, InferenceWait};

fn at(second: i64) -> Timestamp {
    Timestamp::from_second(second).unwrap()
}

fn text(value: &str) -> Option<String> {
    Some(value.to_owned())
}

fn entry(label: &str, ready: bool) -> PoolEntry {
    PoolEntry { label: label.to_owned(), ready }
}

fn pools(list: Vec<(&str, Vec<PoolEntry>)>) -> TextMap<Vec<PoolEntry>> {
    let mut map = TextMap::new();
    for (provider, pool) in list {
        map.insert(provider.to_owned(), pool);
    }
    map
}

fn step(provider: &str, entry: &str, model: Option<String>) -> RouteStep {
    RouteStep { provider: provider.to_owned(), entry: entry.to_owned(), model }
}

fn route(steps: Vec<RouteStep>) -> RouteRecord {
    RouteRecord { name: "r".into(), steps, updated_at: at(1) }
}

fn expanded(provider: &str, label: Option<String>) -> ExpandedRouteStep {
    ExpandedRouteStep { provider: provider.to_owned(), label, model: None }
}

fn same_steps(chain: &ExpandedChain, expected: &[(&str, Option<&str>)]) -> bool {
    chain.steps.len() == expected.len()
        && chain.steps.iter().zip(expected).all(|(step, (provider, label))| {
            step.provider == *provider && step.label.as_deref() == *label
        })
}

#[test]
fn implicit_routes_follow_the_pool() {
    let pool = pools(vec![("p", vec![entry("a", false), entry("b", true), entry("c", true)])]);
    let chain = expand_chain(None, &pool, "p");
    assert!(chain.name.is_none() && chain.skipped.is_empty());
    assert!(same_steps(&chain, &[("p", Some("b")), ("p", Some("c"))]));
    let unready = pools(vec![("p", vec![entry("a", false), entry("b", false)])]);
    assert!(same_steps(
        &expand_chain(None, &unready, "p"),
        &[("p", Some("a")), ("p", Some("b"))]
    ));
    assert!(same_steps(&expand_chain(None, &pools(vec![]), "p"), &[("p", None)]));
    assert_eq!(usable_labels(&vec![entry("a", false), entry("b", true)]), vec!["b".to_owned()]);
}

#[test]
fn named_steps_need_a_ready_entry() {
    let pool = pools(vec![
        ("p", vec![entry("a", false), entry("b", true)]),
        ("q", vec![entry("x", true)]),
    ]);
    let record = route(vec![step("p", "a", None), step("q", "x", text("m")), step("p", "*", None)]);
    let chain = expand_chain(Some(&record), &pool, "p");
    assert_eq!(chain.name, text("r"));
    assert_eq!(chain.skipped, vec![skipped_step_reason("p", "a")]);
    assert_eq!(
        chain.skipped[0],
        "p/a names an entry with no ready credential; trying the next step"
    );
    assert!(same_steps(&chain, &[("q", Some("x")), ("p", Some("b"))]));
    assert_eq!(chain.steps[0].model, text("m"));
}

#[test]
fn routes_are_chosen_from_the_narrowest_setting() {
    assert_eq!(route_name(&text("s"), &text("a"), &text("d")), text("s"));
    assert_eq!(route_name(&None, &text("a"), &text("d")), text("a"));
    assert_eq!(route_name(&None, &None, &text("d")), text("d"));
    assert_eq!(route_name(&None, &None, &None), None);
    assert_eq!(route_provider(&text("s"), &text("a"), "d"), "s");
    assert_eq!(route_provider(&None, &None, "d"), "d");
    let record = route(vec![step("p", "*", None), step("q", "*", None), step("p", "a", None)]);
    let providers = route_providers(Some(&record), "z");
    assert!(providers.contains(&"p".to_owned()) && providers.contains(&"q".to_owned()));
    assert_eq!(providers.iter().filter(|name| *name == "p").count(), 1);
    assert_eq!(route_providers(None, "z"), vec!["z".to_owned()]);
}

#[test]
fn pools_are_ordered_by_age_and_label() {
    let entries = vec![
        (at(5), entry("b", true)),
        (at(5), entry("a", true)),
        (at(1), entry("z", false)),
    ];
    let ordered: Vec<String> = order_pool(&entries).into_iter().map(|e| e.label).collect();
    assert_eq!(ordered, ["z", "a", "b"]);
    assert_eq!(route_entry_labels(&entries), ["z", "a", "b"]);
}

fn status(open: Option<i64>, reason: &str) -> RouteStepStatus {
    RouteStepStatus {
        provider: "p".into(),
        label: None,
        model: None,
        open_until: open.map(at),
        reason: open.map(|_| reason.to_owned()),
    }
}

fn snapshot(steps: Vec<RouteStepStatus>) -> RouteSnapshot {
    RouteSnapshot { name: text("r"), steps, skipped: vec![] }
}

#[test]
fn picks_wrap_and_skip_open_steps() {
    let chain = snapshot(vec![status(None, ""), status(Some(9), "b"), status(None, "")]);
    assert_eq!(chain.pick(0), Some(0));
    assert_eq!(chain.pick(1), Some(2));
    assert_eq!(chain.pick(3), Some(0));
    let open = snapshot(vec![status(Some(9), "a"), status(Some(4), "b"), status(Some(4), "c")]);
    assert_eq!(open.pick(0), None);
    assert_eq!(open.pick_or_earliest(2), 1);
    assert_eq!(open.earliest(), Some((at(4), "b".into())));
    assert_eq!(earliest_retry(&open, at(2)), at(2));
    assert_eq!(earliest_retry(&open, at(7)), at(4));
    assert_eq!(earliest_retry(&chain, at(99)), at(9));
    let chain = ExpandedChain {
        name: None,
        steps: vec![expanded("p", None), expanded("p", text("l"))],
        skipped: vec![],
    };
    let open = Breaker { open_until: at(50), failures: 1, probe_until: None, reason: "down".into() };
    let joined = route_snapshot(chain, &vec![None, Some(open)], at(1));
    assert_eq!(joined.steps[0].open_until, None);
    assert_eq!(joined.steps[1].open_until, Some(at(50)));
    assert_eq!(joined.steps[1].reason, text("down"));
}

fn lease() -> Lease {
    Lease { owner: LeaseOwnerId(7), expires_at: at(100), seq: 5 }
}

fn leased() -> SessionRows {
    SessionRows {
        session: Some(StoredSession {
            session_id: SessionId(5),
            agent_id: AgentId(1),
            state: SessionState::Leased,
            head_seq: 4,
            snapshot_seq: None,
        }),
        lease: Some(lease()),
        runnable: None,
        state_since: None,
        idle_since: None,
        interrupt: false,
    }
}

#[test]
fn failures_move_on_or_park_once() {
    let chain =
        snapshot(vec![status(Some(60), "limit"), status(Some(70), "busy"), status(None, "")]);
    let max = Duration::from_secs(1_000);
    let moved = failover_route_step(
        &leased(), &lease(), None, 4, "limit", at(80), 0, &chain, at(2), max,
    )
    .unwrap();
    assert_eq!(moved.outcome.action, FailoverAction::AdvanceTo(2));
    assert_eq!(moved.route_step, Some(2));
    let wait = moved.wait.clone().unwrap();
    assert_eq!(wait.reasons, vec!["limit".to_owned(), "busy".to_owned()]);
    assert!(already_handled(&moved.wait, 4));
    let again = failover_route_step(
        &leased(), &lease(), moved.wait, 4, "limit", at(80), 2, &chain, at(3), max,
    )
    .unwrap();
    assert_eq!(again.outcome.action, FailoverAction::AlreadyHandled);
    assert_eq!(again.route_step, None);
    let open = snapshot(vec![status(Some(60), "limit"), status(Some(70), "busy")]);
    let parked = failover_route_step(
        &leased(), &lease(), None, 4, "limit", at(80), 0, &open, at(2), max,
    )
    .unwrap();
    assert_eq!(parked.outcome.action, FailoverAction::Park);
    assert_eq!(parked.rows.session.unwrap().state, SessionState::Sleeping);
    assert_eq!(parked.add_due, Some(at(60)));
    assert_eq!(parked.route_step, Some(0));
    let unserved = failover_route_step(
        &leased(),
        &lease(),
        None,
        4,
        "no gateway serves provider p",
        at(80),
        1,
        &chain,
        at(2),
        max,
    )
    .unwrap();
    assert_eq!(unserved.outcome.action, FailoverAction::Park);
    assert_eq!(unserved.add_due, Some(at(80)));
    assert_eq!(unserved.route_step, None);
    assert!(is_unserved_error("no gateway serves provider p"));
    assert!(!is_unserved_error("the no gateway serves provider p"));
    let stale = Lease { seq: 9, ..lease() };
    assert_eq!(
        failover_route_step(&leased(), &stale, None, 4, "x", at(80), 0, &chain, at(2), max).err(),
        Some(StoreError::LeaseMismatch)
    );
    assert_eq!(failover_reasons(&chain, 0, 1, "x"), vec!["x".to_owned()]);
    assert!(write_route_step(None, 4, &vec![], at(1)).is_none());
}

#[test]
fn stored_routes_keep_their_names() {
    assert!(put_route("r", vec![step("p", "*", None)], None, at(1)).is_ok());
    assert_eq!(
        put_route("r", vec![], text("empty"), at(1)).err(),
        Some(StoreError::InvalidRoute("empty".into()))
    );
    assert!(listed_route("r", route(vec![])).is_ok());
    assert_eq!(listed_route("other", route(vec![])).err(), Some(StoreError::Corrupt));
    assert_eq!(set_session_route(&leased(), text("r"), true), Ok((text("r"), 0)));
    assert_eq!(set_session_route(&leased(), None, false), Ok((None, 0)));
    assert_eq!(set_session_route(&leased(), text("r"), false), Err(StoreError::RouteMissing));
    let gone = SessionRows { session: None, ..leased() };
    assert_eq!(set_session_route(&gone, None, false), Err(StoreError::SessionMissing));
}

#[test]
fn one_tick_reads_each_breaker_once() {
    let mut cache = TickCache::new();
    let wanted = vec!["p".to_owned(), "q".to_owned()];
    assert_eq!(cache.missing_pools(&wanted), wanted);
    cache.pools.insert("p".into(), vec![]);
    assert_eq!(cache.missing_pools(&wanted), vec!["q".to_owned()]);
    let chain = || ExpandedChain {
        name: text("r"),
        steps: vec![expanded("p", None), expanded("p", text("l"))],
        skipped: vec!["why".into()],
    };
    assert_eq!(
        cache.missing_breakers(&chain()),
        vec![("p".to_owned(), None), ("p".to_owned(), text("l"))]
    );
    cache.breakers.push(CachedBreaker {
        provider: "p".into(),
        label: text("l"),
        open_until: Some(at(9)),
        reason: text("down"),
    });
    assert_eq!(cache.missing_breakers(&chain()), vec![("p".to_owned(), None)]);
    let seen = cache.snapshot(chain());
    assert_eq!(seen.name, text("r"));
    assert_eq!(seen.skipped, vec!["why".to_owned()]);
    assert_eq!(seen.steps[0].open_until, None);
    assert_eq!((seen.steps[1].open_until, seen.steps[1].reason.clone()), (Some(at(9)), text("down")));
}

fn config(partitions: &str) -> Config {
    Config::from_env(&text(partitions), &None, &None).unwrap()
}

#[test]
fn nudges_follow_partition_state_and_interrupts() {
    let step =
        |partition, state, interrupt| nudge_step(&config("0-127"), partition, state, interrupt);
    assert_eq!(step(128, SessionState::Runnable, false), NudgeStep::Skip);
    assert_eq!(step(127, SessionState::Idle, true), NudgeStep::Send);
    assert_eq!(step(0, SessionState::Runnable, true), NudgeStep::FinishInterrupt);
    assert_eq!(step(0, SessionState::Runnable, false), NudgeStep::CheckBreakers);
    let open = snapshot(vec![status(Some(60), "limit")]);
    assert_eq!(breaker_park(&open, 0), Some((at(60), "limit".into())));
    assert_eq!(breaker_park(&snapshot(vec![status(None, "")]), 3), None);
}

#[test]
fn disjoint_instances_reap_their_own_partitions() {
    let page = vec![(SessionId(1), lease(), 0u16), (SessionId(2), lease(), 200u16)];
    assert_eq!(owned_leases(&config("0-127"), &page), vec![(SessionId(1), lease())]);
    assert_eq!(owned_leases(&config("128-255"), &page), vec![(SessionId(2), lease())]);
    // A short page is the last one.
    assert_eq!(next_cursor(&page), None);
    assert_eq!(next_cursor(&(0..64).collect::<Vec<u8>>()), Some(63));
}

#[test]
fn future_wake_times_do_not_hide_due_entries() {
    let entry = |id: u128, priority: i64, wake: i64| RunnableEntry {
        session_id: SessionId(id),
        priority,
        wake_at: at(wake),
    };
    let page = vec![entry(1, 0, 60), entry(2, 1, 5), entry(3, 9, 6)];
    assert_eq!(due_sessions(&page, at(5)), vec![SessionId(2)]);
    assert_eq!(due_sessions(&page, at(60)).len(), 3);
}

#[test]
fn failures_are_taken_in_before_parking() {
    let failed = Event::InferenceFailed {
        seq: 4,
        request_id: RequestId::for_step(SessionId(5), 3),
        error: "x".into(),
        retryable: true,
        retry_at: None,
    };
    let wait = |since: i64, seen: u64| {
        Some(InferenceWait {
            since: at(since),
            wake_at: at(since),
            last_failure_seq: seen,
            reasons: vec![],
            attempts: 0,
        })
    };
    let max = Duration::from_secs(10);
    assert!(!may_park(&None, 4, Some(&failed), max, at(1)));
    assert!(!may_park(&wait(0, 3), 4, Some(&failed), max, at(1)));
    assert!(may_park(&wait(0, 4), 4, Some(&failed), max, at(1)));
    assert!(may_park(&wait(0, 4), 4, None, max, at(9)));
    assert!(!may_park(&wait(0, 4), 4, None, max, at(10)));
    assert!(may_park(&None, 0, None, max, at(10)));
}

#[test]
fn wake_requests_are_answered_by_state() {
    assert!(matches!(wake_reply(&Ok(SessionState::Idle)), (WakeReply::Runnable, true)));
    assert!(matches!(wake_reply(&Ok(SessionState::Runnable)), (WakeReply::Runnable, false)));
    assert!(matches!(
        wake_reply(&Ok(SessionState::Leased)),
        (WakeReply::Unchanged(SessionState::Leased), false)
    ));
    assert!(matches!(wake_reply(&Err(StoreError::SessionMissing)), (WakeReply::NotFound, false)));
    assert!(matches!(
        wake_reply(&Err(StoreError::Corrupt)),
        (WakeReply::Failed(reason), false) if reason == StoreError::Corrupt.message()
    ));
    assert_eq!(prune_cutoff(at(1_000_000), 1), Some(at(1_000_000 - 86_400)));
    assert_eq!(prune_cutoff(at(0), u64::MAX), None);
}

#[derive(Debug)]
struct DefaultAwsCredentials;

type Credentials<'a> =
    Pin<Box<dyn Future<Output = object_store::Result<Arc<AwsCredential>>> + Send + 'a>>;

impl CredentialProvider for DefaultAwsCredentials {
    type Credential = AwsCredential;

    fn get_credential<'a, 'b>(&'a self) -> Credentials<'b>
    where
        'a: 'b,
        Self: 'b,
    {
        Box::pin(async {
            Err(object_store::Error::NotImplemented {
                operation: "credentials".into(),
                implementer: "test".into(),
            })
        })
    }
}

fn client(endpoint: &str, region: &str, access_key: &str, secret_key: &str) -> String {
    let mut builder = AmazonS3Builder::new().with_bucket_name("bucket").with_region(region);
    let (regional, default_credentials) = regional_mode(endpoint, access_key, secret_key);
    builder = builder.with_virtual_hosted_style_request(regional);
    if !regional {
        builder = builder.with_endpoint(endpoint).with_allow_http(true);
    }
    if default_credentials {
        builder = builder.with_credentials(Arc::new(DefaultAwsCredentials));
    } else {
        builder = builder.with_access_key_id(access_key).with_secret_access_key(secret_key);
    }
    format!("{:?}", builder.build().unwrap())
}

#[test]
fn regional_and_custom_modes_build_without_network() {
    assert_eq!(regional_mode("http://127.0.0.1:8333", "key", "secret"), (false, false));
    let debug = client("http://127.0.0.1:8333", "us-east-1", "key", "secret");
    assert!(debug.contains("http://127.0.0.1:8333/bucket"));
    assert!(debug.contains("StaticCredentialProvider"));
    assert_eq!(regional_mode("", "", ""), (true, true));
    let debug = client("", "us-east-1", "", "");
    assert!(debug.contains("https://bucket.s3.us-east-1.amazonaws.com"));
    assert!(debug.contains("DefaultAwsCredentials"));
    assert_eq!(regional_mode("", "key", ""), (true, false));
}

#[test]
fn bucket_profile_uses_laptop_credentials_and_region() {
    assert_eq!(s3_namespace("bucket", ""), Some(("bucket".into(), String::new())));
    let regional = client("", "eu-west-1", "", "");
    assert!(regional.contains("https://bucket.s3.eu-west-1.amazonaws.com"));
    assert!(regional.contains("DefaultAwsCredentials"));
}

#[test]
fn legacy_namespace_builds_and_ambiguity_is_rejected() {
    assert_eq!(
        s3_namespace("bucket/run/nested", ""),
        Some(("bucket".into(), "run/nested".into()))
    );
    assert_eq!(s3_namespace("bucket/run/nested", "explicit"), None);
    for value in ["", "/run", "bucket/", "bucket/a//b", "bucket/a/../b", "bucket/a/"] {
        assert!(s3_namespace(value, "").is_none(), "{value}");
    }
    assert_eq!(s3_namespace("bucket", "run"), Some(("bucket".into(), "run".into())));
    assert_eq!(s3_namespace("bucket", ""), Some(("bucket".into(), String::new())));
    assert_eq!(s3_namespace("bucket", "run/."), None);
}

#[test]
fn memory_blobs_round_trip_and_report_missing_keys() {
    let mut blobs = MemoryBlobs::new();
    assert!(matches!(
        blobs.get("absent"),
        Err(BlobError::Missing(key)) if key == "absent"
    ));
    let payload = vec![17; 200 * 1024];
    blobs.put("payload", payload.clone());
    blobs.put("payload", payload.clone());
    assert_eq!(blobs.get("payload").unwrap(), payload);
    blobs.put("payload", vec![1]);
    assert_eq!(blobs.get("payload").unwrap(), vec![1]);
}
