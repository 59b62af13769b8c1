//! Credentials: sealing, entries, pools and refreshes.

use swarmy_store::credentials::{
    breaker_keys, breaker_snapshot, credential_entry_labels, credential_fingerprint, decode_entry,
    entry_identity, entry_kind, entry_readiness, entry_ready, first_entry, list_entries,
    migrate_legacy, provider_entries, put_entry, touch_entry, CredentialKind, CredentialRecord,
    CredentialStatus, CredentialSummary, EntryValue, LegacyEntryValue,
};
use swarmy_store::error::StoreError;
use swarmy_store::ids::{AgentId, LeaseOwnerId};
use swarmy_store::refresh::{
    check_refresh, claim_refresh, finish_entry_refresh, finish_refresh, grant_refresh,
    refresh_answer, refresh_result, refresh_time, same_record, Claim, RefreshOutcome,
};
use swarmy_store::sealing::{
    associated_data, decrypt, encrypt, encrypt_with, CredentialScope, Keyring,
};
use swarmy_store::session::Lease;
use swarmy_store::textmap::TextMap;
use swarmy_store::time::{Duration, Timestamp};
use swarmy_store::waits::{Breaker, CredentialKey};

fn at(second: i64) -> Timestamp {
    Timestamp::from_second(second).unwrap()
}

fn facts(list: &[(&str, &str)]) -> TextMap<String> {
    let mut map = TextMap::new();
    for (key, value) in list {
        map.insert((*key).to_owned(), (*value).to_owned());
    }
    map
}

fn key_record(list: &[(&str, &str)]) -> CredentialRecord {
    CredentialRecord {
        kind: CredentialKind::ApiKey { key: "secret".into(), extra: facts(list) },
        updated_at: at(3),
    }
}

fn oauth(expires_at: Timestamp) -> CredentialRecord {
    CredentialRecord {
        kind: CredentialKind::OAuth {
            access: "a".into(),
            refresh: "r".into(),
            expires_at,
            extra: facts(&[]),
        },
        updated_at: at(3),
    }
}

#[test]
fn authenticated_round_trip() {
    let key = Keyring::from_bytes([1; 32]);
    let record = b"{\"key\":\"secret\"}".to_vec();
    let bytes = encrypt(&key, CredentialScope::Cluster, "openai", &record).unwrap();
    assert!(decrypt(&key, CredentialScope::Cluster, "openai", &bytes).unwrap() == record);
    assert!(matches!(
        decrypt(&key, CredentialScope::Cluster, "anthropic", &bytes),
        Err(StoreError::Keyring)
    ));
    assert!(matches!(
        decrypt(
            &Keyring::from_bytes([2; 32]),
            CredentialScope::Cluster,
            "openai",
            &bytes
        ),
        Err(StoreError::Keyring)
    ));
    let agent = CredentialScope::Agent(AgentId(ulid::Ulid::from_parts(1, 2).into()));
    assert!(matches!(
        decrypt(&key, agent, "openai", &bytes),
        Err(StoreError::Keyring)
    ));
    for short in [vec![], vec![0; 23], vec![0; 24]] {
        assert!(matches!(
            decrypt(&key, CredentialScope::Cluster, "openai", &short),
            Err(StoreError::Keyring)
        ));
    }
    assert_ne!(
        bytes,
        encrypt(&key, CredentialScope::Cluster, "openai", &record).unwrap()
    );
}

#[test]
fn sealed_bytes_start_with_their_nonce() {
    let key = Keyring::from_bytes([1; 32]);
    let nonce = vec![9; 24];
    let sealed =
        encrypt_with(&key, CredentialScope::Cluster, "p", &b"m".to_vec(), Some(nonce.clone()))
            .unwrap();
    assert_eq!(sealed[..24], nonce[..]);
    // One byte of message and a tag of sixteen.
    assert_eq!(sealed.len(), 24 + 17);
    let mut touched = sealed.clone();
    touched[30] ^= 1;
    assert!(decrypt(&key, CredentialScope::Cluster, "p", &touched).is_err());
    assert!(encrypt_with(&key, CredentialScope::Cluster, "p", &vec![], None).is_err());
    let agent = CredentialScope::Agent(AgentId(1));
    assert_ne!(associated_data(CredentialScope::Cluster, "p"), associated_data(agent, "p"));
    assert_ne!(associated_data(agent, "p"), associated_data(agent, "q"));
    assert_eq!(associated_data(CredentialScope::Cluster, "p"), [1, 0, 1, b'p']);
    let mut bound = vec![1, 1, 26];
    bound.extend(b"00000000000000000000000001");
    bound.extend([1, b'p']);
    assert_eq!(associated_data(agent, "p"), bound);
}

#[test]
fn statuses_follow_login_and_expiry() {
    assert_eq!(key_record(&[]).status(at(9)), CredentialStatus::Ready);
    assert_eq!(
        key_record(&[("needs_login", "true")]).status(at(9)),
        CredentialStatus::NeedsLogin
    );
    assert_eq!(key_record(&[("needs_login", "no")]).status(at(9)), CredentialStatus::Ready);
    assert_eq!(oauth(at(10)).status(at(9)), CredentialStatus::Ready);
    assert_eq!(oauth(at(10)).status(at(10)), CredentialStatus::Expired);
    for record in [key_record(&[]), key_record(&[("needs_login", "true")]), oauth(at(10))] {
        for now in [at(9), at(10)] {
            let (needs_login, expires_at) = entry_readiness(&record);
            assert_eq!(
                entry_ready(needs_login, expires_at, now),
                record.status(now) == CredentialStatus::Ready
            );
        }
    }
    assert_eq!(entry_kind(&oauth(at(1))), "subscription");
    assert_eq!(entry_kind(&key_record(&[("auth_kind", "cloud")])), "cloud");
    assert_eq!(entry_kind(&key_record(&[])), "api-key");
    assert_eq!(entry_identity("p", "l"), "p\0l");
}

fn entry(ciphertext: Vec<u8>) -> EntryValue {
    EntryValue {
        created_at: at(1),
        last_used_at: Some(at(2)),
        ciphertext,
        needs_login: false,
        expires_at: None,
    }
}

#[test]
fn entries_keep_their_creation_time() {
    let next = put_entry(Some(entry(vec![1])), &oauth(at(10)), vec![2], at(8));
    assert_eq!(next.created_at, at(1));
    assert_eq!(next.last_used_at, None);
    assert_eq!(next.ciphertext, vec![2]);
    assert_eq!(next.expires_at, Some(at(10)));
    assert_eq!(put_entry(None, &key_record(&[]), vec![2], at(8)).created_at, at(8));
    assert_eq!(migrate_legacy(None, &key_record(&[]), vec![2]).created_at, at(3));
    assert_eq!(touch_entry(Some(entry(vec![1])), at(9)).unwrap().last_used_at, Some(at(9)));
    assert_eq!(touch_entry(None, at(9)), Err(StoreError::CredentialMissing));
    let old = LegacyEntryValue { created_at: at(4), last_used_at: None, ciphertext: vec![7] };
    let read = decode_entry(None, Some(old)).unwrap();
    assert!(!read.needs_login && read.expires_at.is_none());
    assert_eq!(decode_entry(Some(entry(vec![1])), None), Some(entry(vec![1])));
    assert_eq!(decode_entry(None, None), None);
}

#[test]
fn listings_sort_by_provider_age_and_label() {
    let summary = |provider: &str, label: &str, created: i64| {
        let value = EntryValue { created_at: at(created), ..entry(vec![]) };
        CredentialSummary::of_entry(
            provider.into(),
            label.into(),
            &value,
            &key_record(&[]),
            at(9),
        )
    };
    let list = vec![
        summary("b", "x", 1),
        summary("a", "z", 5),
        summary("a", "y", 5),
        summary("a", "x", 9),
    ];
    assert_eq!(list_entries(&list), vec![2, 1, 3, 0]);
    assert_eq!(list[0].status, CredentialStatus::Ready);
    assert_eq!(
        provider_entries(&vec![("b".into(), at(2)), ("a".into(), at(2)), ("c".into(), at(1))]),
        vec![2, 1, 0]
    );
    let whole = CredentialSummary::new("p".into(), &key_record(&[]), at(9));
    assert_eq!((whole.label.as_str(), whole.created_at), ("default", at(3)));
}

#[test]
fn the_oldest_ready_entry_serves() {
    let spent = || key_record(&[("needs_login", "true")]);
    assert_eq!(first_entry(&vec![spent(), key_record(&[]), key_record(&[])], at(1)), Some(1));
    assert_eq!(first_entry(&vec![spent(), spent()], at(1)), Some(0));
    assert_eq!(first_entry(&vec![], at(1)), None);
    assert_eq!(
        credential_entry_labels(vec!["z".into(), "a".into()], true),
        vec!["default".to_owned(), "a".to_owned(), "z".to_owned()]
    );
    assert_eq!(credential_entry_labels(vec!["default".into()], true).len(), 1);
}

#[test]
fn pools_use_ready_entries_or_all() {
    let key = |label: &str| CredentialKey::entry("p", label);
    assert_eq!(
        breaker_keys(vec![("a".into(), false), ("b".into(), true)], false, "p"),
        vec![key("b")]
    );
    assert_eq!(
        breaker_keys(vec![("a".into(), false), ("b".into(), false)], false, "p"),
        vec![key("a"), key("b")]
    );
    assert_eq!(breaker_keys(vec![("a".into(), false)], true, "p"), vec![key("default")]);
    assert_eq!(breaker_keys(vec![], false, "p"), vec![CredentialKey::provider("p")]);
    let open = Breaker {
        open_until: at(50),
        failures: 1,
        probe_until: None,
        reason: "down".into(),
    };
    let pool = breaker_snapshot(&vec![key("a"), key("b")], &vec![Some(open), None], at(1));
    assert_eq!(pool[0].open_until, Some(at(50)));
    assert_eq!(pool[0].reason, Some("down".into()));
    assert_eq!(pool[1].open_until, None);
    assert_eq!(pool[1].key, key("b"));
}

#[test]
fn fingerprints_cover_every_record() {
    assert_eq!(credential_fingerprint(&None, &vec![]), None);
    let rows = vec![(vec![1], vec![2, 3])];
    let expected = blake3::hash(&[9, 1, 2, 3]).as_bytes().to_vec();
    assert_eq!(credential_fingerprint(&Some(vec![9]), &rows), Some(expected));
    assert_ne!(
        credential_fingerprint(&None, &rows),
        credential_fingerprint(&None, &vec![(vec![1], vec![2, 4])])
    );
}

fn lease() -> Lease {
    Lease { owner: LeaseOwnerId(1), expires_at: at(30), seq: 0 }
}

#[test]
fn one_refresh_runs_at_a_time() {
    assert_eq!(check_refresh(Duration { nanos: 0 }), Err(StoreError::LeaseMismatch));
    assert_eq!(check_refresh(Duration { nanos: 1 }), Ok(()));
    let seen = vec![1];
    let claim = |current: Option<Vec<u8>>, lease: Option<Lease>, now: Timestamp| {
        claim_refresh(current, &seen, &lease, now)
    };
    assert_eq!(claim(None, None, at(1)), Err(StoreError::CredentialMissing));
    assert_eq!(claim(Some(vec![2]), None, at(1)), Ok(Claim::Changed(vec![2])));
    assert_eq!(claim(Some(vec![1]), Some(lease()), at(29)), Ok(Claim::Busy));
    assert_eq!(claim(Some(vec![1]), Some(lease()), at(30)), Ok(Claim::Free));
    let granted =
        grant_refresh(&oauth(at(5)), Duration::from_secs(20), LeaseOwnerId(1), at(10)).unwrap();
    assert_eq!(granted, lease());
    assert_eq!(
        grant_refresh(
            &key_record(&[("needs_login", "true")]),
            Duration::from_secs(20),
            LeaseOwnerId(1),
            at(10)
        ),
        Err(StoreError::CredentialRefresh)
    );
    assert_eq!(
        grant_refresh(&oauth(at(5)), Duration { nanos: u128::MAX }, LeaseOwnerId(1), at(10)),
        Err(StoreError::LeaseMismatch)
    );
    assert_eq!(refresh_time(&lease(), at(10)), Duration::from_secs(20));
    assert_eq!(refresh_time(&lease(), at(40)), Duration { nanos: 0 });
}

#[test]
fn refreshes_date_what_they_change() {
    let done = refresh_result(oauth(at(5)), RefreshOutcome::Done(oauth(at(50))), at(12)).unwrap();
    assert!(done.changed && !done.failed);
    assert_eq!(done.record.updated_at, at(12));
    let same = refresh_result(oauth(at(5)), RefreshOutcome::Done(oauth(at(5))), at(12)).unwrap();
    assert!(!same.changed);
    assert_eq!(same.record.updated_at, at(3));
    let refused = refresh_result(oauth(at(5)), RefreshOutcome::Failed, at(12)).unwrap();
    assert!(refused.failed && refused.changed);
    assert_eq!(refused.record.status(at(1)), CredentialStatus::NeedsLogin);
    assert_eq!(
        refresh_result(oauth(at(5)), RefreshOutcome::TimedOut, at(12)).err(),
        Some(StoreError::LeaseMismatch)
    );
    assert!(same_record(&key_record(&[("a", "b")]), &key_record(&[("a", "b")])));
    assert!(!same_record(&key_record(&[("a", "b")]), &key_record(&[("a", "c")])));
    assert!(!same_record(&key_record(&[("a", "b")]), &key_record(&[])));
    assert!(!same_record(&key_record(&[]), &oauth(at(5))));
}

#[test]
fn replaced_credentials_are_not_overwritten() {
    let seen = vec![1];
    let finish = |held: Option<Lease>, current: Option<Vec<u8>>, now: Timestamp| {
        let done = finish_refresh(&held, &lease(), &current, &seen, vec![2], now)?;
        assert_eq!(done.lease, None);
        Ok(done.record)
    };
    assert_eq!(finish(Some(lease()), Some(vec![1]), at(29)), Ok(Some(vec![2])));
    assert_eq!(finish(Some(lease()), Some(vec![1]), at(30)), Err(StoreError::LeaseMismatch));
    assert_eq!(finish(Some(lease()), Some(vec![9]), at(29)), Err(StoreError::LeaseMismatch));
    assert_eq!(finish(Some(lease()), None, at(29)), Err(StoreError::CredentialMissing));
    assert_eq!(finish(None, Some(vec![1]), at(29)), Err(StoreError::LeaseMismatch));
    let held = Some(lease());
    let replaced = finish_entry_refresh(
        &held,
        &lease(),
        Some(entry(vec![1])),
        &seen,
        vec![2],
        &oauth(at(77)),
        at(29),
    )
    .unwrap();
    assert_eq!(replaced.lease, None);
    let replaced = replaced.record.unwrap();
    assert_eq!(replaced.ciphertext, vec![2]);
    assert_eq!(replaced.expires_at, Some(at(77)));
    assert_eq!((replaced.created_at, replaced.last_used_at), (at(1), Some(at(2))));
    let unchanged = finish_entry_refresh(
        &held,
        &lease(),
        Some(entry(vec![1])),
        &seen,
        vec![1],
        &oauth(at(77)),
        at(29),
    )
    .unwrap();
    assert_eq!((unchanged.record, unchanged.lease), (None, None));
    let refused = refresh_result(oauth(at(5)), RefreshOutcome::Failed, at(12)).unwrap();
    assert_eq!(refresh_answer(refused).err(), Some(StoreError::CredentialRefresh));
    let done = refresh_result(oauth(at(5)), RefreshOutcome::Done(oauth(at(50))), at(12)).unwrap();
    assert_eq!(refresh_answer(done).unwrap().updated_at, at(12));
}
