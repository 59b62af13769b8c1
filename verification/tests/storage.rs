//! Keys, pages, payloads and texts of the store.

use swarmy_store::error::StoreError;
use swarmy_store::events::TokenUsage;
use swarmy_store::ids::{
    id_bytes, read_id, session_id, timestamp_ms, AgentId, NodeId, RequestId, SessionId, VolumeId,
};
use swarmy_store::keys::{
    continuation_range, is_before, key_range, runnable_entry, runnable_key, scan_runnable,
    timed_key, timed_range, timed_session, KeyPart,
};
use swarmy_store::listing::{
    id_range, list_agents, list_by_node, list_sessions, list_sessions_by_agent, list_volumes,
    read_events,
};
use swarmy_store::paging::{key_after, RowScan};
use swarmy_store::payload::{
    blob_key, check_batch, check_inline, hex_text, hydrate, prepare, StoredValue,
};
use swarmy_store::session::RunnableEntry;
use swarmy_store::sort::{sort_order, SortKey};
use swarmy_store::text::{clipped, format_decimal, parse_unsigned, split, split_once, trim};
use swarmy_store::textmap::TextMap;
use swarmy_store::time::{Duration, Timestamp};
use swarmy_store::usage::{record_usage, UsageTotals};
use swarmy_store::{INLINE_LIMIT, MAX_BATCH_BYTES};

fn at(second: i64) -> Timestamp {
    Timestamp::from_second(second).unwrap()
}

#[test]
fn payloads_come_back_from_their_blobs() {
    let small = prepare(vec![1; INLINE_LIMIT]);
    assert!(small.upload.is_none());
    assert_eq!(hydrate(small.stored, None), Ok(vec![1; INLINE_LIMIT]));
    let bytes = vec![2; INLINE_LIMIT + 1];
    let large = prepare(bytes.clone());
    assert_eq!(large.stored, StoredValue::Blob(blob_key(&bytes)));
    assert_eq!(large.upload, Some(bytes.clone()));
    let stored = || StoredValue::Blob(blob_key(&bytes));
    assert_eq!(hydrate(stored(), large.upload), Ok(bytes.clone()));
    assert_eq!(hydrate(stored(), Some(vec![3])), Err(StoreError::Corrupt));
    assert!(blob_key(&bytes).contains(blake3::hash(&bytes).to_hex().as_str()));
    assert_eq!(hex_text(&vec![0, 10, 255]), "000aff");
    assert_eq!(check_inline(INLINE_LIMIT), Ok(()));
    assert_eq!(check_inline(INLINE_LIMIT + 1), Err(StoreError::TooLarge));
    assert_eq!(check_batch(&vec![(1, 2), (3, 4)]), Ok(()));
    assert_eq!(check_batch(&vec![(1, MAX_BATCH_BYTES)]), Err(StoreError::TooLarge));
}

#[test]
fn ids_read_back() {
    let id = u128::from(ulid::Ulid::from_parts(1_234, 5));
    assert_eq!(read_id(&id_bytes(id)), Ok(id));
    assert_eq!(id_bytes(id), ulid::Ulid::from(id).to_bytes().to_vec());
    assert_eq!(session_id(id_bytes(id)), Ok(SessionId(id)));
    assert_eq!(session_id(vec![1; 15]), Err(StoreError::Corrupt));
    assert_eq!(timestamp_ms(id), 1_234);
    let request = RequestId::for_step(SessionId(id), 7);
    assert_eq!(request.name(), format!("{}-7", ulid::Ulid::from(id)));
}

#[test]
fn timed_keys_keep_order_and_name_their_session() {
    let root = vec![9];
    let key = |second: i64, id: u128| timed_key(&root, "idle", at(second), SessionId(id));
    assert_eq!(timed_session(&root, "idle", &key(5, 3)), Ok(SessionId(3)));
    assert!(timed_session(&root, "other", &key(5, 3)).is_err());
    assert!(is_before(&key(4, 9), &key(5, 3)));
    assert!(is_before(&key(-5, 9), &key(-4, 3)));
    let (begin, end) = timed_range(&root, "idle", at(5), None).unwrap();
    assert!(begin <= key(-9, 0) && key(5, u128::MAX) < end && end <= key(6, 0));
    let (next, _) = timed_range(&root, "idle", at(5), Some((at(5), SessionId(3)))).unwrap();
    assert!(key(5, 3) < next && next <= key(5, 4));
}

#[test]
fn runnable_entries_read_back_in_priority_order() {
    let root = vec![9];
    let entry = |id: u128, priority: i64, second: i64| RunnableEntry {
        session_id: SessionId(id),
        priority,
        wake_at: at(second),
    };
    let key = |entry: &RunnableEntry| runnable_key(&root, 3, entry);
    let first = entry(8, 0, 60);
    let second = entry(1, 1, 5);
    assert!(is_before(&key(&first), &key(&second)));
    assert_eq!(runnable_entry(&root, 3, &key(&first)), Ok(first));
    assert_eq!(runnable_entry(&root, 4, &key(&first)), Err(StoreError::Corrupt));
    let (begin, end) = scan_runnable(&root, 3, None).unwrap();
    assert!(begin <= key(&first) && key(&second) < end);
    let (next, _) = scan_runnable(&root, 3, Some((first, 3))).unwrap();
    assert!(key(&first) < next && next <= key(&second));
    assert_eq!(scan_runnable(&root, 4, Some((first, 3))), Err(StoreError::InvalidState));
    let parts = vec![KeyPart::Text("a".into()), KeyPart::Int(2)];
    let (from, to) = continuation_range(&root, &parts);
    assert!(from < to);
    let (low, high) = key_range(&root, &parts, &vec![KeyPart::Text("b".into())]);
    assert!(low < high);
}

#[test]
fn scans_go_on_behind_the_last_key() {
    assert_eq!(key_after(&vec![1, 2]), vec![1, 2, 0]);
    let mut scan: RowScan<u8> = RowScan::start();
    assert!(!scan.done && scan.begin.is_none());
    scan.accept(vec![(vec![1], Some(7)), (vec![2], Some(8))]);
    assert_eq!(scan.rows, vec![7, 8]);
    scan.accept(vec![]);
    assert!(scan.done);
}

#[test]
fn texts_are_read_and_cut_by_characters() {
    assert_eq!(format_decimal(0), "0");
    assert_eq!(format_decimal(u64::MAX), u64::MAX.to_string());
    assert_eq!(parse_unsigned("+12", 20), Some(12));
    for wrong in ["", "+", "-1", "21", "1x", " 1"] {
        assert_eq!(parse_unsigned(wrong, 20), None);
    }
    assert_eq!(split_once("a/b/c", '/'), Some(("a".into(), "b/c".into())));
    assert_eq!(split_once("abc", '/'), None);
    assert_eq!(split("a,,b", ','), ["a", "", "b"]);
    assert_eq!(trim("\t a b \n"), "a b");
    assert_eq!(trim("\u{3000}\u{85}a\u{200b}\u{2028}"), "a\u{200b}");
    assert_eq!(clipped("h\u{e9}llo", 2), "h\u{e9}");
}

#[test]
fn maps_and_orders_are_stable() {
    let mut map = TextMap::new();
    map.insert("b".into(), 1);
    map.insert("a".into(), 2);
    map.insert("b".into(), 3);
    assert_eq!(map.len(), 2);
    assert_eq!((map.get("a"), map.get("b"), map.get("c")), (Some(&2), Some(&3), None));
    assert!(map.contains_key("a") && !map.contains_key("z"));
    assert_eq!(map.entries[0].0, "a");
    let key = |number: i128, text: &str| SortKey { number, text: text.to_owned() };
    let keys = vec![key(2, "a"), key(1, "b"), key(1, "a"), key(1, "b")];
    assert_eq!(sort_order(&keys), vec![2, 1, 3, 0]);
}

#[test]
fn moments_move_within_their_range() {
    assert_eq!(at(-1).as_second(), -1);
    let half = Timestamp::from_nanosecond(-1_500_000_000).unwrap();
    assert_eq!((half.as_second(), half.subsec_nanosecond()), (-1, -500_000_000));
    assert_eq!(half.as_millisecond(), -1_500);
    assert_eq!(at(1).checked_add(Duration::from_secs(2)), Some(at(3)));
    assert_eq!(at(3).checked_sub(Duration::from_millis(3_000)), Some(at(0)));
    assert_eq!(Timestamp::latest().checked_add(Duration::from_secs(1)), None);
    assert_eq!(Timestamp::from_second(i64::MAX), None);
    assert_eq!(
        Timestamp::latest().as_second(),
        jiff::Timestamp::MAX.as_second()
    );
}

#[test]
fn usage_is_billed_to_session_and_agent() {
    let usage = TokenUsage {
        input_tokens: 10,
        cached_input_tokens: 1,
        cache_write_input_tokens: 2,
        output_tokens: 4,
        reasoning_output_tokens: 3,
        total_tokens: 14,
    };
    let mut before = UsageTotals::zero();
    before.count(&usage, 5);
    let billed = record_usage(Some(before), None, &Some(Some("l".into())), "p", &usage, 7, at(9));
    assert_eq!(billed.session.usage.input_tokens, 20);
    assert_eq!(billed.session.cost_micros, 12);
    assert_eq!(billed.agent.usage.total_tokens, 14);
    assert_eq!(billed.agent.cost_micros, 7);
    assert_eq!(billed.record.entry, Some("l".into()));
    assert_eq!(billed.record.recorded_at, Some(at(9)));
    let full = UsageTotals { cost_micros: u64::MAX, ..before };
    let capped = record_usage(Some(full), None, &None, "p", &usage, 7, at(9));
    assert_eq!(capped.session.cost_micros, u64::MAX);
}

fn inside(range: &(Vec<u8>, Vec<u8>), key: &Vec<u8>) -> bool {
    !is_before(key, &range.0) && is_before(key, &range.1)
}

#[test]
fn listings_follow_the_last_row_seen() {
    let root: Vec<u8> = vec![9];
    let space = foundationdb_tuple::Subspace::from_bytes(root.clone());
    let key = |kind: &str, id: u128| space.pack(&(kind, id_bytes(id).as_slice()));
    for (kind, whole, rest) in [
        ("session", list_sessions(&root, None, 1), list_sessions(&root, Some(SessionId(300)), 1)),
        ("agent", list_agents(&root, None, 1), list_agents(&root, Some(AgentId(300)), 1)),
        ("volume", list_volumes(&root, None, 1), list_volumes(&root, Some(VolumeId(300)), 1)),
    ] {
        let (whole, rest) = (whole.unwrap(), rest.unwrap());
        for id in [0, 255, 256, 300, 301, u128::MAX] {
            assert!(inside(&whole, &key(kind, id)));
            assert_eq!(inside(&rest, &key(kind, id)), id > 300);
        }
        assert!(!inside(&whole, &key("session_by_agent", 1)));
    }
    let owned = |kind: &str, owner: u128, id: u128| {
        space.pack(&(kind, id_bytes(owner).as_slice(), id_bytes(id).as_slice()))
    };
    let mine = list_sessions_by_agent(&root, AgentId(4), Some(SessionId(7)), 64).unwrap();
    assert!(inside(&mine, &owned("session_by_agent", 4, 8)));
    assert!(!inside(&mine, &owned("session_by_agent", 4, 7)));
    assert!(!inside(&mine, &owned("session_by_agent", 5, 8)));
    let placed = list_by_node(&root, NodeId(4), None, 64).unwrap();
    assert!(inside(&placed, &owned("placement_by_node", 4, 0)));
    assert!(!inside(&placed, &owned("placement_by_node", 3, 0)));
    assert_eq!(id_range(&root, "volume", None, None), list_volumes(&root, None, 1).unwrap());
    assert_eq!(list_sessions(&root, None, 0), Err(StoreError::InvalidLimit));
    assert_eq!(list_by_node(&root, NodeId(4), None, 65), Err(StoreError::InvalidLimit));
}

#[test]
fn events_are_read_behind_a_sequence_number() {
    let root: Vec<u8> = vec![9];
    let space = foundationdb_tuple::Subspace::from_bytes(root.clone());
    let key = |session: u128, seq: u64| space.pack(&("event", id_bytes(session).as_slice(), seq));
    let range = read_events(&root, SessionId(3), 255, 64).unwrap();
    for (session, seq, found) in
        [(3, 255, false), (3, 256, true), (3, 70_000, true), (3, 1, false), (4, 256, false)]
    {
        assert_eq!(inside(&range, &key(session, seq)), found);
    }
    assert_eq!(read_events(&root, SessionId(3), 0, 65), Err(StoreError::InvalidLimit));
}
