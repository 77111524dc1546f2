use dkn_search::admission::{admit_task, admitted_key, evaluate_filter, Admission};
use dkn_search::codec::split_fields;
use dkn_search::payload::{DecodeError, TaskPayload};
use dkn_search::search_result::SearchResult;
use dkn_search::sealer::{flatten_newlines, prepare_seal, split_sealed, SealError, SealedResult};
use dkn_search::worker::{Outcome, Phase, TaskWorker, Wake};

const NODE: [u8; 2] = [0xaa, 0xbb];

fn task(id: &str, deadline: u64, filter: &str) -> TaskPayload {
    TaskPayload::new(
        id.as_bytes().to_vec(),
        format!("query {}", id).into_bytes(),
        deadline,
        b"0a0B".to_vec(),
        filter.as_bytes().to_vec(),
    )
}

fn fresh_worker() -> TaskWorker {
    TaskWorker::new("search".to_string(), 1000, NODE.to_vec())
}

#[test]
fn envelope_exact_bytes() {
    let p = TaskPayload::new(b"a".to_vec(), b"\n".to_vec(), 258, b"ff".to_vec(), vec![]);
    let e = p.encode_envelope();
    assert_eq!(e, b"61.0a.0000000000000102.6666.".to_vec());
}

#[test]
fn envelope_round_trip() {
    let p = task("task-1", 1_700_000_000_000_000_000, "aabb.ccdd");
    let e = p.encode_envelope();
    let q = TaskPayload::decode_envelope(&e).unwrap();
    assert_eq!(q.task_id, p.task_id);
    assert_eq!(q.input, p.input);
    assert_eq!(q.deadline, p.deadline);
    assert_eq!(q.public_key, p.public_key);
    assert_eq!(q.filter, p.filter);
}

#[test]
fn envelope_round_trip_empty_fields_and_max_deadline() {
    let p = TaskPayload::new(vec![], vec![], u64::MAX, vec![], vec![]);
    let q = TaskPayload::decode_envelope(&p.encode_envelope()).unwrap();
    assert_eq!(q.deadline, u64::MAX);
    assert!(q.task_id.is_empty() && q.input.is_empty() && q.filter.is_empty());
}

#[test]
fn decode_rejects_wrong_field_count() {
    assert_eq!(TaskPayload::decode_envelope(&b"61.62".to_vec()).err(), Some(DecodeError));
    assert_eq!(TaskPayload::decode_envelope(&vec![]).err(), Some(DecodeError));
}

#[test]
fn decode_rejects_non_hex_field() {
    let bad = b"6g.62.0000000000000001.63.64".to_vec();
    assert_eq!(TaskPayload::decode_envelope(&bad).err(), Some(DecodeError));
    let odd = b"6.62.0000000000000001.63.64".to_vec();
    assert_eq!(TaskPayload::decode_envelope(&odd).err(), Some(DecodeError));
}

#[test]
fn decode_rejects_short_deadline() {
    let bad = b"61.62.0001.63.64".to_vec();
    assert_eq!(TaskPayload::decode_envelope(&bad).err(), Some(DecodeError));
}

#[test]
fn decode_accepts_upper_case_hex() {
    let q = TaskPayload::decode_envelope(&b"4A.62.000000000000000A.63.64".to_vec()).unwrap();
    assert_eq!(q.task_id, vec![0x4a]);
    assert_eq!(q.deadline, 10);
}

#[test]
fn split_fields_keeps_empty_parts() {
    let parts = split_fields(&b".ab..c".to_vec());
    assert_eq!(parts, vec![vec![], b"ab".to_vec(), vec![], b"c".to_vec()]);
}

#[test]
fn filter_selects_listed_node() {
    assert_eq!(evaluate_filter(&b"ccdd.AABB".to_vec(), &NODE.to_vec()), Some(true));
    assert_eq!(evaluate_filter(&b"ccdd".to_vec(), &NODE.to_vec()), Some(false));
    assert_eq!(evaluate_filter(&b"aabb.zz".to_vec(), &NODE.to_vec()), None);
}

#[test]
fn expired_task_rejected_whatever_the_filter() {
    let now = 1_000;
    for filter in ["aabb", "ccdd", "zz"] {
        assert_eq!(admit_task(&task("t", now, filter), now, &NODE.to_vec()), Admission::Expired);
        assert_eq!(admit_task(&task("t", now - 1, filter), now, &NODE.to_vec()), Admission::Expired);
    }
}

#[test]
fn unselected_task_rejected_before_deadline() {
    let now = 1_000;
    assert_eq!(
        admit_task(&task("t", now + 10, "ccdd"), now, &NODE.to_vec()),
        Admission::NotSelected
    );
    assert_eq!(
        admit_task(&task("t", now + 10, "c"), now, &NODE.to_vec()),
        Admission::FilterMalformed
    );
    assert_eq!(admit_task(&task("t", now + 10, "aabb"), now, &NODE.to_vec()), Admission::Accepted);
}

#[test]
fn admission_is_repeatable() {
    let t = task("t", 50, "aabb");
    let a = admit_task(&t, 10, &NODE.to_vec());
    let b = admit_task(&t, 10, &NODE.to_vec());
    assert_eq!(a, b);
    assert!(a.is_accepted());
}

#[test]
fn prepare_seal_flattens_and_decodes_key() {
    let (text, key) = prepare_seal(&b"one\ntwo\n".to_vec(), &b"0aFF".to_vec()).unwrap();
    assert_eq!(text, b"one two ".to_vec());
    assert_eq!(key, vec![0x0a, 0xff]);
}

#[test]
fn prepare_seal_rejects_bad_key() {
    assert_eq!(prepare_seal(&b"x".to_vec(), &b"abc".to_vec()).err(), Some(SealError::KeyDecode));
    assert_eq!(prepare_seal(&b"x".to_vec(), &b"zz".to_vec()).err(), Some(SealError::KeyDecode));
}

#[test]
fn flatten_newlines_leaves_other_bytes() {
    assert_eq!(flatten_newlines(&b"a\r\nb".to_vec()), b"a\r b".to_vec());
}

#[test]
fn sealed_payload_exact_and_split() {
    let s = SealedResult {
        task_id: b"a".to_vec(),
        hash: vec![0xab, 0x01],
        signature: vec![0x10],
        ciphertext: vec![],
    };
    let text = s.encode();
    assert_eq!(text, b"ab01.10.".to_vec());
    let naive: Vec<&[u8]> = text.split(|c| *c == b'.').collect();
    assert_eq!(naive.len(), 3);
    let (h, sig, c) = split_sealed(&text).unwrap();
    assert_eq!(h, s.hash);
    assert_eq!(sig, s.signature);
    assert_eq!(c, s.ciphertext);
}

#[test]
fn split_sealed_rejects_other_shapes() {
    assert!(split_sealed(&b"ab.cd".to_vec()).is_none());
    assert!(split_sealed(&b"ab.cd.ef.00".to_vec()).is_none());
    assert!(split_sealed(&b"ab.cd.e".to_vec()).is_none());
}

#[test]
fn batch_with_malformed_message_runs_the_other_two_in_order() {
    let now = 5_000;
    let msgs = vec![
        task("first", now + 100, "aabb").encode_envelope(),
        b"not an envelope".to_vec(),
        task("second", now + 100, "aabb").encode_envelope(),
    ];
    let mut w = fresh_worker();
    w.subscribed();
    w.woke(Wake::TimerFired);
    let outcomes = w.drain(&msgs, now);
    assert_eq!(outcomes, vec![Outcome::Queued, Outcome::Malformed, Outcome::Queued]);
    assert!(w.is_busy());
    let a = w.next_task().unwrap();
    let b = w.next_task().unwrap();
    assert_eq!(a.task.task_id, b"first".to_vec());
    assert_eq!(b.task.task_id, b"second".to_vec());
    assert_eq!(a.key, vec![0x0a, 0x0b]);
    assert!(w.next_task().is_none());
    assert!(!w.is_busy());
    assert_eq!(w.phase(), Phase::Polling);
}

#[test]
fn busy_flag_stays_clear_on_empty_batches() {
    let mut w = fresh_worker();
    assert!(!w.is_busy());
    w.subscribed();
    assert!(!w.is_busy());
    w.woke(Wake::TimerFired);
    let outcomes = w.drain(&vec![], 10);
    assert!(outcomes.is_empty());
    assert!(!w.is_busy());
    assert_eq!(w.phase(), Phase::Polling);
    w.woke(Wake::TimerFired);
    let outcomes = w.drain(&vec![task("late", 5, "aabb").encode_envelope()], 10);
    assert_eq!(outcomes, vec![Outcome::Rejected(Admission::Expired)]);
    assert!(!w.is_busy());
    assert_eq!(w.phase(), Phase::Polling);
}

#[test]
fn search_topic_runs_only_the_live_task() {
    let now: u64 = 1_700_000_000_000_000_000;
    let mut w = fresh_worker();
    assert_eq!(w.topic, "search");
    assert_eq!(w.poll_interval_ms, 1000);
    w.subscribed();
    w.woke(Wake::TimerFired);
    let msgs = vec![
        task("a", now + 10_000_000_000, "aabb").encode_envelope(),
        task("b", now - 1_000_000_000, "aabb").encode_envelope(),
    ];
    let outcomes = w.drain(&msgs, now);
    assert_eq!(outcomes, vec![Outcome::Queued, Outcome::Rejected(Admission::Expired)]);
    let a = w.next_task().unwrap();
    assert_eq!(a.task.task_id, b"a".to_vec());
    assert!(w.next_task().is_none());
}

#[test]
fn cancellation_while_polling_stops_without_draining() {
    let mut w = fresh_worker();
    w.subscribed();
    assert_eq!(w.phase(), Phase::Polling);
    w.woke(Wake::Cancelled);
    assert_eq!(w.phase(), Phase::Unsubscribing);
    assert!(!w.is_stopped());
    w.unsubscribed();
    assert!(w.is_stopped());
    assert!(!w.is_busy());
}

#[test]
fn search_result_keeps_fields() {
    let r = SearchResult::new("t".to_string(), "example.com".to_string(), "s".to_string());
    assert_eq!(r.title, "t");
    assert_eq!(r.link, "example.com");
    assert_eq!(r.snippet, "s");
}

#[test]
fn task_with_bad_key_is_rejected_before_queueing() {
    let now = 1_000;
    let bad = TaskPayload::new(b"k".to_vec(), b"q".to_vec(), now + 10, b"0g".to_vec(), b"aabb".to_vec());
    assert_eq!(admit_task(&bad, now, &NODE.to_vec()), Admission::KeyMalformed);
    assert_eq!(admitted_key(&bad, now, &NODE.to_vec()).err(), Some(Admission::KeyMalformed));
    let good = task("g", now + 10, "aabb");
    assert_eq!(admitted_key(&good, now, &NODE.to_vec()).ok(), Some(vec![0x0a, 0x0b]));

    let mut w = fresh_worker();
    w.subscribed();
    w.woke(Wake::TimerFired);
    let outcomes = w.drain(&vec![bad.encode_envelope(), good.encode_envelope()], now);
    assert_eq!(outcomes, vec![Outcome::Rejected(Admission::KeyMalformed), Outcome::Queued]);
    let only = w.next_task().unwrap();
    assert_eq!(only.task.task_id, b"g".to_vec());
    assert!(w.next_task().is_none());
    assert!(!w.is_busy());
}

#[test]
fn expired_task_with_bad_key_reports_the_deadline() {
    let bad = TaskPayload::new(vec![], vec![], 5, b"x".to_vec(), b"aabb".to_vec());
    assert_eq!(admit_task(&bad, 5, &NODE.to_vec()), Admission::Expired);
}
