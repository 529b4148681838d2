use std::time::Duration;
use tsein_dns::cache::{cost, lookup, rewrite_ttl, store, Entry, Fill, DEFAULT_TTL};
use tsein_dns::comm::Answer;
use tsein_dns::protocol::domain::Name;
use tsein_dns::protocol::error::PacketError;
use tsein_dns::protocol::header::Rcode;
use tsein_dns::protocol::rr::rdata::a::A;
use tsein_dns::protocol::rr::{RRData, RR};
use tsein_dns::protocol::types::RRClass;

fn record(ttl: u64) -> RR {
    RR::new(
        Name::try_from("example.com").unwrap(),
        Duration::from_secs(ttl),
        RRClass::Internet,
        RRData::A(A::from(1)),
    )
}

fn ttls(answers: &[Answer]) -> Vec<Option<u32>> {
    answers
        .iter()
        .map(|a| match a {
            Answer::Error(_) => None,
            Answer::Answer(rr) | Answer::NameServer(rr) | Answer::Additional(rr) => {
                Some(rr.ttl_secs())
            }
        })
        .collect()
}

#[test]
fn fill_takes_shortest_ttl() {
    let fill = Fill::forward(vec![
        Answer::Answer(record(300)),
        Answer::NameServer(record(120)),
        Answer::Additional(record(500)),
    ]);
    assert!(fill.cacheable);
    assert_eq!(fill.ttl, 120);
    assert_eq!(ttls(&fill.answers), [Some(300), Some(120), Some(500)]);
}

#[test]
fn fill_keeps_records_for_their_own_ttl() {
    assert_eq!(DEFAULT_TTL, 600);
    // a time to live beyond the default is kept as it is
    let fill = Fill::forward(vec![Answer::Answer(record(3600))]);
    assert_eq!(fill.ttl, 3600);
    assert!(fill.cacheable);
    let fill = Fill::forward(vec![
        Answer::Answer(record(86400)),
        Answer::Additional(record(7200)),
        Answer::NameServer(record(172800)),
    ]);
    assert_eq!(fill.ttl, 7200);
    let fill = Fill::forward(vec![Answer::Answer(record(0)), Answer::Answer(record(5))]);
    assert_eq!(fill.ttl, 0);
    let (entry, items) = store(vec![Answer::Answer(record(3600))], 1_000);
    assert_eq!(entry.unwrap().get_deadline(), 3_601_000);
    assert_eq!(ttls(&items), [Some(3600)]);
    // an answer without a record is kept for the default
    let none = Fill::forward(vec![]);
    assert_eq!(none.ttl, 600);
    assert!(none.cacheable);
    assert!(none.answers.is_empty());
}

#[test]
fn fill_with_fault_keeps_nothing() {
    let fill = Fill::forward(vec![
        Answer::Answer(record(30)),
        Answer::Error(PacketError::ServFail),
        Answer::Answer(record(10)),
    ]);
    assert!(!fill.cacheable);
    assert_eq!(fill.ttl, 600);
    assert_eq!(fill.answers.len(), 1);
    match &fill.answers[0] {
        Answer::Error(e) => assert_eq!(e.rcode(), Rcode::ServFail),
        _ => unreachable!(),
    }
}

#[test]
fn stale_entry_gives_no_hit() {
    let entry = Entry::new(vec![Answer::Answer(record(300))], 120, 1_000);
    assert_eq!(entry.get_deadline(), 121_000);
    assert!(!entry.is_stale(1_000));
    assert!(!entry.is_stale(120_999));
    assert!(entry.is_stale(121_000));
    assert!(entry.is_stale(500_000));
    assert!(entry.get(120_999).is_some());
    assert!(entry.get(121_000).is_none());
    assert!(entry.get(u64::MAX).is_none());
    // an entry that lives no time at all is stale at once
    let dead = Entry::new(vec![Answer::Answer(record(0))], 0, 7);
    assert!(dead.get(7).is_none());
}

#[test]
fn hit_carries_residual_ttl() {
    let entry = Entry::new(
        vec![Answer::Answer(record(300)), Answer::Additional(record(900))],
        120,
        1_000,
    );
    assert_eq!(ttls(&entry.get(1_000).unwrap()), [Some(120), Some(120)]);
    assert_eq!(ttls(&entry.get(1_001).unwrap()), [Some(119), Some(119)]);
    assert_eq!(ttls(&entry.get(61_000).unwrap()), [Some(60), Some(60)]);
    assert_eq!(ttls(&entry.get(120_999).unwrap()), [Some(0), Some(0)]);
    // the entry itself is not changed by a lookup
    assert_eq!(ttls(&entry.clone().get(1_000).unwrap()), [Some(120), Some(120)]);
}

#[test]
fn deadline_stops_at_end_of_time() {
    let entry = Entry::new(vec![], 600, u64::MAX - 5);
    assert_eq!(entry.get_deadline(), u64::MAX);
    assert!(!entry.is_stale(u64::MAX - 1));
    assert!(entry.is_stale(u64::MAX));
}

#[test]
fn rewrite_leaves_faults_alone() {
    let out = rewrite_ttl(
        &vec![Answer::Error(PacketError::FormatError), Answer::NameServer(record(5))],
        77,
    );
    assert_eq!(ttls(&out), [None, Some(77)]);
}

#[test]
fn store_keeps_answers_and_drops_faults() {
    let (entry, items) = store(vec![Answer::Answer(record(30)), Answer::Answer(record(90))], 500);
    let entry = entry.unwrap();
    assert_eq!(entry.get_deadline(), 30_500);
    assert_eq!(ttls(&items), [Some(30), Some(30)]);
    assert_eq!(ttls(&entry.get(10_500).unwrap()), [Some(20), Some(20)]);

    let (entry, items) = store(vec![Answer::Error(PacketError::ServFail)], 500);
    assert!(entry.is_none());
    assert_eq!(ttls(&items), [None]);
}

#[test]
fn cost_adds_up_records() {
    let items = vec![
        Answer::Answer(record(1)),
        Answer::Error(PacketError::ServFail),
        Answer::Additional(record(1)),
    ];
    assert_eq!(cost(&items), 10);
    assert_eq!(cost(&vec![]), 0);
    let entry = Entry::new(items, 1, 0);
    assert_eq!(entry.cost(), 10);
    assert_eq!(record(1).cost(), 5);
}

#[test]
fn lookup_hits_fresh_entries_only() {
    let entry = Entry::new(vec![Answer::Answer(record(300))], 60, 0);
    assert!(lookup(None, 0).is_none());
    assert_eq!(ttls(&lookup(Some(&entry), 15_000).unwrap()), [Some(45)]);
    assert!(lookup(Some(&entry), 60_000).is_none());
}
