use rrr_make::emit::{
    decide_version, emission_order, output_created_at, predecessor_of, LatestVersion, Timestamp,
    VersionDecision,
};
use rrr_make::error::Error;
use rrr_make::record::{OwnedRecord, OwnedRecordConfigParametersUnresolved, OwnedRecordConfigUnresolved, OwnedRecordMetadata};
use rrr_make::MakeRecursiveStatistics;

fn record(name: &str) -> OwnedRecord {
    let defaults = OwnedRecordConfigParametersUnresolved::from_resolved(rrr_make::record::OwnedRecordConfigParameters {
        splitting_strategy: rrr_make::record::SplittingStrategy::Fill {},
        encryption: None,
    });
    let config = OwnedRecordConfigUnresolved {
        name: name.as_bytes().to_vec(),
        metadata: OwnedRecordMetadata { created_at: None },
        parameters: Default::default(),
    };
    OwnedRecord::from_stored_config(defaults, format!("src/{name}"), config).unwrap()
}

fn run(latests: &[Option<LatestVersion>]) -> (MakeRecursiveStatistics, Vec<VersionDecision>) {
    let mut stats = MakeRecursiveStatistics::default();
    let mut decisions = Vec::new();
    for latest in latests {
        let decision = decide_version(*latest).unwrap();
        stats.count(decision);
        decisions.push(decision);
    }
    (stats, decisions)
}

#[test]
fn new_record_is_created_at_version_zero() {
    assert_eq!(decide_version(None), Ok(VersionDecision::Create { version: 0 }));
}

#[test]
fn unchanged_record_is_skipped() {
    assert_eq!(
        decide_version(Some(LatestVersion { version: 4, unchanged: true })),
        Ok(VersionDecision::Unchanged)
    );
}

#[test]
fn changed_record_gets_next_version() {
    assert_eq!(
        decide_version(Some(LatestVersion { version: 4, unchanged: false })),
        Ok(VersionDecision::Update { version: 5 })
    );
    assert_eq!(
        decide_version(Some(LatestVersion { version: u64::MAX, unchanged: false })),
        Err(Error::VersionsExhausted)
    );
}

#[test]
fn first_build_creates_every_record() {
    let (stats, decisions) = run(&[None, None, None]);
    assert_eq!(stats.records_created, 3);
    assert_eq!(stats.records_updated, 0);
    assert_eq!(stats.records_unchanged, 0);
    assert!(stats.changed());
    assert!(decisions.iter().all(|d| *d == VersionDecision::Create { version: 0 }));
}

#[test]
fn idempotent_rebuild_changes_nothing() {
    let same = Some(LatestVersion { version: 0, unchanged: true });
    let (stats, decisions) = run(&[same, same, same]);
    assert_eq!(stats.records_created, 0);
    assert_eq!(stats.records_updated, 0);
    assert_eq!(stats.records_unchanged, 3);
    assert_eq!(stats.total(), 3);
    assert!(!stats.changed());
    assert!(decisions.iter().all(|d| *d == VersionDecision::Unchanged));
}

#[test]
fn change_detection_updates_one_record() {
    let same = Some(LatestVersion { version: 0, unchanged: true });
    let changed = Some(LatestVersion { version: 0, unchanged: false });
    let (stats, decisions) = run(&[same, changed, same]);
    assert_eq!(stats.records_updated, 1);
    assert_eq!(stats.records_unchanged, 2);
    assert_eq!(stats.records_created, 0);
    assert_eq!(decisions[1], VersionDecision::Update { version: 1 });
}

#[test]
fn walk_visits_records_before_their_successors() {
    let mut root = record("root");
    let first = record("first");
    let mut second = record("second");
    second.push_successive_record(record("leaf")).unwrap();
    root.push_successive_record(first).unwrap();
    root.push_successive_record(second).unwrap();
    assert_eq!(root.successive_records.len(), 2);
    assert!(root.successive_records[0].successive_records.is_empty());
    let steps = emission_order(&root);
    let names: Vec<&[u8]> = steps.iter().map(|s| s.record.config.name.as_slice()).collect();
    assert_eq!(names, vec![&b"root"[..], b"first", b"second", b"leaf"]);
    let parents: Vec<Option<usize>> = steps.iter().map(|s| s.parent).collect();
    assert_eq!(parents, vec![None, Some(0), Some(0), Some(2)]);
}

#[test]
fn predecessor_nonce_follows_parent() {
    let root = vec![0u8];
    let derived = vec![vec![1u8], vec![2u8]];
    assert_eq!(predecessor_of(None, &root, &derived), &vec![0u8]);
    assert_eq!(predecessor_of(Some(1), &root, &derived), &vec![2u8]);
}

#[test]
fn creation_time_is_read_as_rfc3339() {
    let t = output_created_at(&Some("2024-01-02T03:04:05Z".to_string())).unwrap().unwrap();
    assert_eq!(t, Timestamp { unix_seconds: 1704164645, nanoseconds: 0, offset_seconds: 0 });
    let shifted = output_created_at(&Some("2024-01-02T05:04:05.5+02:00".to_string())).unwrap().unwrap();
    assert_eq!(shifted, Timestamp { unix_seconds: 1704164645, nanoseconds: 500_000_000, offset_seconds: 7200 });
    assert_eq!(output_created_at(&None), Ok(None));
    assert_eq!(output_created_at(&Some("yesterday".to_string())), Err(Error::InvalidTimestamp));
}
