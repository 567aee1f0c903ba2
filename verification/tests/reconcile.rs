//! DNS slot reconciliation over record snapshots.

use linode::dns::{
    extract_number, find_record_by_target, make_prefix, make_slot_name, reconcile,
    ReconcileOutcome,
};
use linode::types::DomainRecord;

fn a_record(id: u64, name: &str, target: &str) -> DomainRecord {
    DomainRecord {
        id,
        record_type: "A".to_string(),
        name: name.to_string(),
        target: target.to_string(),
        ttl_sec: 3600,
    }
}

#[test]
fn claims_the_first_vacated_slot() {
    let records = vec![
        a_record(1, "tag-region-1", "1.2.3.4"),
        a_record(2, "tag-region-2", "127.0.0.1"),
    ];
    match reconcile(&records, "tag-region", "9.9.9.9") {
        ReconcileOutcome::Claim { record_id } => assert_eq!(record_id, 2),
        ReconcileOutcome::Create { .. } => panic!("expected a claim"),
    }
}

#[test]
fn creates_one_past_the_largest_live_slot() {
    let records = vec![
        a_record(1, "tag-region-1", "1.2.3.4"),
        a_record(2, "tag-region-3", "5.6.7.8"),
    ];
    match reconcile(&records, "tag-region", "9.9.9.9") {
        ReconcileOutcome::Create { name, target } => {
            assert_eq!(name, "tag-region-4");
            assert_eq!(target, "9.9.9.9");
        },
        ReconcileOutcome::Claim { .. } => panic!("expected a create"),
    }
}

#[test]
fn no_matching_record_creates_slot_one() {
    let records = vec![a_record(1, "other-1", "1.2.3.4")];
    match reconcile(&records, "tag-region", "9.9.9.9") {
        ReconcileOutcome::Create { name, .. } => assert_eq!(name, "tag-region-1"),
        ReconcileOutcome::Claim { .. } => panic!("expected a create"),
    }
}

#[test]
fn non_a_records_do_not_take_part() {
    let mut rec = a_record(3, "tag-region-2", "127.0.0.1");
    rec.record_type = "TXT".to_string();
    let records = vec![rec, a_record(4, "tag-region-1", "1.2.3.4")];
    match reconcile(&records, "tag-region", "9.9.9.9") {
        ReconcileOutcome::Create { name, .. } => assert_eq!(name, "tag-region-2"),
        ReconcileOutcome::Claim { .. } => panic!("TXT record must not be claimed"),
    }
}

#[test]
fn names_without_a_trailing_number_are_ignored() {
    let records = vec![
        a_record(1, "tag-region-extra", "1.2.3.4"),
        a_record(2, "tag-region-2", "5.6.7.8"),
    ];
    match reconcile(&records, "tag-region", "9.9.9.9") {
        ReconcileOutcome::Create { name, .. } => assert_eq!(name, "tag-region-3"),
        ReconcileOutcome::Claim { .. } => panic!("expected a create"),
    }
}

#[test]
fn extract_number_reads_the_trailing_suffix() {
    assert_eq!(extract_number("web-us-iad-12"), Some(12));
    assert_eq!(extract_number("7"), Some(7));
    assert_eq!(extract_number("web"), None);
    assert_eq!(extract_number("web-"), None);
    assert_eq!(extract_number("web-007"), Some(7));
    assert_eq!(extract_number("web-2147483647"), Some(2147483647));
    assert_eq!(extract_number("web-2147483648"), None);
    // One leading plus is accepted, as a plain integer parse would have it.
    assert_eq!(extract_number("web-+5"), Some(5));
    assert_eq!(extract_number("web-++5"), None);
    assert_eq!(extract_number("web-+"), None);
}

#[test]
fn slot_names_and_prefixes_render() {
    assert_eq!(make_slot_name("web-us-iad", 3), "web-us-iad-3");
    assert_eq!(make_prefix("web", "us-iad"), "web-us-iad");
}

#[test]
fn target_lookup_takes_the_last_a_record() {
    let mut txt = a_record(4, "a-4", "9.9.9.9");
    txt.record_type = "TXT".to_string();
    let records = vec![
        a_record(1, "a-1", "9.9.9.9"),
        a_record(2, "a-2", "9.9.9.9"),
        a_record(3, "a-3", "8.8.8.8"),
        txt,
    ];
    assert_eq!(find_record_by_target(&records, "9.9.9.9"), Some(2));
    assert_eq!(find_record_by_target(&records, "8.8.8.8"), Some(3));
    assert_eq!(find_record_by_target(&records, "7.7.7.7"), None);
}

#[test]
fn target_lookup_skips_records_of_other_kinds() {
    let mut txt = a_record(1, "a-1", "10.1.1.1");
    txt.record_type = "TXT".to_string();
    let records = vec![txt, a_record(2, "a-2", "9.9.9.9")];
    assert_eq!(find_record_by_target(&records, "10.1.1.1"), None);
    assert_eq!(find_record_by_target(&records, "9.9.9.9"), Some(2));
}
