use health_store::{CONSENT_WINDOW, HealthDataStore, HealthEvent, PatientDataResponse, StoreError};

fn s(x: &str) -> String {
    x.to_string()
}

fn store_with_p1() -> HealthDataStore {
    let mut st = HealthDataStore::init();
    st.store_patient_data(s("p1"), b"x".to_vec(), s("lab"), 10).unwrap();
    st
}

#[test]
fn owner_reads_back_what_was_stored() {
    let mut st = store_with_p1();
    let got = st.get_patient_data("p1", "p1").unwrap();
    assert_eq!(
        got,
        Some(PatientDataResponse { data: b"x".to_vec(), record_type: s("lab"), timestamp: 10 })
    );
}

#[test]
fn stranger_cannot_read_and_missing_record_reads_nothing() {
    let mut st = store_with_p1();
    assert_eq!(st.get_patient_data("p1", "e9").unwrap(), None);
    assert_eq!(st.get_patient_data("nobody", "nobody").unwrap(), None);
}

#[test]
fn storing_again_replaces_the_record() {
    let mut st = store_with_p1();
    st.grant_access(s("p1"), s("e1"), b"p1").unwrap();
    st.store_patient_data(s("p1"), b"y".to_vec(), s("scan"), 20).unwrap();
    assert_eq!(st.get_patient_data("p1", "e1").unwrap(), None);
    let got = st.get_patient_data("p1", "p1").unwrap().unwrap();
    assert_eq!(got.data, b"y".to_vec());
    assert_eq!(got.record_type, s("scan"));
    assert_eq!(got.timestamp, 20);
}

#[test]
fn consented_access_until_expiration() {
    let mut st = store_with_p1();
    st.add_consent(s("p1"), s("e1"), s("research"), s("proof"), 100).unwrap();
    assert_eq!(st.access_patient_data("p1", "e1", 100).unwrap(), Some(b"x".to_vec()));
    assert_eq!(st.access_patient_data("p1", "e1", 100 + 7_776_000 - 1).unwrap(), Some(b"x".to_vec()));
    assert_eq!(st.access_patient_data("p1", "e1", 100 + 7_776_000).unwrap(), None);
    assert_eq!(st.access_patient_data("p1", "e1", 100 + 7_776_001).unwrap(), None);
}

#[test]
fn consent_scenario_with_clock_advance() {
    let mut st = HealthDataStore::init();
    let now = 1_000;
    st.store_patient_data(s("p1"), b"x".to_vec(), s("lab"), now).unwrap();
    st.add_consent(s("p1"), s("e1"), s("research"), s("proof"), now).unwrap();
    assert_eq!(st.access_patient_data("p1", "e1", now).unwrap(), Some(b"x".to_vec()));
    let later = now + CONSENT_WINDOW + 1;
    assert_eq!(st.access_patient_data("p1", "e1", later).unwrap(), None);
}

#[test]
fn access_needs_both_consent_and_list_membership() {
    let mut st = store_with_p1();
    st.grant_access(s("p1"), s("e1"), b"p1").unwrap();
    assert_eq!(st.access_patient_data("p1", "e1", 10).unwrap(), None);
    st.add_consent(s("p2"), s("e2"), s("research"), s("proof"), 10).unwrap();
    assert_eq!(st.access_patient_data("p2", "e2", 10).unwrap(), None);
}

#[test]
fn access_emits_record_accessed() {
    let mut st = store_with_p1();
    st.add_consent(s("p1"), s("e1"), s("research"), s("proof"), 10).unwrap();
    st.take_events();
    st.access_patient_data("p1", "e1", 11).unwrap();
    assert_eq!(
        st.take_events(),
        vec![HealthEvent::RecordAccessed { patient_id: s("p1"), accessor_id: s("e1") }]
    );
    assert!(st.events().is_empty());
}

#[test]
fn revoke_removes_every_occurrence_and_the_consent() {
    let mut st = store_with_p1();
    st.grant_access(s("p1"), s("e1"), b"p1").unwrap();
    st.add_consent(s("p1"), s("e1"), s("research"), s("proof"), 10).unwrap();
    st.grant_access(s("p1"), s("e2"), b"p1").unwrap();
    assert_eq!(st.access_patient_data("p1", "e1", 11).unwrap(), Some(b"x".to_vec()));
    st.revoke_access("p1", "e1", b"p1").unwrap();
    assert_eq!(st.access_patient_data("p1", "e1", 11).unwrap(), None);
    assert_eq!(st.get_patient_data("p1", "e1").unwrap(), None);
    assert!(st.get_patient_data("p1", "e2").unwrap().is_some());
    // A fresh grant alone does not bring back the consent.
    st.grant_access(s("p1"), s("e1"), b"p1").unwrap();
    assert_eq!(st.access_patient_data("p1", "e1", 11).unwrap(), None);
}

#[test]
fn revoke_and_grant_by_stranger_are_refused() {
    let mut st = store_with_p1();
    assert_eq!(st.grant_access(s("p1"), s("e1"), b"e1"), Err(StoreError::NotAuthorized));
    assert_eq!(st.get_patient_data("p1", "e1").unwrap(), None);
    st.grant_access(s("p1"), s("e1"), b"p1").unwrap();
    assert_eq!(st.revoke_access("p1", "e1", b"e1"), Err(StoreError::NotAuthorized));
    assert!(st.get_patient_data("p1", "e1").unwrap().is_some());
}

#[test]
fn grant_and_revoke_on_missing_record_do_nothing() {
    let mut st = HealthDataStore::init();
    assert_eq!(st.grant_access(s("p1"), s("e1"), b"zz"), Ok(()));
    assert_eq!(st.revoke_access("p1", "e1", b"zz"), Ok(()));
    assert!(st.events().is_empty());
}

#[test]
fn grant_emits_consent_granted() {
    let mut st = store_with_p1();
    st.take_events();
    st.grant_access(s("p1"), s("e1"), b"p1").unwrap();
    assert_eq!(
        st.take_events(),
        vec![HealthEvent::ConsentGranted { patient_id: s("p1"), entity_id: s("e1") }]
    );
}

#[test]
fn update_and_delete_by_stranger_are_refused_and_change_nothing() {
    let mut st = store_with_p1();
    assert_eq!(
        st.update_patient_data("p1", b"evil".to_vec(), s("t"), b"e1", 50),
        Err(StoreError::NotAuthorized)
    );
    assert_eq!(st.delete_patient_data("p1", b"e1"), Err(StoreError::NotAuthorized));
    let got = st.get_patient_data("p1", "p1").unwrap().unwrap();
    assert_eq!(got.data, b"x".to_vec());
    assert_eq!(got.record_type, s("lab"));
    assert_eq!(got.timestamp, 10);
}

#[test]
fn identity_is_compared_byte_for_byte() {
    let mut st = HealthDataStore::init();
    st.store_patient_data(s("\u{FFFD}"), b"x".to_vec(), s("lab"), 1).unwrap();
    // Invalid UTF-8 would read as U+FFFD if decoded lossily; it is not the owner.
    assert_eq!(
        st.update_patient_data("\u{FFFD}", b"y".to_vec(), s("t"), &[0xFF], 2),
        Err(StoreError::NotAuthorized)
    );
    assert_eq!(st.update_patient_data("\u{FFFD}", b"y".to_vec(), s("t"), "\u{FFFD}".as_bytes(), 2), Ok(()));
}

#[test]
fn update_and_delete_of_missing_record_are_not_found() {
    let mut st = HealthDataStore::init();
    assert_eq!(st.update_patient_data("p1", b"y".to_vec(), s("t"), b"p1", 5), Err(StoreError::NotFound));
    assert_eq!(st.delete_patient_data("p1", b"p1"), Err(StoreError::NotFound));
}

#[test]
fn owner_updates_record() {
    let mut st = store_with_p1();
    st.take_events();
    st.update_patient_data("p1", b"y".to_vec(), s("scan"), b"p1", 50).unwrap();
    let got = st.get_patient_data("p1", "p1").unwrap().unwrap();
    assert_eq!(got, PatientDataResponse { data: b"y".to_vec(), record_type: s("scan"), timestamp: 50 });
    assert_eq!(st.take_events()[0], HealthEvent::RecordUpdated { patient_id: s("p1") });
}

#[test]
fn delete_cascades_to_consents_of_that_patient_only() {
    let mut st = store_with_p1();
    st.store_patient_data(s("p10"), b"z".to_vec(), s("lab"), 10).unwrap();
    st.add_consent(s("p1"), s("e1"), s("r"), s("proof"), 10).unwrap();
    st.add_consent(s("p10"), s("e1"), s("r"), s("proof"), 10).unwrap();
    st.take_events();
    st.delete_patient_data("p1", b"p1").unwrap();
    assert_eq!(st.take_events(), vec![HealthEvent::RecordDeleted { patient_id: s("p1") }]);
    assert_eq!(st.get_patient_data("p1", "p1").unwrap(), None);
    // The record comes back, but the consent of e1 is gone.
    st.store_patient_data(s("p1"), b"x".to_vec(), s("lab"), 20).unwrap();
    st.grant_access(s("p1"), s("e1"), b"p1").unwrap();
    assert_eq!(st.access_patient_data("p1", "e1", 21).unwrap(), None);
    // The other patient's consent stays.
    assert_eq!(st.access_patient_data("p10", "e1", 21).unwrap(), Some(b"z".to_vec()));
}

#[test]
fn anonymized_read_needs_list_membership() {
    let mut st = store_with_p1();
    assert_eq!(st.get_anonymized_data("p1", "e1", b"zk".to_vec()).unwrap(), None);
    st.grant_access(s("p1"), s("e1"), b"p1").unwrap();
    assert_eq!(st.get_anonymized_data("p1", "e1", b"zk".to_vec()).unwrap(), Some(b"x".to_vec()));
    assert_eq!(st.get_anonymized_data("nope", "e1", b"zk".to_vec()).unwrap(), None);
}

#[test]
fn authorized_reports_list_every_granted_record() {
    let mut st = store_with_p1();
    st.store_patient_data(s("p2"), b"y".to_vec(), s("scan"), 11).unwrap();
    st.store_patient_data(s("p3"), b"z".to_vec(), s("lab"), 12).unwrap();
    st.grant_access(s("p1"), s("e1"), b"p1").unwrap();
    st.add_consent(s("p3"), s("e1"), s("r"), s("proof"), 12).unwrap();
    let reports = st.list_authorized_reports("e1").unwrap();
    assert_eq!(
        reports,
        vec![
            PatientDataResponse { data: b"x".to_vec(), record_type: s("lab"), timestamp: 10 },
            PatientDataResponse { data: b"z".to_vec(), record_type: s("lab"), timestamp: 12 },
        ]
    );
    assert!(st.list_authorized_reports("e2").unwrap().is_empty());
}
