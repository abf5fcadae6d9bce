use health_store::{HealthDataStore, HealthEvent, ResearchPool, StoreError, patient_id_from_identity};

fn s(x: &str) -> String {
    x.to_string()
}

#[test]
fn pools_listed_newest_first() {
    let mut st = HealthDataStore::init();
    st.create_research_pool(s("a"), s("A"), s("d"), 1, 100).unwrap();
    st.create_research_pool(s("b"), s("B"), s("d"), 2, 200).unwrap();
    st.create_research_pool(s("c"), s("C"), s("d"), 3, 300).unwrap();
    let order: Vec<u64> = st.list_research_pools().unwrap().iter().map(|p| p.created_at).collect();
    assert_eq!(order, vec![300, 200, 100]);
}

#[test]
fn only_active_pools_are_listed() {
    let mut st = HealthDataStore::init();
    st.create_research_pool(s("a"), s("A"), s("d"), 1, 300).unwrap();
    st.create_research_pool(s("b"), s("B"), s("d"), 2, 100).unwrap();
    st.create_research_pool(s("c"), s("C"), s("d"), 3, 200).unwrap();
    st.update_research_pool("c", None, None, None, Some(s("closed")), b"c").unwrap();
    let titles: Vec<String> = st.list_research_pools().unwrap().into_iter().map(|p| p.title).collect();
    assert_eq!(titles, vec![s("A"), s("B")]);
}

#[test]
fn create_and_get_pool() {
    let mut st = HealthDataStore::init();
    st.create_research_pool(s("e1"), s("Study"), s("about"), 50, 7).unwrap();
    let p = st.get_research_pool("e1").unwrap().unwrap();
    assert_eq!(p.title, s("Study"));
    assert_eq!(p.description, s("about"));
    assert_eq!(p.reward_amount, 50);
    assert_eq!(p.entity_id, s("e1"));
    assert_eq!(p.created_at, 7);
    assert_eq!(p.status, s("active"));
    assert!(st.get_research_pool("e2").unwrap().is_none());
    assert_eq!(
        st.take_events(),
        vec![HealthEvent::PoolCreated { entity_id: s("e1"), title: s("Study"), reward_amount: 50 }]
    );
}

#[test]
fn update_pool_keeps_fields_not_given() {
    let mut st = HealthDataStore::init();
    st.create_research_pool(s("e1"), s("Study"), s("about"), 50, 7).unwrap();
    st.take_events();
    st.update_research_pool("e1", Some(s("New")), None, Some(80), None, b"e1").unwrap();
    let p = st.get_research_pool("e1").unwrap().unwrap();
    assert_eq!((p.title.as_str(), p.description.as_str(), p.reward_amount), ("New", "about", 80));
    assert_eq!(p.status, s("active"));
    assert_eq!(st.take_events(), vec![HealthEvent::PoolUpdated { entity_id: s("e1"), title: s("New") }]);
}

#[test]
fn pool_changes_need_the_owner_and_the_pool() {
    let mut st = HealthDataStore::init();
    st.create_research_pool(s("e1"), s("Study"), s("about"), 50, 7).unwrap();
    assert_eq!(
        st.update_research_pool("e1", Some(s("X")), None, None, None, b"e2"),
        Err(StoreError::NotAuthorized)
    );
    assert_eq!(st.delete_research_pool("e1", b"e2"), Err(StoreError::NotAuthorized));
    assert_eq!(st.update_research_pool("e9", None, None, None, None, b"e9"), Err(StoreError::NotFound));
    assert_eq!(st.delete_research_pool("e9", b"e9"), Err(StoreError::NotFound));
    assert_eq!(st.get_research_pool("e1").unwrap().unwrap().title, s("Study"));
}

#[test]
fn owner_deletes_pool() {
    let mut st = HealthDataStore::init();
    st.create_research_pool(s("e1"), s("Study"), s("about"), 50, 7).unwrap();
    st.take_events();
    st.delete_research_pool("e1", b"e1").unwrap();
    assert!(st.get_research_pool("e1").unwrap().is_none());
    assert_eq!(st.take_events(), vec![HealthEvent::PoolDeleted { entity_id: s("e1"), title: s("Study") }]);
}

#[test]
fn patient_id_is_hex_of_identity() {
    assert_eq!(patient_id_from_identity(&[0xAB, 0xCD]), s("abcd"));
    assert_eq!(patient_id_from_identity(&[0x00, 0x0F, 0xF0]), s("000ff0"));
    assert_eq!(patient_id_from_identity(&[]), s(""));
}

#[test]
fn submission_scenario() {
    let mut st = HealthDataStore::init();
    st.create_research_pool(s("pool1"), s("T"), s("D"), 5, 1).unwrap();
    st.take_events();
    st.submit_to_pool("pool1", &[0xAB, 0xCD], 2).unwrap();
    assert_eq!(
        st.take_events(),
        vec![HealthEvent::PoolSubmission { patient_id: s("abcd"), entity_id: s("pool1"), status: s("pending") }]
    );
    assert_eq!(
        st.update_submission_status("pool1", "abcd", s("accepted"), b"someone"),
        Err(StoreError::NotAuthorized)
    );
    assert_eq!(st.update_submission_status("pool1", "abcd", s("accepted"), b"pool1"), Ok(()));
    assert_eq!(
        st.take_events(),
        vec![HealthEvent::SubmissionUpdated { patient_id: s("abcd"), entity_id: s("pool1"), status: s("accepted") }]
    );
}

#[test]
fn submission_status_needs_pool_and_submission() {
    let mut st = HealthDataStore::init();
    st.submit_to_pool("pool1", &[0x01], 2).unwrap();
    assert_eq!(st.update_submission_status("pool1", "01", s("accepted"), b"pool1"), Err(StoreError::NotFound));
    st.create_research_pool(s("pool1"), s("T"), s("D"), 5, 3).unwrap();
    assert_eq!(st.update_submission_status("pool1", "02", s("accepted"), b"pool1"), Err(StoreError::NotFound));
    assert_eq!(st.update_submission_status("pool1", "01", s("rejected"), b"pool1"), Ok(()));
    assert_eq!(st.update_submission_status("pool1", "01", s("pending"), b"pool1"), Ok(()));
}

#[test]
fn tables_survive_a_round_trip_through_parts() {
    let mut st = HealthDataStore::init();
    st.store_patient_data(s("p1"), b"x".to_vec(), s("lab"), 1).unwrap();
    st.add_consent(s("p1"), s("e1"), s("r"), s("proof"), 1).unwrap();
    st.create_research_pool(s("e1"), s("T"), s("D"), 5, 2).unwrap();
    st.submit_to_pool("e1", &[0x01], 3).unwrap();
    let mut back = HealthDataStore::from_parts(st.into_parts()).unwrap();
    assert!(back.events().is_empty());
    assert_eq!(back.access_patient_data("p1", "e1", 5).unwrap(), Some(b"x".to_vec()));
    assert_eq!(back.update_submission_status("e1", "01", s("accepted"), b"e1"), Ok(()));
}

#[test]
fn parts_with_a_repeated_key_are_refused() {
    let mut st = HealthDataStore::init();
    st.create_research_pool(s("e1"), s("T"), s("D"), 5, 2).unwrap();
    let mut parts = st.into_parts();
    let again = ResearchPool {
        title: s("U"),
        description: s("D"),
        reward_amount: 1,
        entity_id: s("e1"),
        created_at: 3,
        status: s("active"),
    };
    parts.research_pools.push(again);
    assert!(HealthDataStore::from_parts(parts).is_none());
}
