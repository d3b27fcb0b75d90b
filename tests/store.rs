use lavalamp_auth::{unique_record_identities, AuthError, UserRecord, UserStore};

fn rec(i: &str, c: &str, r: &str) -> UserRecord {
    UserRecord::new(i.to_string(), c.to_string(), r.to_string())
}

#[test]
fn new_store_is_empty() {
    let s = UserStore::new();
    assert_eq!(s.len(), 0);
    assert!(s.save().is_empty());
    assert!(s.listing().is_empty());
}

#[test]
fn save_of_load_keeps_records() {
    let records = vec![rec("a1", "c1", "r1"), rec("b2", "c2", "r2"), rec("c3", "c3", "r3")];
    let s = UserStore::load(records.clone());
    assert_eq!(s.len(), 3);
    assert_eq!(s.save(), records);
}

#[test]
fn load_of_empty_list() {
    let s = UserStore::load(vec![]);
    assert_eq!(s.len(), 0);
}

#[test]
fn load_with_duplicate_identity_gives_empty_store() {
    let records = vec![rec("a1", "c1", "r1"), rec("b2", "c2", "r2"), rec("a1", "c3", "r3")];
    let s = UserStore::load(records);
    assert_eq!(s.len(), 0);
}

#[test]
fn find_by_identity_reports_position() {
    let s = UserStore::load(vec![rec("a1", "c1", "r1"), rec("b2", "c2", "r2")]);
    assert_eq!(s.find_by_identity(&"b2".to_string()), Some(1));
    assert_eq!(s.find_by_identity(&"a1".to_string()), Some(0));
    assert_eq!(s.find_by_identity(&"zz".to_string()), None);
    assert_eq!(s.get(1), &rec("b2", "c2", "r2"));
}

#[test]
fn create_appends_and_rejects_duplicates() {
    let mut s = UserStore::new();
    assert_eq!(s.create(rec("a1", "c1", "r1")), Ok(()));
    assert_eq!(s.create(rec("b2", "c2", "r2")), Ok(()));
    assert_eq!(s.create(rec("a1", "other", "r3")), Err(AuthError::Conflict));
    assert_eq!(s.save(), vec![rec("a1", "c1", "r1"), rec("b2", "c2", "r2")]);
}

#[test]
fn replace_overwrites_in_place() {
    let mut s = UserStore::load(vec![rec("a1", "c1", "r1"), rec("b2", "c2", "r2")]);
    assert_eq!(s.replace(0, rec("x9", "c9", "r9")), Ok(()));
    assert_eq!(s.save(), vec![rec("x9", "c9", "r9"), rec("b2", "c2", "r2")]);
    assert_eq!(s.replace(1, rec("b2", "c5", "r5")), Ok(()));
    assert_eq!(s.save(), vec![rec("x9", "c9", "r9"), rec("b2", "c5", "r5")]);
}

#[test]
fn replace_rejects_identity_of_another_record() {
    let mut s = UserStore::load(vec![rec("a1", "c1", "r1"), rec("b2", "c2", "r2")]);
    assert_eq!(s.replace(0, rec("b2", "c9", "r9")), Err(AuthError::Conflict));
    assert_eq!(s.save(), vec![rec("a1", "c1", "r1"), rec("b2", "c2", "r2")]);
}

#[test]
fn unused_resource_id_accepts_any_id_on_empty_store() {
    let s = UserStore::new();
    assert_eq!(s.unused_resource_id("r1".to_string()), Some("r1".to_string()));
}

#[test]
fn unused_resource_id_rejects_an_id_in_use() {
    let s = UserStore::load(vec![rec("a1", "c1", "r1"), rec("b2", "c2", "r2")]);
    assert_eq!(s.unused_resource_id("r2".to_string()), None);
    assert_eq!(s.unused_resource_id("r1".to_string()), None);
    assert_eq!(s.unused_resource_id("r3".to_string()), Some("r3".to_string()));
}

#[test]
fn unique_record_identities_detects_duplicates() {
    assert!(unique_record_identities(&vec![]));
    assert!(unique_record_identities(&vec![rec("a1", "c", "r"), rec("b2", "c", "r")]));
    assert!(!unique_record_identities(&vec![rec("a1", "c1", "r1"), rec("a1", "c2", "r2")]));
}

#[test]
fn listing_numbers_records_from_one() {
    let s = UserStore::load(vec![rec("a1", "c1", "r1"), rec("b2", "c2", "r2")]);
    assert_eq!(
        s.listing(),
        vec![
            "1: Nome hash: a1 | Senha: c1 | ID Imagem: r1".to_string(),
            "2: Nome hash: b2 | Senha: c2 | ID Imagem: r2".to_string(),
        ]
    );
}

#[test]
fn duplicate_copies_every_field() {
    let r = rec("a1", "c1", "r1");
    assert_eq!(r.duplicate(), r);
}
