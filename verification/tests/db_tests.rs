use gei::CoreError;
use gei::db::Database;

#[test]
fn test_database_operations() {
    let mut db = Database::new();
    db.init_schema().expect("Failed to init schema");

    // Test store
    let test_data = b"encrypted test data";
    db.store_schedule("testuser", test_data).expect("Failed to store");

    // Test retrieve
    let retrieved = db.get_schedule("testuser").expect("Failed to retrieve");
    assert_eq!(retrieved, Some(test_data.to_vec()));

    // Test non-existent user
    let retrieved = db.get_schedule("nonexistent").expect("Failed to retrieve");
    assert_eq!(retrieved, None);

    // Test update
    let updated_data = b"updated encrypted data";
    db.store_schedule("testuser", updated_data).expect("Failed to update");

    let retrieved = db.get_schedule("testuser").expect("Failed to retrieve");
    assert_eq!(retrieved, Some(updated_data.to_vec()));
}

#[test]
fn test_upsert_timestamps() {
    let mut db = Database::new();
    db.init_schema().unwrap();

    db.store_schedule_at("alice", b"first", 100).unwrap();
    assert_eq!(db.get_timestamps("alice").unwrap(), Some((100, 100)));

    // The second write keeps created_at and advances updated_at.
    db.store_schedule_at("alice", b"second", 250).unwrap();
    assert_eq!(db.get_timestamps("alice").unwrap(), Some((100, 250)));
    assert_eq!(db.get_schedule("alice").unwrap(), Some(b"second".to_vec()));

    // Another key gets its own creation time.
    db.store_schedule_at("bob", b"third", 300).unwrap();
    assert_eq!(db.get_timestamps("bob").unwrap(), Some((300, 300)));
    assert_eq!(db.get_timestamps("alice").unwrap(), Some((100, 250)));
}

#[test]
fn test_absent_key_not_an_error() {
    let mut db = Database::new();
    db.init_schema().unwrap();
    assert_eq!(db.get_schedule("never-written").unwrap(), None);
    assert_eq!(db.get_timestamps("never-written").unwrap(), None);
}

#[test]
fn test_schema_must_be_prepared() {
    let mut db = Database::new();
    assert_eq!(
        db.store_schedule("alice", b"data").unwrap_err(),
        CoreError::StorageError
    );
    assert_eq!(db.get_schedule("alice").unwrap_err(), CoreError::StorageError);

    db.init_schema().unwrap();
    db.store_schedule("alice", b"data").unwrap();

    // Preparing the schema again never wipes what is stored.
    db.init_schema().unwrap();
    assert_eq!(db.get_schedule("alice").unwrap(), Some(b"data".to_vec()));
}
