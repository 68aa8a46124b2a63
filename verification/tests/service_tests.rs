use gei::CoreError;
use gei::crypto::Cipher;
use gei::crypto::init_encryption_key;
use gei::db::Database;
use gei::service::ScheduleIndexerService;
use gei::service::fetch_request;
use gei::service::fetch_response;
use gei::service::store_request;

fn test_service() -> ScheduleIndexerService {
    let mut cipher = Cipher::new();
    init_encryption_key(&mut cipher, Some("test-key-for-testing")).unwrap();
    let mut db = Database::new();
    db.init_schema().unwrap();
    ScheduleIndexerService::new(cipher, db)
}

#[test]
fn test_end_to_end_scenario() {
    let mut svc = test_service();

    // Store a document for alice: accepted.
    let resp = svc.store_schedule("alice", "{\"day\":\"mon\"}").unwrap();
    assert!(resp.success);

    // Fetch it back verbatim.
    let resp = svc.get_schedule("alice").unwrap();
    assert!(resp.success);
    assert_eq!(resp.schedule_json, "{\"day\":\"mon\"}");

    // A key never stored: found is false, not an error.
    let resp = svc.get_schedule("bob").unwrap();
    assert!(!resp.success);
    assert_eq!(resp.schedule_json, "");

    // Storing alice again overwrites, it does not append.
    let resp = svc.store_schedule("alice", "{\"day\":\"tue\"}").unwrap();
    assert!(resp.success);
    let resp = svc.get_schedule("alice").unwrap();
    assert!(resp.success);
    assert_eq!(resp.schedule_json, "{\"day\":\"tue\"}");

    // An empty key is rejected before any storage mutation.
    assert_eq!(
        svc.store_schedule("", "{\"day\":\"wed\"}").unwrap_err(),
        CoreError::InvalidInput
    );
    let resp = svc.get_schedule("alice").unwrap();
    assert_eq!(resp.schedule_json, "{\"day\":\"tue\"}");

    // Corrupting one byte of the persisted blob surfaces a decryption
    // error, never corrupted plaintext.
    let mut blob = svc.db.get_schedule("alice").unwrap().unwrap();
    blob[20] ^= 0x01;
    svc.db.store_schedule("alice", &blob).unwrap();
    assert_eq!(
        svc.get_schedule("alice").unwrap_err(),
        CoreError::AuthenticationFailure
    );
}

#[test]
fn test_store_validation_order() {
    let mut svc = test_service();
    assert_eq!(
        svc.store_schedule("", "{}").unwrap_err(),
        CoreError::InvalidInput
    );
    assert_eq!(
        svc.store_schedule("alice", "").unwrap_err(),
        CoreError::InvalidInput
    );
    assert_eq!(
        svc.store_schedule("alice", "{\"day\": \"mon\"").unwrap_err(),
        CoreError::InvalidInput
    );
    assert_eq!(
        svc.store_schedule("alice", "not json at all").unwrap_err(),
        CoreError::InvalidInput
    );
    // Nothing was stored by any rejected request.
    let resp = svc.get_schedule("alice").unwrap();
    assert!(!resp.success);
}

#[test]
fn test_store_requires_cipher_key() {
    let cipher = Cipher::new();
    let mut db = Database::new();
    db.init_schema().unwrap();
    let mut svc = ScheduleIndexerService::new(cipher, db);
    assert_eq!(
        svc.store_schedule("alice", "{\"day\":\"mon\"}").unwrap_err(),
        CoreError::NotInitialized
    );
}

#[test]
fn test_store_requires_schema() {
    let mut cipher = Cipher::new();
    init_encryption_key(&mut cipher, Some("test-key-for-testing")).unwrap();
    let mut svc = ScheduleIndexerService::new(cipher, Database::new());
    assert_eq!(
        svc.store_schedule("alice", "{\"day\":\"mon\"}").unwrap_err(),
        CoreError::StorageError
    );
    assert_eq!(
        svc.get_schedule("alice").unwrap_err(),
        CoreError::StorageError
    );
}

#[test]
fn test_fetch_empty_key_rejected() {
    let svc = test_service();
    assert_eq!(svc.get_schedule("").unwrap_err(), CoreError::InvalidInput);
    assert_eq!(fetch_request("").unwrap_err(), CoreError::InvalidInput);
    assert!(fetch_request("alice").is_ok());
}

#[test]
fn test_json_syntax_gate() {
    let mut cipher = Cipher::new();
    init_encryption_key(&mut cipher, Some("test-key-for-testing")).unwrap();
    // Accepted shapes of JSON text.
    assert!(store_request(&cipher, "alice", "[1, 2, 3]").is_ok());
    assert!(store_request(&cipher, "alice", "null").is_ok());
    assert!(store_request(&cipher, "alice", "\"text\"").is_ok());
    // Rejected shapes.
    assert_eq!(
        store_request(&cipher, "alice", "[1, 2,").unwrap_err(),
        CoreError::InvalidInput
    );
    assert_eq!(
        store_request(&cipher, "alice", "{\"a\": }").unwrap_err(),
        CoreError::InvalidInput
    );
}

#[test]
fn test_fetch_response_paths() {
    let mut cipher = Cipher::new();
    init_encryption_key(&mut cipher, Some("test-key-for-testing")).unwrap();

    // Nothing fetched: not found, not an error.
    let resp = fetch_response(&cipher, "carol", None).unwrap();
    assert!(!resp.success);
    assert_eq!(resp.message, "No schedule found for user: carol");

    // A sealed blob round-trips through the stored path.
    let blob = store_request(&cipher, "carol", "{\"ok\":true}").unwrap();
    let resp = fetch_response(&cipher, "carol", Some(blob)).unwrap();
    assert!(resp.success);
    assert_eq!(resp.schedule_json, "{\"ok\":true}");

    // A stored blob shorter than nonce plus tag is malformed.
    assert_eq!(
        fetch_response(&cipher, "carol", Some(vec![1u8; 27])).unwrap_err(),
        CoreError::MalformedInput
    );
}
