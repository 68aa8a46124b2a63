//! Request handling: validate a store or fetch request, seal or open the
//! document, and drive the record store. Rejections come before any cipher or
//! storage work, and no rejected request changes a record.

use vstd::prelude::*;

use crate::CoreError;
use crate::crypto::Cipher;
use crate::crypto::MAX_PLAINTEXT_LEN;
use crate::crypto::OpenOutcome;
use crate::crypto::decrypt_data;
use crate::crypto::encrypt_data;
use crate::crypto::is_sealed;
use crate::crypto::open_outcome;
use crate::db::Database;
use crate::db::upsert;
use vstd::string::StringExecFns;
use vstd::string::StringSliceAdditionalSpecFns;

verus! {

/// Whether text parses as JSON; what `serde_json` parsing decides, a fixed
/// function of the text.
pub uninterp spec fn json_valid(s: Seq<char>) -> bool;

/// Relies on `serde_json::from_str::<Value>`: parsing succeeds exactly on
/// syntactically valid JSON text.
#[verifier::external_body]
fn json_syntax_ok(s: &str) -> (r: bool)
    ensures
        r == json_valid(s@),
{
    serde_json::from_str::<serde_json::Value>(s).is_ok()
}

/// A store request that is turned away before any cipher or storage work:
/// empty key, empty document, or a document that is not JSON text.
pub open spec fn store_rejected(username: Seq<char>, schedule_json: Seq<char>) -> bool {
    username.len() == 0 || schedule_json.len() == 0 || !json_valid(schedule_json)
}

/// The answer to a store request.
#[derive(Debug)]
pub struct StoreScheduleResponse {
    pub success: bool,
    pub message: String,
}

/// The answer to a fetch request.
#[derive(Debug)]
pub struct GetScheduleResponse {
    pub success: bool,
    pub schedule_json: String,
    pub message: String,
}

/// Validate a store request and seal its document: the blob to persist, or
/// the rejection.
pub fn store_request(cipher: &Cipher, username: &str, schedule_json: &str) -> (r: Result<
    Vec<u8>,
    CoreError,
>)
    requires
        cipher.wf(),
        schedule_json.spec_bytes().len() <= MAX_PLAINTEXT_LEN,
    ensures
        store_rejected(username@, schedule_json@) ==> r == Err::<Vec<u8>, CoreError>(
            CoreError::InvalidInput,
        ),
        !store_rejected(username@, schedule_json@) && !cipher.is_initialized() ==> r == Err::<
            Vec<u8>,
            CoreError,
        >(CoreError::NotInitialized),
        !store_rejected(username@, schedule_json@) && cipher.is_initialized() ==> (r matches Ok(
            blob,
        ) && is_sealed(cipher.key_bytes(), blob@, schedule_json.spec_bytes())),
{
    if username.is_empty() {
        return Err(CoreError::InvalidInput);
    }
    if schedule_json.is_empty() {
        return Err(CoreError::InvalidInput);
    }
    if !json_syntax_ok(schedule_json) {
        return Err(CoreError::InvalidInput);
    }
    encrypt_data(cipher, schedule_json)
}

/// Validate a fetch request: an empty key is turned away before any lookup.
pub fn fetch_request(username: &str) -> (r: Result<(), CoreError>)
    ensures
        r is Ok <==> username@.len() > 0,
        username@.len() == 0 ==> r == Err::<(), CoreError>(CoreError::InvalidInput),
{
    if username.is_empty() {
        return Err(CoreError::InvalidInput);
    }
    Ok(())
}

/// Turn what the record store held for a key into the answer: open the blob,
/// or report that nothing was found.
pub fn fetch_response(cipher: &Cipher, username: &str, fetched: Option<Vec<u8>>) -> (r: Result<
    GetScheduleResponse,
    CoreError,
>)
    requires
        cipher.wf(),
    ensures
        fetched is None ==> (r matches Ok(resp) && !resp.success && resp.schedule_json@
            == Seq::<char>::empty() && resp.message@ == "No schedule found for user: "@
            + username@),
        fetched matches Some(blob) && blob@.len() < 28 ==> r == Err::<
            GetScheduleResponse,
            CoreError,
        >(CoreError::MalformedInput),
        fetched matches Some(blob) && blob@.len() >= 28 && !cipher.is_initialized() ==> r == Err::<
            GetScheduleResponse,
            CoreError,
        >(CoreError::NotInitialized),
        fetched matches Some(blob) ==> (cipher.is_initialized() ==> match open_outcome(
            cipher.key_bytes(),
            blob@,
        ) {
            OpenOutcome::Malformed => r == Err::<GetScheduleResponse, CoreError>(
                CoreError::MalformedInput,
            ),
            OpenOutcome::Unauthenticated => r == Err::<GetScheduleResponse, CoreError>(
                CoreError::AuthenticationFailure,
            ),
            OpenOutcome::NotDocumentText => r == Err::<GetScheduleResponse, CoreError>(
                CoreError::InvalidEncoding,
            ),
            OpenOutcome::Document(d) => r matches Ok(resp) && resp.success && resp.schedule_json@
                == d,
        }),
{
    match fetched {
        None => {
            let message = String::from_str("No schedule found for user: ").concat(username);
            Ok(GetScheduleResponse { success: false, schedule_json: String::new(), message })
        },
        Some(blob) => {
            match decrypt_data(cipher, blob.as_slice()) {
                Err(e) => Err(e),
                Ok(text) => Ok(
                    GetScheduleResponse {
                        success: true,
                        schedule_json: text,
                        message: String::new(),
                    },
                ),
            }
        },
    }
}

/// The service: the cipher and the record store, composed behind the two
/// operations the outside offers.
pub struct ScheduleIndexerService {
    pub cipher: Cipher,
    pub db: Database,
}

impl ScheduleIndexerService {
    /// The cipher and the store are each well-formed.
    pub closed spec fn wf(self) -> bool {
        self.cipher.wf() && self.db.wf()
    }

    /// Whether the cipher's key has been set.
    pub closed spec fn cipher_ready(self) -> bool {
        self.cipher.is_initialized()
    }

    /// The cipher's key bytes.
    pub closed spec fn key(self) -> Seq<u8> {
        self.cipher.key_bytes()
    }

    /// A service over the given cipher and store.
    pub fn new(cipher: Cipher, db: Database) -> (r: ScheduleIndexerService)
        ensures
            r.cipher_ready() == cipher.is_initialized(),
            r.key() == cipher.key_bytes(),
            r.db == db,
            cipher.wf() && db.wf() ==> r.wf(),
    {
        ScheduleIndexerService { cipher, db }
    }

    /// Store a document: validate, seal, persist. Rejections and failures
    /// leave every record as it was.
    pub fn store_schedule(&mut self, username: &str, schedule_json: &str) -> (r: Result<
        StoreScheduleResponse,
        CoreError,
    >)
        requires
            old(self).wf(),
            schedule_json.spec_bytes().len() <= MAX_PLAINTEXT_LEN,
        ensures
            final(self).wf(),
            final(self).cipher_ready() == old(self).cipher_ready(),
            final(self).key() == old(self).key(),
            final(self).db.schema_ready() == old(self).db.schema_ready(),
            store_rejected(username@, schedule_json@) ==> r == Err::<
                StoreScheduleResponse,
                CoreError,
            >(CoreError::InvalidInput) && final(self).db@ == old(self).db@,
            !store_rejected(username@, schedule_json@) && !old(self).cipher_ready() ==> r == Err::<
                StoreScheduleResponse,
                CoreError,
            >(CoreError::NotInitialized) && final(self).db@ == old(self).db@,
            !store_rejected(username@, schedule_json@) && old(self).cipher_ready() && !old(
                self,
            ).db.schema_ready() ==> r == Err::<StoreScheduleResponse, CoreError>(
                CoreError::StorageError,
            ) && final(self).db@ == old(self).db@,
            !store_rejected(username@, schedule_json@) && old(self).cipher_ready() && old(
                self,
            ).db.schema_ready() ==> (r matches Ok(resp) && resp.success && resp.message@
                == "Schedule stored successfully for user: "@ + username@ && exists|
                blob: Seq<u8>,
                t: int,
            |
                is_sealed(old(self).key(), blob, schedule_json.spec_bytes()) && final(self).db@
                    == upsert(old(self).db@, username@, blob, t)),
    {
        let blob = match store_request(&self.cipher, username, schedule_json) {
            Err(e) => { return Err(e) },
            Ok(b) => b,
        };
        match self.db.store_schedule(username, blob.as_slice()) {
            Err(e) => Err(e),
            Ok(_) => {
                proof {
                    let t = choose|t: int|
                        self.db@ == upsert(old(self).db@, username@, blob@, t);
                    assert(is_sealed(old(self).key(), blob@, schedule_json.spec_bytes())
                        && self.db@ == upsert(old(self).db@, username@, blob@, t));
                }
                let message = String::from_str("Schedule stored successfully for user: ").concat(
                    username,
                );
                Ok(StoreScheduleResponse { success: true, message })
            },
        }
    }

    /// Fetch a document: validate the key, look it up, open what was stored.
    pub fn get_schedule(&self, username: &str) -> (r: Result<GetScheduleResponse, CoreError>)
        requires
            self.wf(),
        ensures
            username@.len() == 0 ==> r == Err::<GetScheduleResponse, CoreError>(
                CoreError::InvalidInput,
            ),
            username@.len() > 0 && !self.db.schema_ready() ==> r == Err::<
                GetScheduleResponse,
                CoreError,
            >(CoreError::StorageError),
            username@.len() > 0 && self.db.schema_ready() && !self.db@.contains_key(username@)
                ==> (r matches Ok(resp) && !resp.success && resp.schedule_json@
                == Seq::<char>::empty()),
            username@.len() > 0 && self.db.schema_ready() && self.db@.contains_key(username@)
                && !self.cipher_ready() && self.db@[username@].value.len() < 28 ==> r == Err::<
                GetScheduleResponse,
                CoreError,
            >(CoreError::MalformedInput),
            username@.len() > 0 && self.db.schema_ready() && self.db@.contains_key(username@)
                && !self.cipher_ready() && self.db@[username@].value.len() >= 28 ==> r == Err::<
                GetScheduleResponse,
                CoreError,
            >(CoreError::NotInitialized),
            username@.len() > 0 && self.db.schema_ready() && self.db@.contains_key(username@)
                && self.cipher_ready() ==> match open_outcome(
                self.key(),
                self.db@[username@].value,
            ) {
                OpenOutcome::Malformed => r == Err::<GetScheduleResponse, CoreError>(
                    CoreError::MalformedInput,
                ),
                OpenOutcome::Unauthenticated => r == Err::<GetScheduleResponse, CoreError>(
                    CoreError::AuthenticationFailure,
                ),
                OpenOutcome::NotDocumentText => r == Err::<GetScheduleResponse, CoreError>(
                    CoreError::InvalidEncoding,
                ),
                OpenOutcome::Document(d) => r matches Ok(resp) && resp.success
                    && resp.schedule_json@ == d,
            },
    {
        match fetch_request(username) {
            Err(e) => { return Err(e) },
            Ok(_) => {},
        }
        match self.db.get_schedule(username) {
            Err(e) => Err(e),
            Ok(fetched) => fetch_response(&self.cipher, username, fetched),
        }
    }
}

} // verus!
