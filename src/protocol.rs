use vstd::prelude::*;

use crate::hashing::{credential_digest, identity_digest, identity_of, verifier_of};
use crate::store::{
    held_elsewhere, holds_identity, index_of, lemma_index_of, resource_in_use, AuthError,
    RecordView, UserRecord, UserStore,
};

verus! {

/// The address from which the content of resource `resource_id` is fetched.
pub open spec fn image_url_of(resource_id: Seq<char>) -> Seq<char> {
    "https://picsum.photos/id/"@ + resource_id + "/200"@
}

/// The record that `create` stores for a user.
pub open spec fn new_record(
    username: Seq<char>,
    password: Seq<char>,
    resource_id: Seq<char>,
    key: Seq<u8>,
) -> RecordView {
    RecordView {
        identity: identity_of(username),
        credential: verifier_of(key, password),
        resource: resource_id,
    }
}

/// The store's content and the result after creating a user whose resource
/// `resource_id` yielded `key`.
pub open spec fn create_outcome(
    s: Seq<RecordView>,
    username: Seq<char>,
    password: Seq<char>,
    resource_id: Seq<char>,
    key: Seq<u8>,
) -> (Seq<RecordView>, Result<(), AuthError>) {
    let rec = new_record(username, password, resource_id, key);
    if holds_identity(s, rec.identity) {
        (s, Err(AuthError::Conflict))
    } else {
        (s.push(rec), Ok(()))
    }
}

/// The result of validating a password, with `key` derived from the stored
/// resource of the user.
pub open spec fn validate_outcome(
    s: Seq<RecordView>,
    username: Seq<char>,
    password: Seq<char>,
    key: Seq<u8>,
) -> Result<(), AuthError> {
    let d = identity_of(username);
    if !holds_identity(s, d) {
        Err(AuthError::NotFound)
    } else if s[index_of(s, d)].credential == verifier_of(key, password) {
        Ok(())
    } else {
        Err(AuthError::VerificationFailed)
    }
}

/// The store's content and the result after an edit: the current password is
/// checked under `old_key`, then the record is rewritten for the new name,
/// the new password and the new resource, whose content yielded `new_key`.
pub open spec fn edit_outcome(
    s: Seq<RecordView>,
    username: Seq<char>,
    password: Seq<char>,
    old_key: Seq<u8>,
    new_username: Seq<char>,
    new_password: Seq<char>,
    new_resource_id: Seq<char>,
    new_key: Seq<u8>,
) -> (Seq<RecordView>, Result<(), AuthError>) {
    let d = identity_of(username);
    if !holds_identity(s, d) {
        (s, Err(AuthError::NotFound))
    } else {
        let i = index_of(s, d);
        let rec = new_record(new_username, new_password, new_resource_id, new_key);
        if s[i].credential != verifier_of(old_key, password) {
            (s, Err(AuthError::VerificationFailed))
        } else if held_elsewhere(s, i, rec.identity) {
            (s, Err(AuthError::Conflict))
        } else {
            (s.update(i, rec), Ok(()))
        }
    }
}

/// The address of the image that backs resource `resource_id`.
pub fn image_url(resource_id: &str) -> (r: String)
    ensures
        r@ == image_url_of(resource_id@),
{
    let mut url = String::from_str("https://picsum.photos/id/");
    url.append(resource_id);
    url.append("/200");
    url
}

/// The resource id stored for `username`, which validation and edit must
/// fetch to re-derive the user's key; `None` when the user is unknown.
pub fn resource_of_user(store: &UserStore, username: &str) -> (r: Option<String>)
    requires
        store.wf(),
    ensures
        r is None <==> !holds_identity(store@, identity_of(username@)),
        r matches Some(id) ==> id@ == store@[index_of(store@, identity_of(username@))].resource,
{
    let digest = identity_digest(username);
    match store.find_by_identity(&digest) {
        None => None,
        Some(i) => {
            proof {
                lemma_index_of(store@, digest@, i as int);
            }
            Some(store.get(i).resource_id.clone())
        },
    }
}

/// Creates a user whose credential is keyed by `key`, the key derived from
/// the content of the resource `resource_id`. Refused with `Conflict` when
/// the username is already taken.
pub fn create_user(
    store: &mut UserStore,
    username: &str,
    password: &str,
    resource_id: String,
    key: &[u8],
) -> (r: Result<(), AuthError>)
    requires
        old(store).wf(),
    ensures
        final(store).wf(),
        (final(store)@, r) == create_outcome(old(store)@, username@, password@, resource_id@, key@),
{
    let identity = identity_digest(username);
    let credential = credential_digest(key, password);
    let record = UserRecord::new(identity, credential, resource_id);
    store.create(record)
}

/// Checks a password against the stored verifier, with `key` derived from
/// the user's stored resource. An unknown user gives `NotFound`, a mismatch
/// `VerificationFailed`.
pub fn validate_user(store: &UserStore, username: &str, password: &str, key: &[u8]) -> (r: Result<
    (),
    AuthError,
>)
    requires
        store.wf(),
    ensures
        r == validate_outcome(store@, username@, password@, key@),
{
    let digest = identity_digest(username);
    match store.find_by_identity(&digest) {
        None => Err(AuthError::NotFound),
        Some(i) => {
            proof {
                lemma_index_of(store@, digest@, i as int);
            }
            let verifier = credential_digest(key, password);
            if verifier == store.get(i).credential_digest {
                Ok(())
            } else {
                Err(AuthError::VerificationFailed)
            }
        },
    }
}

/// Re-keys a user: checks the current password under `old_key` (derived
/// from the stored resource), then replaces the record with one for the new
/// name and password, keyed by `new_key` from the unused resource
/// `new_resource_id`.
pub fn edit_user(
    store: &mut UserStore,
    username: &str,
    password: &str,
    old_key: &[u8],
    new_username: &str,
    new_password: &str,
    new_resource_id: String,
    new_key: &[u8],
) -> (r: Result<(), AuthError>)
    requires
        old(store).wf(),
        !resource_in_use(old(store)@, new_resource_id@),
    ensures
        final(store).wf(),
        (final(store)@, r) == edit_outcome(
            old(store)@,
            username@,
            password@,
            old_key@,
            new_username@,
            new_password@,
            new_resource_id@,
            new_key@,
        ),
{
    let digest = identity_digest(username);
    match store.find_by_identity(&digest) {
        None => Err(AuthError::NotFound),
        Some(i) => {
            proof {
                lemma_index_of(store@, digest@, i as int);
            }
            let verifier = credential_digest(old_key, password);
            if verifier != store.get(i).credential_digest {
                return Err(AuthError::VerificationFailed);
            }
            let identity = identity_digest(new_username);
            let credential = credential_digest(new_key, new_password);
            let record = UserRecord::new(identity, credential, new_resource_id);
            store.replace(i, record)
        },
    }
}

} // verus!
