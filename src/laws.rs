use vstd::prelude::*;
use vstd::utf8::encode_utf8;

use crate::hashing::{identity_of, lemma_hex_injective, sha256_of, verifier_of};
use crate::protocol::{create_outcome, edit_outcome, new_record, validate_outcome};
use crate::store::{
    holds_identity, index_of, lemma_index_of, loaded, resource_in_use, unique_identities,
    AuthError, RecordView,
};

verus! {

/// Exactly one record holds the identity digest `d`.
pub open spec fn held_once(s: Seq<RecordView>, d: Seq<char>) -> bool {
    exists|i: int|
        0 <= i < s.len() && s[i].identity == d && forall|j: int|
            0 <= j < s.len() && #[trigger] s[j].identity == d ==> j == i
}

/// A user that was just created validates with the same password, as long as
/// its resource still yields the same key.
pub proof fn lemma_create_then_validate(
    s: Seq<RecordView>,
    username: Seq<char>,
    password: Seq<char>,
    resource_id: Seq<char>,
    key: Seq<u8>,
)
    requires
        unique_identities(s),
    ensures
        create_outcome(s, username, password, resource_id, key).1 is Ok ==> validate_outcome(
            create_outcome(s, username, password, resource_id, key).0,
            username,
            password,
            key,
        ) == Ok::<(), AuthError>(()),
{
    let rec = new_record(username, password, resource_id, key);
    if !holds_identity(s, rec.identity) {
        let s2 = s.push(rec);
        assert(unique_identities(s2));
        lemma_index_of(s2, rec.identity, s.len() as int);
    }
}

/// Creating the same username twice leaves exactly one record for it, and the
/// second call reports a conflict without changing the store.
pub proof fn lemma_create_twice(
    s: Seq<RecordView>,
    username: Seq<char>,
    password: Seq<char>,
    resource_id: Seq<char>,
    key: Seq<u8>,
    password2: Seq<char>,
    resource_id2: Seq<char>,
    key2: Seq<u8>,
)
    requires
        unique_identities(s),
    ensures
        ({
            let s1 = create_outcome(s, username, password, resource_id, key).0;
            let (s2, r2) = create_outcome(s1, username, password2, resource_id2, key2);
            &&& r2 == Err::<(), AuthError>(AuthError::Conflict)
            &&& s2 == s1
            &&& held_once(s2, identity_of(username))
        }),
{
    let d = identity_of(username);
    let rec = new_record(username, password, resource_id, key);
    let s1 = create_outcome(s, username, password, resource_id, key).0;
    if holds_identity(s, d) {
        let i = index_of(s, d);
        assert(s1 == s);
        assert(forall|j: int| 0 <= j < s.len() && #[trigger] s[j].identity == d ==> j == i);
    } else {
        let i = s.len() as int;
        assert(s1 == s.push(rec));
        assert(s1[i].identity == d);
        assert(holds_identity(s1, d));
        assert(forall|j: int| 0 <= j < s1.len() && #[trigger] s1[j].identity == d ==> j == i) by {
            assert forall|j: int| 0 <= j < s1.len() && #[trigger] s1[j].identity == d implies j
                == i by {
                if j < i {
                    assert(s[j] == s1[j]);
                }
            }
        }
    }
}

/// A password whose verifier differs from the accepted one's is refused for
/// the same user and the same key.
pub proof fn lemma_wrong_password_fails(
    s: Seq<RecordView>,
    username: Seq<char>,
    password: Seq<char>,
    wrong: Seq<char>,
    key: Seq<u8>,
)
    requires
        unique_identities(s),
        sha256_of(key + encode_utf8(password)) != sha256_of(key + encode_utf8(wrong)),
    ensures
        validate_outcome(s, username, password, key) is Ok ==> validate_outcome(
            s,
            username,
            wrong,
            key,
        ) == Err::<(), AuthError>(AuthError::VerificationFailed),
{
    lemma_hex_injective(
        sha256_of(key + encode_utf8(password)),
        sha256_of(key + encode_utf8(wrong)),
    );
    assert(verifier_of(key, password) != verifier_of(key, wrong));
}

/// Validating a username that no record holds reports that it is not found,
/// never a verification failure.
pub proof fn lemma_unknown_user_not_found(
    s: Seq<RecordView>,
    username: Seq<char>,
    password: Seq<char>,
    key: Seq<u8>,
)
    requires
        !holds_identity(s, identity_of(username)),
    ensures
        validate_outcome(s, username, password, key) == Err::<(), AuthError>(AuthError::NotFound),
{
}

/// A successful edit moves the record to a resource other than the one it
/// had, keeps identities unique, and the new name validates with the new
/// password under the new key.
pub proof fn lemma_edit_fresh_resource(
    s: Seq<RecordView>,
    username: Seq<char>,
    password: Seq<char>,
    old_key: Seq<u8>,
    new_username: Seq<char>,
    new_password: Seq<char>,
    new_resource_id: Seq<char>,
    new_key: Seq<u8>,
)
    requires
        unique_identities(s),
        !resource_in_use(s, new_resource_id),
    ensures
        ({
            let (s2, r) = edit_outcome(
                s,
                username,
                password,
                old_key,
                new_username,
                new_password,
                new_resource_id,
                new_key,
            );
            let i = index_of(s, identity_of(username));
            r is Ok ==> {
                &&& unique_identities(s2)
                &&& index_of(s2, identity_of(new_username)) == i
                &&& s2[i].resource != s[i].resource
                &&& validate_outcome(s2, new_username, new_password, new_key) == Ok::<
                    (),
                    AuthError,
                >(())
            }
        }),
{
    let (s2, r) = edit_outcome(
        s,
        username,
        password,
        old_key,
        new_username,
        new_password,
        new_resource_id,
        new_key,
    );
    if r is Ok {
        let d = identity_of(username);
        let i = index_of(s, d);
        let rec = new_record(new_username, new_password, new_resource_id, new_key);
        assert(s2 == s.update(i, rec));
        assert(unique_identities(s2));
        lemma_index_of(s2, rec.identity, i);
    }
}

/// After a successful edit, the key of the old resource no longer validates
/// the new credentials, unless the two keys give the same digest with the
/// new password.
pub proof fn lemma_edit_old_key_fails(
    s: Seq<RecordView>,
    username: Seq<char>,
    password: Seq<char>,
    old_key: Seq<u8>,
    new_username: Seq<char>,
    new_password: Seq<char>,
    new_resource_id: Seq<char>,
    new_key: Seq<u8>,
)
    requires
        unique_identities(s),
        !resource_in_use(s, new_resource_id),
        sha256_of(old_key + encode_utf8(new_password)) != sha256_of(
            new_key + encode_utf8(new_password),
        ),
    ensures
        ({
            let (s2, r) = edit_outcome(
                s,
                username,
                password,
                old_key,
                new_username,
                new_password,
                new_resource_id,
                new_key,
            );
            r is Ok ==> validate_outcome(s2, new_username, new_password, old_key) == Err::<
                (),
                AuthError,
            >(AuthError::VerificationFailed)
        }),
{
    lemma_edit_fresh_resource(
        s,
        username,
        password,
        old_key,
        new_username,
        new_password,
        new_resource_id,
        new_key,
    );
    lemma_hex_injective(
        sha256_of(old_key + encode_utf8(new_password)),
        sha256_of(new_key + encode_utf8(new_password)),
    );
    assert(verifier_of(old_key, new_password) != verifier_of(new_key, new_password));
}

/// Saving what was loaded gives back the loaded list, field for field, for
/// every list without duplicate identities.
pub proof fn lemma_save_load_round_trip(v: Seq<RecordView>)
    requires
        unique_identities(v),
    ensures
        loaded(v) == v,
{
}

} // verus!
