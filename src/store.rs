use vstd::prelude::*;

use crate::audit::{decimal_of, decimal_text};

verus! {

/// Why an operation on the store was refused.
#[derive(Debug, Clone, Copy, PartialEq, Eq, Structural)]
pub enum AuthError {
    /// No record holds the identity digest.
    NotFound,
    /// Another record already holds the identity digest.
    Conflict,
    /// The verifier computed from the supplied password does not match.
    VerificationFailed,
}

/// One stored user: the digests of its name and credential, and the
/// resource whose content keys the credential.
#[derive(Debug, Clone, PartialEq, Eq)]
pub struct UserRecord {
    pub identity_digest: String,
    pub credential_digest: String,
    pub resource_id: String,
}

/// The mathematical content of a [`UserRecord`].
pub struct RecordView {
    pub identity: Seq<char>,
    pub credential: Seq<char>,
    pub resource: Seq<char>,
}

impl View for UserRecord {
    type V = RecordView;

    open spec fn view(&self) -> RecordView {
        RecordView {
            identity: self.identity_digest@,
            credential: self.credential_digest@,
            resource: self.resource_id@,
        }
    }
}

/// The views of a sequence of records.
pub open spec fn records_view(v: Seq<UserRecord>) -> Seq<RecordView> {
    v.map_values(|r: UserRecord| r@)
}

/// No two records share an identity digest.
pub open spec fn unique_identities(s: Seq<RecordView>) -> bool {
    forall|i: int, j: int|
        0 <= i < s.len() && 0 <= j < s.len() && i != j ==> s[i].identity != s[j].identity
}

/// Some record holds the identity digest `d`.
pub open spec fn holds_identity(s: Seq<RecordView>, d: Seq<char>) -> bool {
    exists|i: int| 0 <= i < s.len() && s[i].identity == d
}

/// Some record other than the one at `k` holds the identity digest `d`.
pub open spec fn held_elsewhere(s: Seq<RecordView>, k: int, d: Seq<char>) -> bool {
    exists|i: int| 0 <= i < s.len() && i != k && s[i].identity == d
}

/// Some record is backed by the resource `id`.
pub open spec fn resource_in_use(s: Seq<RecordView>, id: Seq<char>) -> bool {
    exists|i: int| 0 <= i < s.len() && s[i].resource == id
}

/// The position of the record holding `d` (meaningful where one does).
pub open spec fn index_of(s: Seq<RecordView>, d: Seq<char>) -> int {
    choose|i: int| 0 <= i < s.len() && s[i].identity == d
}

/// The store's content after loading `v`: the list itself when its identity
/// digests are unique, else nothing (a corrupt list is dropped).
pub open spec fn loaded(v: Seq<RecordView>) -> Seq<RecordView> {
    if unique_identities(v) {
        v
    } else {
        Seq::empty()
    }
}

/// The listing line of the record at 1-based position `n`.
pub open spec fn listing_line_of(n: nat, r: RecordView) -> Seq<char> {
    decimal_of(n) + ": Nome hash: "@ + r.identity + " | Senha: "@ + r.credential
        + " | ID Imagem: "@ + r.resource
}

/// Where the record holding `d` sits, in a store without duplicates.
pub proof fn lemma_index_of(s: Seq<RecordView>, d: Seq<char>, i: int)
    requires
        unique_identities(s),
        0 <= i < s.len(),
        s[i].identity == d,
    ensures
        holds_identity(s, d),
        index_of(s, d) == i,
{
}

impl UserRecord {
    pub fn new(identity_digest: String, credential_digest: String, resource_id: String) -> (r:
        UserRecord)
        ensures
            r@ == (RecordView {
                identity: identity_digest@,
                credential: credential_digest@,
                resource: resource_id@,
            }),
    {
        UserRecord { identity_digest, credential_digest, resource_id }
    }

    /// A copy of the record, field for field.
    pub fn duplicate(&self) -> (r: UserRecord)
        ensures
            r@ == self@,
    {
        UserRecord {
            identity_digest: self.identity_digest.clone(),
            credential_digest: self.credential_digest.clone(),
            resource_id: self.resource_id.clone(),
        }
    }
}

/// Whether no two records of a persisted list share an identity digest.
pub fn unique_record_identities(records: &Vec<UserRecord>) -> (r: bool)
    ensures
        r == unique_identities(records_view(records@)),
{
    let ghost v = records_view(records@);
    let n = records.len();
    let mut i: usize = 0;
    while i < n
        invariant
            n == records@.len(),
            v == records_view(records@),
            i <= n,
            forall|a: int, b: int| 0 <= a < i && 0 <= b < n && a != b ==> v[a].identity != v[b].identity,
        decreases n - i,
    {
        let mut j: usize = 0;
        while j < n
            invariant
                n == records@.len(),
                v == records_view(records@),
                i < n,
                j <= n,
                forall|a: int, b: int| 0 <= a < i && 0 <= b < n && a != b ==> v[a].identity != v[b].identity,
                forall|b: int| 0 <= b < j && b != i ==> v[i as int].identity != v[b].identity,
            decreases n - j,
        {
            if j != i && records[i].identity_digest == records[j].identity_digest {
                assert(v[i as int] == records@[i as int]@);
                assert(v[j as int] == records@[j as int]@);
                return false;
            }
            j = j + 1;
        }
        i = i + 1;
    }
    true
}

/// The persisted user records, unique by identity digest.
pub struct UserStore {
    records: Vec<UserRecord>,
}

impl View for UserStore {
    type V = Seq<RecordView>;

    closed spec fn view(&self) -> Seq<RecordView> {
        records_view(self.records@)
    }
}

impl UserStore {
    /// The store's invariant: identity digests are unique.
    pub open spec fn wf(&self) -> bool {
        unique_identities(self@)
    }

    /// An empty store.
    pub fn new() -> (r: UserStore)
        ensures
            r.wf(),
            r@ == Seq::<RecordView>::empty(),
    {
        let r = UserStore { records: Vec::new() };
        assert(r@ =~= Seq::<RecordView>::empty());
        r
    }

    /// The store holding a persisted record list. A list in which two records
    /// share an identity digest is corrupt, and gives an empty store; callers
    /// that must report it test the list with [`unique_record_identities`].
    pub fn load(records: Vec<UserRecord>) -> (r: UserStore)
        ensures
            r.wf(),
            r@ == loaded(records_view(records@)),
    {
        if unique_record_identities(&records) {
            UserStore { records }
        } else {
            UserStore::new()
        }
    }

    /// The record list to persist: the store's content, in order.
    pub fn save(&self) -> (r: Vec<UserRecord>)
        ensures
            records_view(r@) == self@,
    {
        let mut out: Vec<UserRecord> = Vec::new();
        let mut i: usize = 0;
        while i < self.records.len()
            invariant
                i <= self.records@.len(),
                out@.len() == i,
                records_view(out@) =~= records_view(self.records@).subrange(0, i as int),
            decreases self.records@.len() - i,
        {
            let ghost before = out@;
            let rec = self.records[i].duplicate();
            out.push(rec);
            proof {
                assert(out@[i as int]@ == self.records@[i as int]@);
                assert forall|k: int| 0 <= k < i + 1 implies records_view(out@)[k] == records_view(
                    self.records@,
                )[k] by {
                    if k < i {
                        assert(out@[k] == before[k]);
                        assert(records_view(before)[k] == before[k]@);
                        assert(records_view(self.records@).subrange(0, i as int)[k]
                            == records_view(self.records@)[k]);
                    } else {
                        assert(records_view(out@)[k] == out@[k]@);
                    }
                }
            }
            i = i + 1;
        }
        assert(records_view(self.records@).subrange(0, i as int) =~= self@);
        out
    }

    /// The number of records.
    pub fn len(&self) -> (r: usize)
        ensures
            r == self@.len(),
    {
        self.records.len()
    }

    /// The record at `index`.
    pub fn get(&self, index: usize) -> (r: &UserRecord)
        requires
            index < self@.len(),
        ensures
            r@ == self@[index as int],
    {
        &self.records[index]
    }

    /// The position of the record holding the identity digest `digest`.
    pub fn find_by_identity(&self, digest: &String) -> (r: Option<usize>)
        ensures
            r is None <==> !holds_identity(self@, digest@),
            r matches Some(i) ==> i < self@.len() && self@[i as int].identity == digest@,
    {
        let mut i: usize = 0;
        while i < self.records.len()
            invariant
                i <= self@.len(),
                self@.len() == self.records@.len(),
                forall|k: int| 0 <= k < i ==> self@[k].identity != digest@,
            decreases self@.len() - i,
        {
            proof {
                assert(self@[i as int] == self.records@[i as int]@);
            }
            if self.records[i].identity_digest == *digest {
                return Some(i);
            }
            i = i + 1;
        }
        None
    }

    /// Appends `record`, unless its identity digest is already held.
    pub fn create(&mut self, record: UserRecord) -> (r: Result<(), AuthError>)
        requires
            old(self).wf(),
        ensures
            final(self).wf(),
            holds_identity(old(self)@, record@.identity) ==> r == Err::<(), AuthError>(
                AuthError::Conflict) && final(self)@ == old(self)@,
            !holds_identity(old(self)@, record@.identity) ==> r == Ok::<(), AuthError>(())
                && final(self)@ == old(self)@.push(record@),
    {
        if self.find_by_identity(&record.identity_digest).is_some() {
            return Err(AuthError::Conflict);
        }
        self.records.push(record);
        assert(self@ =~= old(self)@.push(record@));
        Ok(())
    }

    /// Overwrites the record at `index`, unless another record holds the new
    /// identity digest.
    pub fn replace(&mut self, index: usize, record: UserRecord) -> (r: Result<(), AuthError>)
        requires
            old(self).wf(),
            index < old(self)@.len(),
        ensures
            final(self).wf(),
            held_elsewhere(old(self)@, index as int, record@.identity) ==> r == Err::<(), AuthError>(
                AuthError::Conflict) && final(self)@ == old(self)@,
            !held_elsewhere(old(self)@, index as int, record@.identity) ==> r == Ok::<(), AuthError>(())
                && final(self)@ == old(self)@.update(index as int, record@),
    {
        let mut i: usize = 0;
        while i < self.records.len()
            invariant
                i <= self@.len(),
                *self == *old(self),
                self.wf(),
                self@.len() == self.records@.len(),
                index < self@.len(),
                forall|k: int| 0 <= k < i && k != index ==> self@[k].identity != record@.identity,
            decreases self@.len() - i,
        {
            proof {
                assert(self@[i as int] == self.records@[i as int]@);
            }
            if i != index && self.records[i].identity_digest == record.identity_digest {
                return Err(AuthError::Conflict);
            }
            i = i + 1;
        }
        self.records.set(index, record);
        assert(self@ =~= old(self)@.update(index as int, record@));
        Ok(())
    }

    /// `id` itself when no record is backed by it, `None` when one is.
    pub fn unused_resource_id(&self, id: String) -> (r: Option<String>)
        ensures
            r is None <==> resource_in_use(self@, id@),
            r matches Some(x) ==> x@ == id@,
    {
        let mut i: usize = 0;
        while i < self.records.len()
            invariant
                i <= self@.len(),
                self@.len() == self.records@.len(),
                forall|k: int| 0 <= k < i ==> self@[k].resource != id@,
            decreases self@.len() - i,
        {
            proof {
                assert(self@[i as int] == self.records@[i as int]@);
            }
            if self.records[i].resource_id == id {
                return None;
            }
            i = i + 1;
        }
        Some(id)
    }

    /// One line per record, in order, numbered from 1: its digests and its
    /// resource id.
    pub fn listing(&self) -> (r: Vec<String>)
        requires
            self@.len() < u64::MAX,
        ensures
            r@.len() == self@.len(),
            forall|i: int| 0 <= i < r@.len() ==> #[trigger] r@[i]@ == listing_line_of((i + 1) as nat, self@[i]),
    {
        let mut out: Vec<String> = Vec::new();
        let mut i: usize = 0;
        while i < self.records.len()
            invariant
                i <= self@.len(),
                self@.len() == self.records@.len(),
                self@.len() < u64::MAX,
                out@.len() == i,
                forall|k: int| 0 <= k < i ==> #[trigger] out@[k]@ == listing_line_of((k + 1) as nat, self@[k]),
            decreases self@.len() - i,
        {
            let rec = &self.records[i];
            proof {
                assert(self@[i as int] == rec@);
            }
            let mut line = decimal_text((i + 1) as u64);
            line.append(": Nome hash: ");
            line.append(rec.identity_digest.as_str());
            line.append(" | Senha: ");
            line.append(rec.credential_digest.as_str());
            line.append(" | ID Imagem: ");
            line.append(rec.resource_id.as_str());
            out.push(line);
            i = i + 1;
        }
        out
    }
}

} // verus!
