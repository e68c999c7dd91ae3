//! The authorized-face registry: the in-memory list of authorized identities.
//!
//! Reading and writing the persisted list is done by the caller; this module
//! holds the rules on the list itself.
use vstd::prelude::*;

verus! {

/// An authorized identity.
pub struct FaceRecord {
    /// Unique identifier (a random UUID, hyphenated).
    pub id: String,
    /// Name of the authorized person.
    pub name: String,
    /// Path of the reference photo.
    pub photo_path: String,
    /// Creation time, in microseconds since the Unix epoch (UTC).
    pub created_at: i64,
}

/// Relies on `uuid::Uuid::new_v4` and its `Display`, which writes the
/// hyphenated form: 32 hex digits and 4 hyphens.
#[verifier::external_body]
fn fresh_record_id() -> (r: String)
    ensures
        r@.len() == 36,
{
    uuid::Uuid::new_v4().to_string()
}

/// Relies on `chrono::Utc::now` and `DateTime::timestamp_micros`: the current
/// time, which `Utc::now` takes as a duration since the Unix epoch (it panics
/// on a system clock set before the epoch).
#[verifier::external_body]
pub(crate) fn now_micros() -> (r: i64)
    ensures
        r >= 0,
{
    chrono::Utc::now().timestamp_micros()
}

impl Clone for FaceRecord {
    fn clone(&self) -> (r: FaceRecord)
        ensures
            r == *self,
    {
        FaceRecord {
            id: self.id.clone(),
            name: self.name.clone(),
            photo_path: self.photo_path.clone(),
            created_at: self.created_at,
        }
    }
}

impl FaceRecord {
    /// A new record with a freshly generated id and the current time.
    pub fn new(name: String, photo_path: String) -> (r: FaceRecord)
        ensures
            r.name == name,
            r.photo_path == photo_path,
            r.id@.len() == 36,
            r.created_at >= 0,
    {
        let id = fresh_record_id();
        let created_at = now_micros();
        FaceRecord { id, name, photo_path, created_at }
    }
}

/// No two records share an id.
pub open spec fn ids_unique(s: Seq<FaceRecord>) -> bool {
    forall|i: int, j: int| 0 <= i < s.len() && 0 <= j < s.len() && i != j ==> s[i].id@ != s[j].id@
}

/// Some record has the id.
pub open spec fn has_id(s: Seq<FaceRecord>, id: Seq<char>) -> bool {
    exists|i: int| 0 <= i < s.len() && s[i].id@ == id
}

/// The records whose id differs from `id`, in their order.
pub open spec fn without_id(s: Seq<FaceRecord>, id: Seq<char>) -> Seq<FaceRecord>
    decreases s.len(),
{
    if s.len() == 0 {
        s
    } else {
        let rest = without_id(s.drop_last(), id);
        if s.last().id@ == id {
            rest
        } else {
            rest.push(s.last())
        }
    }
}

/// The snapshot that loading gives: the persisted list, or empty when none exists.
pub open spec fn loaded(stored: Option<Seq<FaceRecord>>) -> Seq<FaceRecord> {
    match stored {
        Some(s) => s,
        None => Seq::empty(),
    }
}

/// The registry of authorized faces.
pub struct FaceDatabase {
    pub records: Vec<FaceRecord>,
}

impl FaceDatabase {
    /// The registry as loaded from its persisted list; `None` when nothing was
    /// persisted yet, which gives an empty registry (a first run is no error).
    pub fn new(stored: Option<Vec<FaceRecord>>) -> (r: FaceDatabase)
        ensures
            r.records@ == loaded(
                match stored {
                    Some(v) => Some(v@),
                    None => None,
                },
            ),
    {
        match stored {
            Some(records) => FaceDatabase { records },
            None => FaceDatabase { records: Vec::new() },
        }
    }

    /// Appends a record. The caller persists the whole list right after.
    pub fn add_record(&mut self, record: FaceRecord)
        ensures
            final(self).records@ == old(self).records@.push(record),
    {
        self.records.push(record);
    }

    /// Removes the records with the given id; returns whether any was removed.
    /// The caller persists the list only when this returns `true`.
    pub fn remove_record(&mut self, id: &String) -> (removed: bool)
        ensures
            final(self).records@ == without_id(old(self).records@, id@),
            removed == has_id(old(self).records@, id@),
            removed == (final(self).records@.len() < old(self).records@.len()),
    {
        let ghost before = self.records@;
        let mut kept: Vec<FaceRecord> = Vec::new();
        let n = self.records.len();
        let mut i: usize = 0;
        while i < n
            invariant
                n == before.len(),
                self.records@ == before,
                0 <= i <= n,
                kept@ == without_id(before.subrange(0, i as int), id@),
            decreases n - i,
        {
            let rec = &self.records[i];
            proof {
                assert(before.subrange(0, i + 1).drop_last() =~= before.subrange(0, i as int));
            }
            if !(rec.id == *id) {
                kept.push(rec.clone());
            }
            i = i + 1;
        }
        proof {
            assert(before.subrange(0, n as int) =~= before);
            lemma_without_id_len(before, id@);
        }
        let removed = kept.len() < n;
        self.records = kept;
        removed
    }

    /// The authorized records, in registry order.
    pub fn get_authorized_faces(&self) -> (r: &Vec<FaceRecord>)
        ensures
            r@ == self.records@,
    {
        &self.records
    }
}

/// Removing by id keeps at most as many records, and strictly fewer exactly
/// when some record has the id.
pub proof fn lemma_without_id_len(s: Seq<FaceRecord>, id: Seq<char>)
    ensures
        without_id(s, id).len() <= s.len(),
        without_id(s, id).len() < s.len() <==> has_id(s, id),
    decreases s.len(),
{
    if s.len() > 0 {
        let p = s.drop_last();
        lemma_without_id_len(p, id);
        if has_id(p, id) {
            let i = choose|i: int| 0 <= i < p.len() && p[i].id@ == id;
            assert(s[i].id@ == id);
        }
        if has_id(s, id) && s.last().id@ != id {
            let i = choose|i: int| 0 <= i < s.len() && s[i].id@ == id;
            assert(i != s.len() - 1);
            assert(p[i].id@ == id);
        }
    }
}

/// With unique ids, removing an absent id changes nothing, and removing a
/// present id takes away exactly one record.
pub proof fn lemma_remove_by_id(s: Seq<FaceRecord>, id: Seq<char>)
    requires
        ids_unique(s),
    ensures
        !has_id(s, id) ==> without_id(s, id) == s,
        has_id(s, id) ==> without_id(s, id).len() == s.len() - 1,
    decreases s.len(),
{
    if s.len() > 0 {
        let p = s.drop_last();
        assert(ids_unique(p)) by {
            assert forall|i: int, j: int|
                0 <= i < p.len() && 0 <= j < p.len() && i != j implies p[i].id@ != p[j].id@ by {
                assert(s[i] == p[i] && s[j] == p[j]);
            }
        }
        lemma_remove_by_id(p, id);
        if s.last().id@ == id {
            assert(!has_id(p, id)) by {
                if has_id(p, id) {
                    let i = choose|i: int| 0 <= i < p.len() && p[i].id@ == id;
                    assert(s[i].id@ == s[s.len() - 1].id@);
                }
            }
        } else {
            assert(has_id(s, id) ==> has_id(p, id)) by {
                if has_id(s, id) {
                    let i = choose|i: int| 0 <= i < s.len() && s[i].id@ == id;
                    assert(p[i].id@ == id);
                }
            }
            assert(has_id(p, id) ==> has_id(s, id)) by {
                if has_id(p, id) {
                    let i = choose|i: int| 0 <= i < p.len() && p[i].id@ == id;
                    assert(s[i].id@ == id);
                }
            }
            if !has_id(s, id) {
                assert(p.push(s.last()) =~= s);
            }
        }
    }
}

/// Loading the list that `add_record` leaves behind gives back that list: the
/// earlier records followed by the added one, which from an empty registry is
/// exactly the added record.
pub proof fn lemma_add_then_load(before: Seq<FaceRecord>, record: FaceRecord)
    ensures
        loaded(Some(before.push(record))) == before.push(record),
        loaded(Some(before.push(record))).last() == record,
        before.len() == 0 ==> loaded(Some(before.push(record))) == seq![record],
{
    if before.len() == 0 {
        assert(before.push(record) =~= seq![record]);
    }
}

} // verus!
