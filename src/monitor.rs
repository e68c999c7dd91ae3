//! The last recognition outcome, and the monitor of the reference-photo
//! directory that keeps the registry company.
use crate::registry::{FaceDatabase, FaceRecord};
use vstd::hash_map::StringHashMap;
use vstd::prelude::*;
use vstd::string::StrSliceExecFns;

verus! {

/// Outcome of recognizing one frame, as the status endpoint reports it.
pub struct RecognitionResponse {
    /// Name of the recognized person; set only when `recognized` is true.
    pub name: Option<String>,
    /// Whether a face was recognized.
    pub recognized: bool,
}

impl RecognitionResponse {
    /// A name is reported only together with a recognition.
    pub open spec fn wf(&self) -> bool {
        self.name is Some ==> self.recognized
    }
}

impl Clone for RecognitionResponse {
    fn clone(&self) -> (r: RecognitionResponse)
        ensures
            r == *self,
    {
        let name = match &self.name {
            Some(n) => Some(n.clone()),
            None => None,
        };
        RecognitionResponse { name, recognized: self.recognized }
    }
}

/// Index of the last `'.'` among the first `n` characters, or `-1`.
pub open spec fn last_dot(name: Seq<char>, n: int) -> int
    decreases n,
{
    if n <= 0 {
        -1
    } else if name[n - 1] == '.' {
        n - 1
    } else {
        last_dot(name, n - 1)
    }
}

/// The extension of a file name: what follows its last `'.'`, where that dot
/// is not the name's first character.
pub open spec fn extension_of(name: Seq<char>) -> Option<Seq<char>> {
    let k = last_dot(name, name.len() as int);
    if k <= 0 {
        None
    } else {
        Some(name.subrange(k + 1, name.len() as int))
    }
}

/// `c` is the lower-case ASCII letter `lower` or its upper-case form.
pub open spec fn is_letter_ignoring_case(c: char, lower: char) -> bool {
    c == lower || c as u32 + 32 == lower as u32
}

/// The extension is `jpg` or `jpeg`, in any case.
pub open spec fn is_photo_extension(ext: Seq<char>) -> bool {
    ||| (ext.len() == 3 && is_letter_ignoring_case(ext[0], 'j') && is_letter_ignoring_case(
        ext[1],
        'p',
    ) && is_letter_ignoring_case(ext[2], 'g'))
    ||| (ext.len() == 4 && is_letter_ignoring_case(ext[0], 'j') && is_letter_ignoring_case(
        ext[1],
        'p',
    ) && is_letter_ignoring_case(ext[2], 'e') && is_letter_ignoring_case(ext[3], 'g'))
}

/// A file of the reference-photo directory that the monitor tracks.
pub open spec fn is_photo_name(name: Seq<char>) -> bool {
    match extension_of(name) {
        Some(ext) => is_photo_extension(ext),
        None => false,
    }
}

fn letter_ignoring_case(c: char, lower: char) -> (r: bool)
    ensures
        r == is_letter_ignoring_case(c, lower),
{
    c == lower || (c as u32) + 32 == lower as u32
}

/// Whether a file name has a photo extension (`jpg` or `jpeg`, any case).
pub fn is_photo_file_name(name: &str) -> (r: bool)
    ensures
        r == is_photo_name(name@),
{
    let n = name.unicode_len();
    let mut k: usize = n;
    while k > 0 && name.get_char(k - 1) != '.'
        invariant
            n == name@.len(),
            0 <= k <= n,
            last_dot(name@, n as int) == last_dot(name@, k as int),
        decreases k,
    {
        k = k - 1;
    }
    if k <= 1 {
        return false;
    }
    let dot = k - 1;
    let len = n - dot - 1;
    if len == 3 {
        letter_ignoring_case(name.get_char(dot + 1), 'j') && letter_ignoring_case(
            name.get_char(dot + 2),
            'p',
        ) && letter_ignoring_case(name.get_char(dot + 3), 'g')
    } else if len == 4 {
        letter_ignoring_case(name.get_char(dot + 1), 'j') && letter_ignoring_case(
            name.get_char(dot + 2),
            'p',
        ) && letter_ignoring_case(name.get_char(dot + 3), 'e') && letter_ignoring_case(
            name.get_char(dot + 4),
            'g',
        )
    } else {
        false
    }
}

/// A directory entry as read from disk: its file name and its last
/// modification time, in whole seconds since the Unix epoch.
pub struct PhotoFileRecord {
    pub file_name: String,
    pub modified: u64,
}

/// The photo files of a listing by name, each with its modification time; of
/// two entries with one name the later one counts.
pub open spec fn listing_map(entries: Seq<PhotoFileRecord>) -> Map<Seq<char>, u64>
    decreases entries.len(),
{
    if entries.len() == 0 {
        Map::empty()
    } else {
        let m = listing_map(entries.drop_last());
        let e = entries.last();
        if is_photo_name(e.file_name@) {
            m.insert(e.file_name@, e.modified)
        } else {
            m
        }
    }
}

/// The character sequences of the strings.
pub open spec fn views(v: Seq<String>) -> Seq<Seq<char>> {
    v.map_values(|s: String| s@)
}

/// `names` holds each member of `set` once, and nothing else.
pub open spec fn lists_exactly(names: Seq<String>, set: Set<Seq<char>>) -> bool {
    &&& views(names).no_duplicates()
    &&& forall|n: Seq<char>| #[trigger] set.contains(n) <==> views(names).contains(n)
}

/// What one scan found changed in the photo directory.
pub struct ScanReport {
    /// Photo files present now and absent at the previous scan.
    pub added: Vec<String>,
    /// Photo files present at the previous scan and absent now.
    pub removed: Vec<String>,
}

/// Watches the reference-photo directory for photos added or removed, and
/// holds the registry snapshot that recognition reads.
pub struct DatabaseMonitor {
    face_db: FaceDatabase,
    photo_files: StringHashMap<u64>,
    photo_names: Vec<String>,
}

impl DatabaseMonitor {
    /// The photo files of the last scan, by name, with their modification times.
    pub closed spec fn photo_map(&self) -> Map<Seq<char>, u64> {
        self.photo_files@
    }

    /// The registry that the monitor holds.
    pub closed spec fn registry(&self) -> FaceDatabase {
        self.face_db
    }

    pub closed spec fn wf(&self) -> bool {
        lists_exactly(self.photo_names@, self.photo_files@.dom())
    }

    /// A monitor over the given registry, with the listing of a first scan.
    pub fn new(face_db: FaceDatabase, listing: &Vec<PhotoFileRecord>) -> (r: DatabaseMonitor)
        ensures
            r.wf(),
            r.registry() == face_db,
            r.photo_map() == listing_map(listing@),
    {
        let mut monitor = DatabaseMonitor {
            face_db,
            photo_files: StringHashMap::new(),
            photo_names: Vec::new(),
        };
        proof {
            assert(views(monitor.photo_names@) =~= Seq::empty());
        }
        let _ = monitor.scan_database(listing);
        monitor
    }

    /// The registry that the monitor holds.
    pub fn get_face_database(&self) -> (r: &FaceDatabase)
        ensures
            *r == self.registry(),
    {
        &self.face_db
    }

    /// Replaces the registry wholesale with a freshly loaded one.
    pub fn update_face_database(&mut self, face_db: FaceDatabase)
        requires
            old(self).wf(),
        ensures
            final(self).wf(),
            final(self).registry() == face_db,
            final(self).photo_map() == old(self).photo_map(),
    {
        self.face_db = face_db;
    }

    /// Number of photo files that the last scan found.
    pub fn photo_count(&self) -> (r: usize)
        ensures
            r == self.photo_map().len(),
    {
        self.photo_files.len()
    }

    /// A copy of the registry's records, for one recognition pass.
    pub fn get_snapshot(&self) -> (r: Vec<FaceRecord>)
        ensures
            r@ == self.registry().records@,
    {
        let records = &self.face_db.records;
        let mut copy: Vec<FaceRecord> = Vec::new();
        let mut i: usize = 0;
        while i < records.len()
            invariant
                0 <= i <= records.len(),
                copy@ == records@.subrange(0, i as int),
            decreases records.len() - i,
        {
            copy.push(records[i].clone());
            proof {
                assert(copy@ =~= records@.subrange(0, i + 1));
            }
            i = i + 1;
        }
        proof {
            assert(copy@ =~= records@);
        }
        copy
    }

    /// Reconciles the tracked photo files with a fresh directory listing.
    ///
    /// Photo files of `listing` (by extension) replace the tracked ones; the
    /// report names those added since the previous scan and those removed,
    /// each once. The registry is left as it is.
    pub fn scan_database(&mut self, listing: &Vec<PhotoFileRecord>) -> (report: ScanReport)
        requires
            old(self).wf(),
        ensures
            final(self).wf(),
            final(self).registry() == old(self).registry(),
            final(self).photo_map() == listing_map(listing@),
            lists_exactly(
                report.added@,
                final(self).photo_map().dom().difference(old(self).photo_map().dom()),
            ),
            lists_exactly(
                report.removed@,
                old(self).photo_map().dom().difference(final(self).photo_map().dom()),
            ),
    {
        let mut current: StringHashMap<u64> = StringHashMap::new();
        let mut names: Vec<String> = Vec::new();
        let mut i: usize = 0;
        proof {
            assert(views(names@) =~= Seq::empty());
        }
        while i < listing.len()
            invariant
                0 <= i <= listing.len(),
                current@ == listing_map(listing@.subrange(0, i as int)),
                lists_exactly(names@, current@.dom()),
            decreases listing.len() - i,
        {
            let entry = &listing[i];
            proof {
                assert(listing@.subrange(0, i + 1).drop_last() =~= listing@.subrange(0, i as int));
                assert(listing@.subrange(0, i + 1).last() == listing@[i as int]);
            }
            if is_photo_file_name(entry.file_name.as_str()) {
                if !current.contains_key(entry.file_name.as_str()) {
                    proof {
                        lemma_views_push(names@, entry.file_name);
                    }
                    names.push(entry.file_name.clone());
                }
                current.insert(entry.file_name.clone(), entry.modified);
            }
            i = i + 1;
        }
        proof {
            assert(listing@.subrange(0, listing.len() as int) =~= listing@);
        }
        let ghost prev = self.photo_files@.dom();
        let ghost cur = current@.dom();
        let added = names_missing_from(&names, &self.photo_files);
        let removed = names_missing_from(&self.photo_names, &current);
        proof {
            assert(cur.difference(prev) =~= Set::new(
                |n: Seq<char>| views(names@).contains(n) && !prev.contains(n),
            ));
            assert(prev.difference(cur) =~= Set::new(
                |n: Seq<char>| views(self.photo_names@).contains(n) && !cur.contains(n),
            ));
        }
        self.photo_files = current;
        self.photo_names = names;
        ScanReport { added, removed }
    }
}

/// The names of `names` that are not keys of `other`, in their order.
fn names_missing_from(names: &Vec<String>, other: &StringHashMap<u64>) -> (r: Vec<String>)
    requires
        views(names@).no_duplicates(),
    ensures
        lists_exactly(
            r@,
            Set::new(|n: Seq<char>| views(names@).contains(n) && !other@.contains_key(n)),
        ),
{
    let mut r: Vec<String> = Vec::new();
    let mut k: usize = 0;
    proof {
        assert(views(r@) =~= Seq::empty());
    }
    while k < names.len()
        invariant
            0 <= k <= names.len(),
            views(names@).no_duplicates(),
            views(r@).no_duplicates(),
            forall|n: Seq<char>|
                #[trigger] views(r@).contains(n) <==> views(names@.subrange(0, k as int)).contains(
                    n,
                ) && !other@.contains_key(n),
        decreases names.len() - k,
    {
        let name = &names[k];
        proof {
            assert(names@.subrange(0, k + 1) =~= names@.subrange(0, k as int).push(names@[k as int]));
            lemma_views_push(names@.subrange(0, k as int), names@[k as int]);
        }
        if !other.contains_key(name.as_str()) {
            proof {
                lemma_views_push(r@, *name);
                if views(r@).contains(name@) {
                    let t = choose|t: int| 0 <= t < k && views(names@.subrange(0, k as int))[t] == name@;
                    assert(views(names@)[t] == views(names@)[k as int]);
                }
            }
            r.push(name.clone());
        }
        k = k + 1;
    }
    proof {
        assert(names@.subrange(0, names.len() as int) =~= names@);
    }
    r
}

/// What pushing a string adds to the views of a list.
proof fn lemma_views_push(v: Seq<String>, s: String)
    ensures
        forall|n: Seq<char>|
            #[trigger] views(v.push(s)).contains(n) <==> views(v).contains(n) || n == s@,
        views(v).no_duplicates() && !views(v).contains(s@) ==> views(v.push(s)).no_duplicates(),
{
    assert(views(v.push(s)) =~= views(v).push(s@));
    assert forall|n: Seq<char>| #[trigger] views(v.push(s)).contains(n) implies views(v).contains(n)
        || n == s@ by {
        let t = choose|t: int| 0 <= t < views(v.push(s)).len() && views(v.push(s))[t] == n;
        if t < v.len() {
            assert(views(v)[t] == n);
        }
    }
    assert forall|n: Seq<char>| views(v).contains(n) || n == s@ implies #[trigger] views(
        v.push(s),
    ).contains(n) by {
        if n == s@ {
            assert(views(v.push(s))[v.len() as int] == n);
        } else {
            let t = choose|t: int| 0 <= t < views(v).len() && views(v)[t] == n;
            assert(views(v.push(s))[t] == n);
        }
    }
}

} // verus!
