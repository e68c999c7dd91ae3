//! The command-line tool's arguments, and its catalog of known persons: one
//! per `.jpg` file of a directory.
use crate::monitor::{extension_of, last_dot};
use vstd::prelude::*;
use vstd::string::{StrSliceExecFns, StringExecFns};

verus! {

/// Arguments of the command-line tool.
pub struct Cli {
    /// Path to the input image.
    pub input: String,
    /// Path to the output image, if any.
    pub output: Option<String>,
}

/// A person of the catalog.
pub struct Person {
    /// The file name without its extension.
    pub name: String,
    /// Path of the reference image.
    pub image_path: String,
}

/// One entry of a directory listing.
pub struct CatalogEntry {
    pub file_name: String,
    /// The entry is a regular file.
    pub is_file: bool,
}

/// The name has the extension `jpg`, exactly.
pub open spec fn is_jpg_name(name: Seq<char>) -> bool {
    extension_of(name) == Some(seq!['j', 'p', 'g'])
}

/// The name without its extension.
pub open spec fn stem_of(name: Seq<char>) -> Seq<char> {
    name.subrange(0, last_dot(name, name.len() as int))
}

/// A file name joined to a directory path, with one `/` between them.
pub open spec fn joined_path(dir: Seq<char>, name: Seq<char>) -> Seq<char> {
    if dir.len() == 0 || dir.last() == '/' {
        dir + name
    } else {
        dir + seq!['/'] + name
    }
}

/// The persons that the first `n` entries give, in order.
pub open spec fn persons_upto(dir: Seq<char>, entries: Seq<CatalogEntry>, n: int) -> Seq<
    (Seq<char>, Seq<char>),
>
    decreases n,
{
    if n <= 0 {
        Seq::empty()
    } else {
        let prev = persons_upto(dir, entries, n - 1);
        let e = entries[n - 1];
        if e.is_file && is_jpg_name(e.file_name@) {
            prev.push((stem_of(e.file_name@), joined_path(dir, e.file_name@)))
        } else {
            prev
        }
    }
}

/// The persons as (name, image path) pairs.
pub open spec fn person_views(p: Seq<Person>) -> Seq<(Seq<char>, Seq<char>)> {
    p.map_values(|q: Person| (q.name@, q.image_path@))
}

/// Index just past the last `'.'`, scanning from the end; `0` where none.
fn after_last_dot(name: &str) -> (k: usize)
    ensures
        k as int == last_dot(name@, name@.len() as int) + 1,
        k <= name@.len(),
{
    let n = name.unicode_len();
    let mut k: usize = n;
    while k > 0 && name.get_char(k - 1) != '.'
        invariant
            n == name@.len(),
            0 <= k <= n,
            last_dot(name@, n as int) == last_dot(name@, k as int),
        decreases k,
    {
        k = k - 1;
    }
    proof {
        if k > 0 {
            assert(last_dot(name@, k as int) == k - 1);
        }
    }
    k
}

/// The catalog of a directory: one person per regular file with extension
/// `jpg`, named by the file name without extension, in listing order.
pub fn persons_from_listing(database_path: &str, entries: &Vec<CatalogEntry>) -> (r: Vec<Person>)
    ensures
        person_views(r@) == persons_upto(database_path@, entries@, entries@.len() as int),
{
    let dir_len = database_path.unicode_len();
    let bare = dir_len == 0 || database_path.get_char(dir_len - 1) == '/';
    let mut r: Vec<Person> = Vec::new();
    let mut i: usize = 0;
    proof {
        assert(person_views(r@) =~= Seq::empty());
    }
    while i < entries.len()
        invariant
            0 <= i <= entries.len(),
            dir_len == database_path@.len(),
            bare == (database_path@.len() == 0 || database_path@.last() == '/'),
            person_views(r@) == persons_upto(database_path@, entries@, i as int),
        decreases entries.len() - i,
    {
        let e = &entries[i];
        let name = e.file_name.as_str();
        let k = after_last_dot(name);
        let n = name.unicode_len();
        let jpg = k >= 2 && n - k == 3 && name.get_char(k) == 'j' && name.get_char(k + 1) == 'p'
            && name.get_char(k + 2) == 'g';
        proof {
            let ext = name@.subrange(k as int, n as int);
            if k >= 2 && n - k == 3 {
                assert(jpg == (ext =~= seq!['j', 'p', 'g']));
            }
            assert(jpg == is_jpg_name(name@));
        }
        if e.is_file && jpg {
            let stem = String::from_str(name.substring_char(0, k - 1));
            let mut path = String::from_str(database_path);
            proof {
                reveal_strlit("/");
                assert("/"@ =~= seq!['/']);
            }
            if !bare {
                path.append("/");
            }
            path.append(name);
            proof {
                assert(stem@ == stem_of(name@));
                assert(path@ =~= joined_path(database_path@, name@));
                assert(e.file_name@ == name@);
            }
            let ghost before = r@;
            r.push(Person { name: stem, image_path: path });
            proof {
                assert(r@.drop_last() =~= before);
                assert(person_views(r@) =~= person_views(before).push(
                    (r@.last().name@, r@.last().image_path@),
                ));
            }
        }
        i = i + 1;
    }
    r
}

} // verus!
