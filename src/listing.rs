//! Entry descriptors of a directory listing, their order, and the name
//! filter of a search.
use vstd::prelude::*;
use vstd::seq_lib::lemma_multiset_commutative;
use crate::pathres::{join_slash, normalize_path, segs};

verus! {

broadcast use vstd::seq_lib::group_to_multiset_ensures;

/// The kind of a listed entry; listings order the kinds as declared.
#[derive(Debug, Clone, Copy, PartialEq, Eq)]
pub enum PathType {
    Dir,
    SymlinkDir,
    File,
    SymlinkFile,
}

/// One listed entry: its kind, its path relative to the listed directory
/// (components joined by `/`), its modification time in milliseconds since
/// the epoch, and its size, present for files only.
#[derive(Debug, PartialEq, Eq)]
pub struct PathItem {
    pub path_type: PathType,
    pub name: String,
    pub mtime: u64,
    pub size: Option<u64>,
}

/// The position of a kind in a listing.
pub open spec fn kind_rank(t: PathType) -> int {
    match t {
        PathType::Dir => 0,
        PathType::SymlinkDir => 1,
        PathType::File => 2,
        PathType::SymlinkFile => 3,
    }
}

/// The kind of an entry from whether it is a symbolic link and whether what
/// it leads to is a directory.
pub open spec fn kind_of(is_symlink: bool, is_dir: bool) -> PathType {
    match (is_symlink, is_dir) {
        (true, true) => PathType::SymlinkDir,
        (false, true) => PathType::Dir,
        (true, false) => PathType::SymlinkFile,
        (false, false) => PathType::File,
    }
}

/// Lexicographic comparison of `a` and `b` from index `i` on: negative,
/// zero or positive.
pub open spec fn cmp_chars_from(a: Seq<char>, b: Seq<char>, i: int) -> int
    decreases a.len() - i,
{
    if i >= a.len() && i >= b.len() {
        0
    } else if i >= a.len() {
        -1
    } else if i >= b.len() {
        1
    } else if (a[i] as u32) < (b[i] as u32) {
        -1
    } else if (a[i] as u32) > (b[i] as u32) {
        1
    } else {
        cmp_chars_from(a, b, i + 1)
    }
}

pub open spec fn cmp_int(a: int, b: int) -> int {
    if a < b {
        -1
    } else if a > b {
        1
    } else {
        0
    }
}

pub open spec fn size_rank(s: Option<u64>) -> int {
    match s {
        None => -1,
        Some(n) => n as int,
    }
}

/// The order of listings: by kind, then name, then modification time, then
/// size (an absent size first).
pub open spec fn cmp_item(a: PathItem, b: PathItem) -> int {
    if kind_rank(a.path_type) != kind_rank(b.path_type) {
        cmp_int(kind_rank(a.path_type), kind_rank(b.path_type))
    } else if cmp_chars_from(a.name@, b.name@, 0) != 0 {
        cmp_chars_from(a.name@, b.name@, 0)
    } else if a.mtime != b.mtime {
        cmp_int(a.mtime as int, b.mtime as int)
    } else {
        cmp_int(size_rank(a.size), size_rank(b.size))
    }
}

/// Each entry comes no later than the next one in the listing order.
pub open spec fn is_sorted(s: Seq<PathItem>) -> bool {
    forall|i: int| 0 <= i < s.len() - 1 ==> cmp_item(#[trigger] s[i], s[i + 1]) <= 0
}

proof fn lemma_cmp_chars_antisym(a: Seq<char>, b: Seq<char>, i: int)
    requires
        0 <= i,
    ensures
        cmp_chars_from(a, b, i) == -cmp_chars_from(b, a, i),
    decreases a.len() - i,
{
    if i < a.len() && i < b.len() && (a[i] as u32) == (b[i] as u32) {
        lemma_cmp_chars_antisym(a, b, i + 1);
    }
}

/// Swapping the two entries of a comparison flips its sign.
pub proof fn lemma_cmp_item_antisym(a: PathItem, b: PathItem)
    ensures
        cmp_item(a, b) == -cmp_item(b, a),
{
    lemma_cmp_chars_antisym(a.name@, b.name@, 0);
}

fn cmp_names(a: &str, b: &str) -> (r: i8)
    ensures
        r as int == cmp_chars_from(a@, b@, 0),
{
    let na = a.unicode_len();
    let nb = b.unicode_len();
    let mut i: usize = 0;
    while i < na && i < nb
        invariant
            na == a@.len(),
            nb == b@.len(),
            i <= na,
            i <= nb,
            cmp_chars_from(a@, b@, 0) == cmp_chars_from(a@, b@, i as int),
        decreases na - i,
    {
        let ca = a.get_char(i) as u32;
        let cb = b.get_char(i) as u32;
        if ca < cb {
            return -1;
        } else if ca > cb {
            return 1;
        }
        i = i + 1;
    }
    if na == nb {
        0
    } else if i >= na {
        -1
    } else {
        1
    }
}

fn cmp_u64(a: u64, b: u64) -> (r: i8)
    ensures
        r as int == cmp_int(a as int, b as int),
{
    if a < b {
        -1
    } else if a > b {
        1
    } else {
        0
    }
}

fn kind_index(t: PathType) -> (r: u8)
    ensures
        r as int == kind_rank(t),
{
    match t {
        PathType::Dir => 0,
        PathType::SymlinkDir => 1,
        PathType::File => 2,
        PathType::SymlinkFile => 3,
    }
}

/// Compares two entries in the listing order: negative, zero or positive.
pub fn compare_items(a: &PathItem, b: &PathItem) -> (r: i8)
    ensures
        r as int == cmp_item(*a, *b),
{
    let ka = kind_index(a.path_type);
    let kb = kind_index(b.path_type);
    if ka != kb {
        return cmp_u64(ka as u64, kb as u64);
    }
    let c = cmp_names(a.name.as_str(), b.name.as_str());
    if c != 0 {
        return c;
    }
    if a.mtime != b.mtime {
        return cmp_u64(a.mtime, b.mtime);
    }
    match (a.size, b.size) {
        (None, None) => 0,
        (None, Some(_)) => -1,
        (Some(_), None) => 1,
        (Some(x), Some(y)) => cmp_u64(x, y),
    }
}

proof fn lemma_insert_multiset(s: Seq<PathItem>, i: int, x: PathItem)
    requires
        0 <= i <= s.len(),
    ensures
        s.insert(i, x).to_multiset() =~= s.to_multiset().insert(x),
{
    let a = s.subrange(0, i);
    let b = s.subrange(i, s.len() as int);
    assert(s.insert(i, x) =~= a.push(x) + b);
    assert(s =~= a + b);
    lemma_multiset_commutative(a.push(x), b);
    lemma_multiset_commutative(a, b);
}

/// Sorts a listing into the listing order, keeping exactly its entries.
pub fn sort_items(items: Vec<PathItem>) -> (r: Vec<PathItem>)
    ensures
        r@.to_multiset() == items@.to_multiset(),
        is_sorted(r@),
{
    let mut items = items;
    let ghost orig = items@;
    let mut r: Vec<PathItem> = Vec::new();
    while items.len() > 0
        invariant
            r@.to_multiset().add(items@.to_multiset()) == orig.to_multiset(),
            is_sorted(r@),
        decreases items.len(),
    {
        let ghost before = items@;
        let x = items.pop().unwrap();
        proof {
            assert(before =~= items@.push(x));
        }
        let mut pos: usize = 0;
        while pos < r.len() && compare_items(&x, &r[pos]) >= 0
            invariant
                pos <= r.len(),
                forall|j: int| 0 <= j < pos ==> cmp_item(x, #[trigger] r@[j]) >= 0,
            decreases r.len() - pos,
        {
            pos = pos + 1;
        }
        let ghost old_r = r@;
        proof {
            lemma_insert_multiset(old_r, pos as int, x);
            if pos > 0 {
                lemma_cmp_item_antisym(x, old_r[pos - 1]);
            }
        }
        r.insert(pos, x);
        proof {
            assert forall|i: int| 0 <= i < r@.len() - 1 implies cmp_item(#[trigger] r@[i], r@[i + 1]) <= 0 by {
                if i < pos as int - 1 {
                    assert(r@[i] == old_r[i] && r@[i + 1] == old_r[i + 1]);
                } else if i == pos as int - 1 {
                    assert(r@[i] == old_r[i] && r@[i + 1] == x);
                } else if i == pos as int {
                    assert(r@[i + 1] == old_r[i]);
                } else {
                    assert(r@[i] == old_r[i - 1] && r@[i + 1] == old_r[i]);
                }
            }
        }
    }
    r
}

/// The kind of an entry from whether it is a symbolic link and whether what
/// it leads to is a directory.
pub fn classify(is_symlink: bool, is_dir: bool) -> (r: PathType)
    ensures
        r == kind_of(is_symlink, is_dir),
{
    match (is_symlink, is_dir) {
        (true, true) => PathType::SymlinkDir,
        (false, true) => PathType::Dir,
        (true, false) => PathType::SymlinkFile,
        (false, false) => PathType::File,
    }
}

/// Milliseconds since the epoch, kept to 64 bits.
pub fn to_timestamp(millis: u128) -> (r: u64)
    ensures
        r as int == millis as int % 0x1_0000_0000_0000_0000,
{
    (millis % 0x1_0000_0000_0000_0000) as u64
}

/// The descriptor of one entry, from its path relative to the listed
/// directory and what its metadata says; directories carry no size.
pub fn to_pathitem(rel: &Vec<String>, is_symlink: bool, is_dir: bool, mtime: u64, len: u64) -> (r: PathItem)
    ensures
        r.path_type == kind_of(is_symlink, is_dir),
        r.name@ == join_slash(segs(rel@)),
        r.mtime == mtime,
        r.size == (if is_dir { None } else { Some(len) }),
{
    let path_type = classify(is_symlink, is_dir);
    let size = match path_type {
        PathType::Dir | PathType::SymlinkDir => None,
        PathType::File | PathType::SymlinkFile => Some(len),
    };
    PathItem { path_type, name: normalize_path(rel), mtime, size }
}

/// The lower-case form of a name as Unicode defines it (a final sigma
/// depends on its context).
pub uninterp spec fn lower_of(s: Seq<char>) -> Seq<char>;

/// Relies on `str::to_lowercase`: the result depends on the characters alone.
#[verifier::external_body]
fn lowercase(s: &str) -> (r: String)
    ensures
        r@ == lower_of(s@),
{
    s.to_lowercase()
}

/// `needle` occurs in `hay` as a contiguous run.
pub open spec fn occurs_in(needle: Seq<char>, hay: Seq<char>) -> bool {
    exists|i: int| 0 <= i <= hay.len() - needle.len() && #[trigger] hay.subrange(i, i + needle.len()) == needle
}

fn occurs_at(needle: &str, hay: &str, at: usize) -> (r: bool)
    requires
        at + needle@.len() <= hay@.len(),
    ensures
        r == (hay@.subrange(at as int, at + needle@.len()) == needle@),
{
    let n = needle.unicode_len();
    let hl = hay.unicode_len();
    let mut j: usize = 0;
    while j < n
        invariant
            n == needle@.len(),
            hl == hay@.len(),
            at + n <= hay@.len(),
            j <= n,
            forall|k: int| 0 <= k < j ==> hay@[at + k] == needle@[k],
        decreases n - j,
    {
        if hay.get_char(at + j) != needle.get_char(j) {
            assert(hay@.subrange(at as int, at + n)[j as int] != needle@[j as int]);
            return false;
        }
        j = j + 1;
    }
    assert(hay@.subrange(at as int, at + n) =~= needle@);
    true
}

/// Whether an already lower-cased name holds an already lower-cased query.
pub fn matches_folded(name_lower: &str, query_lower: &str) -> (r: bool)
    ensures
        r == occurs_in(query_lower@, name_lower@),
{
    let n = query_lower.unicode_len();
    let h = name_lower.unicode_len();
    if n > h {
        return false;
    }
    let mut i: usize = 0;
    while i <= h - n
        invariant
            n == query_lower@.len(),
            h == name_lower@.len(),
            n <= h,
            forall|k: int| 0 <= k < i ==> #[trigger] name_lower@.subrange(k, k + n) != query_lower@,
        decreases h - n + 1 - i,
    {
        if occurs_at(query_lower, name_lower, i) {
            return true;
        }
        if i == h - n {
            return false;
        }
        i = i + 1;
    }
    false
}

/// Whether a search keeps a name: the query occurs in it, ignoring case.
pub fn name_matches(name: &str, query: &str) -> (r: bool)
    ensures
        r == occurs_in(lower_of(query@), lower_of(name@)),
{
    let n = lowercase(name);
    let q = lowercase(query);
    matches_folded(n.as_str(), q.as_str())
}

} // verus!
