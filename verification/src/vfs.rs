//! The virtual file system: how files are looked up and read.
//!
//! A backend offers two capabilities: opening a path (yielding metadata and a
//! handle) and reading a handle (seek plus chunked read). The in-memory
//! backend lives here, fully verified; other backends implement the same
//! traits outside the library.
use vstd::prelude::*;

use crate::requested_path::path_ok;

verus! {

/// The error kinds the resolver distinguishes.
#[derive(Clone, Copy, Debug, PartialEq, Eq, Structural)]
pub enum VfsError {
    NotFound,
    PermissionDenied,
    Other,
}

/// A modification time: seconds and nanoseconds since the Unix epoch.
#[derive(Clone, Copy, Debug, PartialEq, Eq, Structural)]
pub struct UnixTime {
    pub secs: u64,
    pub nanos: u32,
}

/// An opened entry: its handle and the metadata snapshot taken at open time.
pub struct FileWithMetadata<F> {
    pub handle: F,
    pub size: u64,
    pub modified: Option<UnixTime>,
    pub is_dir: bool,
}

/// What the file system holds at one path, as the specification sees it.
#[verifier::ext_equal]
pub struct FileEntry {
    pub content: Seq<u8>,
    pub modified: Option<UnixTime>,
    pub is_dir: bool,
}

/// An open file handle: a cursor over immutable content.
///
/// `read` hands back at most `len` bytes from the cursor, always making
/// progress while bytes remain; an empty chunk means the end of the content
/// (or a zero-byte request). Seeking beyond the end is allowed and reads
/// there return empty chunks.
pub trait FileAccess: Sized {
    /// The bytes behind the handle. A backend implemented outside the
    /// library is not checked against this model; leaving the default means
    /// no library guarantee describes the bytes it serves.
    open spec fn content(&self) -> Seq<u8> {
        Seq::empty()
    }

    /// The cursor, in bytes from the start.
    open spec fn pos(&self) -> nat {
        0
    }

    /// Move the cursor to an absolute offset.
    fn seek_start(&mut self, p: u64) -> (r: Result<u64, VfsError>)
        ensures
            final(self).content() == old(self).content(),
            r matches Ok(v) ==> final(self).pos() == p && v == p,
            r is Err ==> final(self).pos() == old(self).pos(),
    ;

    /// Read up to `len` bytes at the cursor, advancing it.
    fn read(&mut self, len: u64) -> (r: Result<Vec<u8>, VfsError>)
        ensures
            final(self).content() == old(self).content(),
            r matches Ok(buf) ==> ({
                &&& buf@.len() <= len
                &&& if old(self).pos() < old(self).content().len() && len > 0 {
                    &&& buf@.len() > 0
                    &&& old(self).pos() + buf@.len() <= old(self).content().len()
                    &&& buf@ == old(self).content().subrange(
                        old(self).pos() as int,
                        old(self).pos() + buf@.len() as int,
                    )
                    &&& final(self).pos() == old(self).pos() + buf@.len()
                } else {
                    &&& buf@.len() == 0
                    &&& final(self).pos() == old(self).pos()
                }
            }),
            r is Err ==> final(self).pos() == old(self).pos(),
    ;
}

/// A backend that can open paths.
///
/// `fs()` is the tree of entries the backend serves, keyed by safe relative
/// component paths. Opening a served path succeeds with its entry's metadata
/// and a fresh handle on its content; opening anything else fails.
pub trait FileOpener: Sized {
    type File: FileAccess;

    /// The entries this backend serves. A backend implemented outside the
    /// library is not checked against this model; leaving the default means
    /// no library guarantee describes what it opens.
    open spec fn fs(&self) -> Map<Seq<Seq<u8>>, FileEntry> {
        Map::empty()
    }

    /// The error this backend answers for a path it does not serve.
    open spec fn open_err(&self, path: Seq<Seq<u8>>) -> VfsError {
        VfsError::Other
    }

    /// Open a path, returning metadata and a handle.
    fn open(&self, path: &Vec<Vec<u8>>) -> (r: Result<FileWithMetadata<Self::File>, VfsError>)
        requires
            path_ok(path.deep_view()),
        ensures
            match r {
                Ok(f) => {
                    &&& self.fs().contains_key(path.deep_view())
                    &&& ({
                        let e = self.fs()[path.deep_view()];
                        &&& f.size == e.content.len()
                        &&& f.modified == e.modified
                        &&& f.is_dir == e.is_dir
                        &&& f.handle.content() == e.content
                        &&& f.handle.pos() == 0
                    })
                },
                Err(e) => !self.fs().contains_key(path.deep_view()) && e == self.open_err(
                    path.deep_view(),
                ),
            },
    ;
}

/// Copy a byte vector.
pub fn copy_bytes(v: &Vec<u8>) -> (r: Vec<u8>)
    ensures
        r@ == v@,
{
    vstd::slice::slice_to_vec(v.as_slice())
}

/// An in-memory file handle: a cursor over owned bytes.
pub struct MemFile {
    pub data: Vec<u8>,
    pub pos: u64,
}

impl FileAccess for MemFile {
    open spec fn content(&self) -> Seq<u8> {
        self.data@
    }

    open spec fn pos(&self) -> nat {
        self.pos as nat
    }

    fn seek_start(&mut self, p: u64) -> (r: Result<u64, VfsError>) {
        self.pos = p;
        Ok(p)
    }

    fn read(&mut self, len: u64) -> (r: Result<Vec<u8>, VfsError>) {
        let dlen = self.data.len();
        if len == 0 || self.pos >= dlen as u64 {
            return Ok(Vec::new());
        }
        let start = self.pos as usize;
        let avail = dlen - start;
        let amt: usize = if len < avail as u64 {
            len as usize
        } else {
            avail
        };
        let out = vstd::slice::slice_to_vec(
            vstd::slice::slice_subrange(self.data.as_slice(), start, start + amt),
        );
        self.pos = self.pos + amt as u64;
        Ok(out)
    }
}

/// One stored entry of the in-memory backend.
pub struct MemEntry {
    pub data: Vec<u8>,
    pub modified: Option<UnixTime>,
    pub is_dir: bool,
}

/// The file-system view of a stored entry.
pub open spec fn entry_spec(e: MemEntry) -> FileEntry {
    FileEntry { content: e.data@, modified: e.modified, is_dir: e.is_dir }
}

/// The map described by an association list, later entries winning.
pub open spec fn map_of(s: Seq<(Vec<Vec<u8>>, MemEntry)>) -> Map<Seq<Seq<u8>>, FileEntry>
    decreases s.len(),
{
    if s.len() == 0 {
        Map::empty()
    } else {
        map_of(s.drop_last()).insert(s.last().0.deep_view(), entry_spec(s.last().1))
    }
}

/// Peeling one entry off the front of the fold that defines `map_of`.
pub proof fn lemma_map_of_take(s: Seq<(Vec<Vec<u8>>, MemEntry)>, i: int)
    requires
        0 <= i < s.len(),
    ensures
        map_of(s.take(i + 1)) == map_of(s.take(i)).insert(
            s[i].0.deep_view(),
            entry_spec(s[i].1),
        ),
{
    assert(s.take(i + 1).drop_last() =~= s.take(i));
    assert(s.take(i + 1).last() == s[i]);
    assert(s.take(i + 1).len() == i + 1);
}

/// An in-memory file set, read-only once built.
pub struct MemoryFs {
    pub files: Vec<(Vec<Vec<u8>>, MemEntry)>,
}

/// Compare two component paths.
pub fn paths_eq(a: &Vec<Vec<u8>>, b: &Vec<Vec<u8>>) -> (r: bool)
    ensures
        r <==> a.deep_view() == b.deep_view(),
{
    if a.len() != b.len() {
        proof {
            assert(a.deep_view().len() == a@.len());
            assert(b.deep_view().len() == b@.len());
        }
        return false;
    }
    let mut i: usize = 0;
    while i < a.len()
        invariant
            i <= a@.len(),
            a@.len() == b@.len(),
            forall|j: int| 0 <= j < i ==> a.deep_view()[j] == b.deep_view()[j],
        decreases a@.len() - i,
    {
        if !crate::bytestr::bytes_eq(a[i].as_slice(), b[i].as_slice()) {
            proof {
                assert(a.deep_view()[i as int] == a@[i as int]@);
                assert(b.deep_view()[i as int] == b@[i as int]@);
            }
            return false;
        }
        proof {
            assert(a.deep_view()[i as int] == a@[i as int]@);
            assert(b.deep_view()[i as int] == b@[i as int]@);
        }
        i += 1;
    }
    proof {
        assert(a.deep_view() =~= b.deep_view());
    }
    true
}

impl Default for MemoryFs {
    /// An empty file set holding only the root directory.
    fn default() -> (r: Self)
        ensures
            r.fs() == Map::<Seq<Seq<u8>>, FileEntry>::empty().insert(
                Seq::empty(),
                FileEntry { content: Seq::empty(), modified: None, is_dir: true },
            ),
    {
        MemoryFs::new()
    }
}

impl MemoryFs {
    /// An empty file set holding only the root directory.
    pub fn new() -> (r: Self)
        ensures
            r.fs() == Map::<Seq<Seq<u8>>, FileEntry>::empty().insert(
                Seq::empty(),
                FileEntry { content: Seq::empty(), modified: None, is_dir: true },
            ),
    {
        let mut fs = MemoryFs { files: Vec::new() };
        let rootdir: Vec<Vec<u8>> = Vec::new();
        fs.files.push((rootdir, MemEntry { data: Vec::new(), modified: None, is_dir: true }));
        proof {
            let s = fs.files@;
            lemma_map_of_take(s, 0);
            assert(s.take(0) =~= Seq::<(Vec<Vec<u8>>, MemEntry)>::empty());
            assert(map_of(s.take(0)) =~~= Map::<Seq<Seq<u8>>, FileEntry>::empty());
            assert(s.take(1) =~= s);
            assert(s[0].0.deep_view() =~~= Seq::<Seq<u8>>::empty());
            assert(entry_spec(s[0].1) =~~= (FileEntry {
                content: Seq::empty(),
                modified: None,
                is_dir: true,
            }));
        }
        fs
    }

    /// Store an entry (file or directory) at a path, replacing any old one.
    pub fn put(&mut self, path: Vec<Vec<u8>>, data: Vec<u8>, modified: Option<UnixTime>, is_dir: bool)
        ensures
            final(self).fs() == old(self).fs().insert(
                path.deep_view(),
                FileEntry { content: data@, modified, is_dir },
            ),
    {
        self.files.push((path, MemEntry { data, modified, is_dir }));
        proof {
            assert(self.files@.drop_last() =~= old(self).files@);
        }
    }

    /// Add a file, creating directory entries for each ancestor, as the
    /// in-memory backend's population step does: afterwards the path holds
    /// the file, every proper prefix of it holds a directory entry, and
    /// every other key keeps its old entry.
    pub fn add(&mut self, path: Vec<Vec<u8>>, data: Vec<u8>, modified: Option<UnixTime>)
        ensures
            final(self).fs() == spec_add(old(self).fs(), path.deep_view(), data@, modified),
            final(self).fs().contains_key(path.deep_view()),
            final(self).fs()[path.deep_view()] == (FileEntry {
                content: data@,
                modified,
                is_dir: false,
            }),
            forall|j: int| 1 <= j < path.deep_view().len()
                ==> final(self).fs().contains_key(#[trigger] path.deep_view().take(j))
                && final(self).fs()[path.deep_view().take(j)] == dir_entry(),
            forall|k: Seq<Seq<u8>>| old(self).fs().contains_key(k) ==> final(self).fs().contains_key(k),
            forall|k: Seq<Seq<u8>>| #[trigger] old(self).fs().contains_key(k) && k != path.deep_view()
                && !ancestor_of(k, path.deep_view()) ==> final(self).fs()[k] == old(self).fs()[k],
    {
        let ghost p = path.deep_view();
        let ghost m0 = self.fs();
        let n = path.len();
        let mut i: usize = 0;
        let mut dir: Vec<Vec<u8>> = Vec::new();
        proof {
            assert(dir.deep_view() =~~= p.take(0));
        }
        if n > 0 {
            while i < n - 1
                invariant
                    i <= n - 1,
                    n == path@.len(),
                    p == path.deep_view(),
                    dir@.len() == i,
                    dir.deep_view() == p.take(i as int),
                    self.fs() == add_dirs(m0, p, i as int),
                decreases n - i,
            {
                dir.push(copy_bytes(&path[i]));
                proof {
                    assert(dir.deep_view() =~~= p.take(i + 1));
                }
                let d2 = clone_path(&dir);
                self.put(d2, Vec::new(), None, true);
                proof {
                    assert(self.fs() =~~= add_dirs(m0, p, i + 1));
                }
                i += 1;
            }
        }
        self.put(path, data, modified, false);
        proof {
            if n == 0 {
                assert(self.fs() =~~= spec_add(m0, p, data@, modified));
            } else {
                assert(i as int == p.len() - 1);
                assert(self.fs() =~~= spec_add(m0, p, data@, modified));
            }
            let dirs = add_dirs(m0, p, p.len() - 1);
            assert forall|j: int| 1 <= j < p.len() implies self.fs().contains_key(
                #[trigger] p.take(j),
            ) && self.fs()[p.take(j)] == dir_entry() by {
                lemma_add_dirs_prefix(m0, p, p.len() - 1, j);
                assert(p.take(j).len() != p.len());
                assert(p.take(j) != p);
            }
            assert forall|k: Seq<Seq<u8>>| m0.contains_key(k) implies self.fs().contains_key(
                k,
            ) by {
                if k != p && !ancestor_of(k, p) {
                    assert forall|j: int| 1 <= j <= p.len() - 1 implies k != #[trigger] p.take(
                        j,
                    ) by {
                        if k == p.take(j) {
                            assert(ancestor_of(k, p));
                        }
                    }
                    lemma_add_dirs_other(m0, p, p.len() - 1, k);
                } else if k != p {
                    let j = choose|j: int| 1 <= j < p.len() && k == #[trigger] p.take(j);
                    lemma_add_dirs_prefix(m0, p, p.len() - 1, j);
                }
            }
            assert forall|k: Seq<Seq<u8>>|
                #[trigger] m0.contains_key(k) && k != p && !ancestor_of(k, p) implies self.fs()[k]
                == m0[k] by {
                assert forall|j: int| 1 <= j <= p.len() - 1 implies k != #[trigger] p.take(j) by {
                    if k == p.take(j) {
                        assert(ancestor_of(k, p));
                    }
                }
                lemma_add_dirs_other(m0, p, p.len() - 1, k);
            }
        }
    }
}

/// The directory entry ancestors are stored under.
pub open spec fn dir_entry() -> FileEntry {
    FileEntry { content: Seq::empty(), modified: None, is_dir: true }
}

/// A key is a proper ancestor of a path: one of its non-empty proper
/// prefixes.
pub open spec fn ancestor_of(k: Seq<Seq<u8>>, p: Seq<Seq<u8>>) -> bool {
    exists|j: int| 1 <= j < p.len() && k == #[trigger] p.take(j)
}

/// The map with directory entries stored for the first `i` prefixes of a
/// path.
pub open spec fn add_dirs(
    m: Map<Seq<Seq<u8>>, FileEntry>,
    p: Seq<Seq<u8>>,
    i: int,
) -> Map<Seq<Seq<u8>>, FileEntry>
    decreases i,
{
    if i <= 0 {
        m
    } else {
        add_dirs(m, p, i - 1).insert(p.take(i), dir_entry())
    }
}

/// What adding a file means for the served map: a directory entry for every
/// proper prefix, then the file itself.
pub open spec fn spec_add(
    m: Map<Seq<Seq<u8>>, FileEntry>,
    p: Seq<Seq<u8>>,
    content: Seq<u8>,
    modified: Option<UnixTime>,
) -> Map<Seq<Seq<u8>>, FileEntry> {
    add_dirs(m, p, p.len() - 1).insert(p, FileEntry { content, modified, is_dir: false })
}

/// Each stored prefix maps to the directory entry.
proof fn lemma_add_dirs_prefix(m: Map<Seq<Seq<u8>>, FileEntry>, p: Seq<Seq<u8>>, i: int, j: int)
    requires
        i <= p.len() - 1,
        1 <= j <= i,
    ensures
        add_dirs(m, p, i).contains_key(p.take(j)),
        add_dirs(m, p, i)[p.take(j)] == dir_entry(),
    decreases i,
{
    if j < i {
        lemma_add_dirs_prefix(m, p, i - 1, j);
        assert(p.take(j).len() != p.take(i).len());
        assert(p.take(j) != p.take(i));
    }
}

/// A key that is none of the stored prefixes keeps its old entry.
proof fn lemma_add_dirs_other(
    m: Map<Seq<Seq<u8>>, FileEntry>,
    p: Seq<Seq<u8>>,
    i: int,
    k: Seq<Seq<u8>>,
)
    requires
        forall|j: int| 1 <= j <= i ==> k != #[trigger] p.take(j),
    ensures
        add_dirs(m, p, i).contains_key(k) == m.contains_key(k),
        m.contains_key(k) ==> add_dirs(m, p, i)[k] == m[k],
    decreases i,
{
    if i > 0 {
        lemma_add_dirs_other(m, p, i - 1, k);
        assert(k != p.take(i));
    }
}

/// Copy a component path.
pub fn clone_path(p: &Vec<Vec<u8>>) -> (r: Vec<Vec<u8>>)
    ensures
        r.deep_view() == p.deep_view(),
{
    let mut out: Vec<Vec<u8>> = Vec::new();
    let mut i: usize = 0;
    while i < p.len()
        invariant
            i <= p@.len(),
            out@.len() == i,
            forall|j: int| 0 <= j < i ==> out.deep_view()[j] == p.deep_view()[j],
        decreases p@.len() - i,
    {
        out.push(copy_bytes(&p[i]));
        proof {
            assert(out.deep_view()[i as int] == out@[i as int]@);
            assert(p.deep_view()[i as int] == p@[i as int]@);
        }
        i += 1;
    }
    proof {
        assert(out.deep_view() =~~= p.deep_view());
    }
    out
}

impl FileOpener for MemoryFs {
    type File = MemFile;

    open spec fn fs(&self) -> Map<Seq<Seq<u8>>, FileEntry> {
        map_of(self.files@)
    }

    open spec fn open_err(&self, path: Seq<Seq<u8>>) -> VfsError {
        VfsError::NotFound
    }

    fn open(&self, path: &Vec<Vec<u8>>) -> (r: Result<FileWithMetadata<MemFile>, VfsError>) {
        let ghost k = path.deep_view();
        let n = self.files.len();
        proof {
            assert(self.files@.take(n as int) =~= self.files@);
        }
        let mut i: usize = n;
        while i > 0
            invariant
                i <= n,
                n == self.files@.len(),
                k == path.deep_view(),
                map_of(self.files@).contains_key(k) == map_of(self.files@.take(i as int)).contains_key(k),
                map_of(self.files@).contains_key(k) ==> map_of(self.files@)[k] == map_of(
                    self.files@.take(i as int),
                )[k],
            decreases i,
        {
            i -= 1;
            proof {
                lemma_map_of_take(self.files@, i as int);
            }
            let pair = &self.files[i];
            let eq = paths_eq(&pair.0, path);
            if eq {
                proof {
                    assert(pair == self.files@[i as int]);
                    assert(self.files@[i as int].0.deep_view() == k);
                }
                let e = &pair.1;
                let handle = MemFile { data: copy_bytes(&e.data), pos: 0 };
                let size_us = e.data.len();
                return Ok(FileWithMetadata {
                    handle,
                    size: size_us as u64,
                    modified: e.modified,
                    is_dir: e.is_dir,
                });
            }
        }
        proof {
            assert(self.files@.take(0) =~= Seq::<(Vec<Vec<u8>>, MemEntry)>::empty());
        }
        Err(VfsError::NotFound)
    }
}

} // verus!

