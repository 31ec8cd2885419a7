//! An in-memory model of the cache directory, and the disk actions the
//! stores queue against the real one.
//!
//! The stores never touch the filesystem. A caller loads the real
//! directory's listing into a `Directory`, lets the store decide on it, and
//! then performs the queued `DiskAction`s in order. `apply_action` says
//! what each action means for a modeled disk, which is what the write
//! atomicity law is stated over.

use vstd::prelude::*;

verus! {

/// One file: its name and its full contents.
pub struct FileEntry {
    pub name: String,
    pub bytes: Vec<u8>,
}

/// The mathematical content of a file.
#[verifier::ext_equal]
pub struct FileView {
    pub name: Seq<char>,
    pub bytes: Seq<u8>,
}

impl View for FileEntry {
    type V = FileView;

    open spec fn view(&self) -> FileView {
        FileView { name: self.name@, bytes: self.bytes@ }
    }
}

/// The position of the first file with a name, searched from `i` on.
pub open spec fn find_from(fs: Seq<FileView>, name: Seq<char>, i: int) -> Option<int>
    decreases fs.len() - i,
{
    if i < 0 || i >= fs.len() {
        None
    } else if fs[i].name == name {
        Some(i)
    } else {
        find_from(fs, name, i + 1)
    }
}

/// The contents stored under a name, if any file carries it.
pub open spec fn lookup(fs: Seq<FileView>, name: Seq<char>) -> Option<Seq<u8>> {
    match find_from(fs, name, 0) {
        Some(i) => Some(fs[i].bytes),
        None => None,
    }
}

/// A directory modeled as the sequence of its files.
pub struct Directory {
    files: Vec<FileEntry>,
}

impl View for Directory {
    type V = Seq<FileView>;

    closed spec fn view(&self) -> Seq<FileView> {
        Seq::new(self.files@.len(), |i: int| self.files@[i]@)
    }
}

/// An exact byte copy.
pub fn copy_bytes(v: &Vec<u8>) -> (r: Vec<u8>)
    ensures
        r@ == v@,
{
    let mut r: Vec<u8> = Vec::new();
    let mut i: usize = 0;
    while i < v.len()
        invariant
            i <= v@.len(),
            r@ == v@.subrange(0, i as int),
        decreases v@.len() - i,
    {
        r.push(v[i]);
        proof {
            assert(r@ =~= v@.subrange(0, i + 1 as int));
        }
        i += 1;
    }
    proof {
        assert(v@.subrange(0, v@.len() as int) =~= v@);
    }
    r
}

impl Directory {
    /// An empty directory.
    pub fn new() -> (d: Directory)
        ensures
            d@ == Seq::<FileView>::empty(),
    {
        let d = Directory { files: Vec::new() };
        proof {
            assert(d@ =~= Seq::<FileView>::empty());
        }
        d
    }

    pub fn len(&self) -> (r: usize)
        ensures
            r == self@.len(),
    {
        self.files.len()
    }

    /// The file at a position.
    pub fn file_at(&self, i: usize) -> (r: &FileEntry)
        requires
            i < self@.len(),
        ensures
            r@ == self@[i as int],
    {
        &self.files[i]
    }

    /// The position of the first file under `name`, if one is there.
    pub fn position_of(&self, name: &str) -> (r: Option<usize>)
        ensures
            match r {
                Some(i) => find_from(self@, name@, 0) == Some(i as int) && i < self@.len(),
                None => find_from(self@, name@, 0) is None,
            },
    {
        let mut i: usize = 0;
        while i < self.files.len()
            invariant
                i <= self.files@.len(),
                self@.len() == self.files@.len(),
                find_from(self@, name@, 0) == find_from(self@, name@, i as int),
            decreases self.files@.len() - i,
        {
            if crate::text::str_eq(self.files[i].name.as_str(), name) {
                proof {
                    assert(find_from(self@, name@, i as int) == Some(i as int));
                }
                return Some(i);
            }
            proof {
                assert(self@[i as int].name == self.files@[i as int].name@);
                assert(find_from(self@, name@, i as int) == find_from(self@, name@, i + 1 as int));
            }
            i += 1;
        }
        proof {
            assert(find_from(self@, name@, i as int) is None);
        }
        None
    }

    /// Whether a file under `name` is present.
    pub fn has_file(&self, name: &str) -> (r: bool)
        ensures
            r == (lookup(self@, name@) is Some),
    {
        self.position_of(name).is_some()
    }

    /// The contents under `name`, copied out.
    pub fn read_file(&self, name: &str) -> (r: Option<Vec<u8>>)
        ensures
            match r {
                Some(b) => lookup(self@, name@) == Some(b@),
                None => lookup(self@, name@) is None,
            },
    {
        match self.position_of(name) {
            Some(i) => Some(copy_bytes(&self.files[i].bytes)),
            None => None,
        }
    }

    /// Appends a file; the caller answers for name uniqueness where it
    /// matters.
    pub fn add_file(&mut self, name: String, bytes: Vec<u8>)
        ensures
            final(self)@ == old(self)@.push(FileView { name: name@, bytes: bytes@ }),
    {
        let ghost before = self@;
        let ghost nv = name@;
        let ghost bv = bytes@;
        self.files.push(FileEntry { name, bytes });
        proof {
            assert(self@ =~= before.push(FileView { name: nv, bytes: bv }));
        }
    }

    /// Removes the file at a position.
    pub fn remove_at(&mut self, i: usize)
        requires
            i < old(self)@.len(),
        ensures
            final(self)@ == old(self)@.remove(i as int),
    {
        let ghost before = self@;
        self.files.remove(i);
        proof {
            assert(self@ =~= before.remove(i as int));
        }
    }

    /// Removes every file.
    pub fn clear_all(&mut self)
        ensures
            final(self)@ == Seq::<FileView>::empty(),
    {
        self.files = Vec::new();
        proof {
            assert(self@ =~= Seq::<FileView>::empty());
        }
    }
}

// ---------------------------------------------------------------------------
// Disk actions
// ---------------------------------------------------------------------------
/// One step the caller must perform against the real directory, in order.
pub enum DiskAction {
    /// Create or overwrite a file with the given contents, completely.
    WriteFile { name: String, bytes: Vec<u8> },
    /// Atomically rename a file over the target name.
    Rename { from: String, to: String },
    /// Delete a file.
    Remove { name: String },
}

#[verifier::ext_equal]
pub enum ActionView {
    WriteFile(Seq<char>, Seq<u8>),
    Rename(Seq<char>, Seq<char>),
    Remove(Seq<char>),
}

impl View for DiskAction {
    type V = ActionView;

    open spec fn view(&self) -> ActionView {
        match self {
            DiskAction::WriteFile { name, bytes } => ActionView::WriteFile(name@, bytes@),
            DiskAction::Rename { from, to } => ActionView::Rename(from@, to@),
            DiskAction::Remove { name } => ActionView::Remove(name@),
        }
    }
}

/// What one action does to a disk, modeled as a map from file names to
/// complete contents.
pub open spec fn apply_action(disk: Map<Seq<char>, Seq<u8>>, a: ActionView) -> Map<
    Seq<char>,
    Seq<u8>,
> {
    match a {
        ActionView::WriteFile(name, bytes) => disk.insert(name, bytes),
        ActionView::Rename(from, to) => if disk.dom().contains(from) {
            disk.remove(from).insert(to, disk[from])
        } else {
            disk
        },
        ActionView::Remove(name) => disk.remove(name),
    }
}

/// A sequence of actions applied left to right.
pub open spec fn apply_actions(disk: Map<Seq<char>, Seq<u8>>, acts: Seq<ActionView>) -> Map<
    Seq<char>,
    Seq<u8>,
>
    decreases acts.len(),
{
    if acts.len() == 0 {
        disk
    } else {
        apply_actions(apply_action(disk, acts[0]), acts.subrange(1, acts.len() as int))
    }
}

} // verus!
