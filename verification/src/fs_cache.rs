//! A simple filesystem-backed store: one value per file, the file name
//! itself the key, keys built from a (user, datetime) pair joined by the
//! double-underscore separator.
//!
//! Like the time-boxed store it works on an in-memory model of its
//! directory and queues the disk actions to perform: a write goes to a
//! temporary file first and reaches its final name only through an atomic
//! rename.

use crate::directory::{find_from, lookup, ActionView, Directory, DiskAction, FileView};
use crate::key::{ext_seq, sanitize, sanitize_seq, sep_seq};
use crate::store::{acts_view, tmp_name_of, CacheError};
use crate::text::{lex_le, str_le};
use vstd::prelude::*;

verus! {

/// The views of a name list.
pub open spec fn names_of(v: Seq<String>) -> Seq<Seq<char>> {
    Seq::new(v.len(), |i: int| v[i]@)
}

/// The names of the modeled files, in listing order.
pub open spec fn file_names(fs: Seq<FileView>) -> Seq<Seq<char>> {
    Seq::new(fs.len(), |i: int| fs[i].name)
}

/// The mathematical content of the store.
#[verifier::ext_equal]
pub struct FsView {
    pub files: Seq<FileView>,
    pub pending: Seq<ActionView>,
}

/// The key built from a (user, datetime) pair.
pub open spec fn fs_key_name(user: Seq<char>, datetime: Seq<char>) -> Seq<char> {
    sanitize_seq(user) + sep_seq() + sanitize_seq(datetime) + ext_seq()
}

/// What storing under a fresh key does, spec level: the file joins the
/// model, and a temporary write plus an atomic rename join the queue.
pub open spec fn fs_insert(v: FsView, name: Seq<char>, bytes: Seq<u8>) -> Result<FsView, ()> {
    if lookup(v.files, name) is Some {
        Err(())
    } else {
        Ok(
            FsView {
                files: v.files.push(FileView { name, bytes }),
                pending: v.pending + seq![
                    ActionView::WriteFile(tmp_name_of(name), bytes),
                    ActionView::Rename(tmp_name_of(name), name),
                ],
            },
        )
    }
}

/// A local filesystem store modeled in memory.
pub struct FsStore {
    dir: Directory,
    pending: Vec<DiskAction>,
}

impl View for FsStore {
    type V = FsView;

    closed spec fn view(&self) -> FsView {
        FsView { files: self.dir@, pending: acts_view(self.pending@) }
    }
}

impl FsStore {
    /// An empty store; the caller has made sure the root directory exists.
    pub fn new() -> (s: FsStore)
        ensures
            s@.files == Seq::<FileView>::empty(),
            s@.pending == Seq::<ActionView>::empty(),
    {
        let s = FsStore { dir: Directory::new(), pending: Vec::new() };
        proof {
            assert(s@.pending =~= Seq::<ActionView>::empty());
        }
        s
    }

    /// A store over an already loaded directory listing.
    pub fn with_directory(dir: Directory) -> (s: FsStore)
        ensures
            s@.files == dir@,
            s@.pending == Seq::<ActionView>::empty(),
    {
        let ghost dv = dir@;
        let s = FsStore { dir, pending: Vec::new() };
        proof {
            assert(s@.pending =~= Seq::<ActionView>::empty());
            assert(s@.files == dv);
        }
        s
    }

    /// Builds a filename-safe key from a (user, datetime) pair: both parts
    /// sanitized, joined by the double underscore, with the `.dat`
    /// extension.
    pub fn make_key(user: &str, datetime: &str) -> (r: String)
        ensures
            r@ == fs_key_name(user@, datetime@),
    {
        let u = sanitize(user);
        let d = sanitize(datetime);
        let r = u.concat("__").concat(d.as_str()).concat(".dat");
        proof {
            reveal_strlit("__");
            reveal_strlit(".dat");
            assert("__"@ =~= sep_seq());
            assert(".dat"@ =~= ext_seq());
            assert(r@ =~= fs_key_name(user@, datetime@));
        }
        r
    }

    /// Whether the key is present.
    pub fn has(&self, key: &str) -> (r: bool)
        ensures
            r == (lookup(self@.files, key@) is Some),
    {
        self.dir.has_file(key)
    }

    /// Stores bytes under a key; a key already present is refused. The
    /// write is queued as a temporary file plus an atomic rename.
    pub fn set(&mut self, key: &str, bytes: Vec<u8>) -> (r: Result<(), CacheError>)
        ensures
            match r {
                Ok(()) => fs_insert(old(self)@, key@, bytes@) == Ok::<FsView, ()>(final(self)@),
                Err(e) => {
                    &&& fs_insert(old(self)@, key@, bytes@) is Err
                    &&& e matches CacheError::AlreadyExists
                    &&& final(self)@ == old(self)@
                },
            },
    {
        if self.dir.has_file(key) {
            return Err(CacheError::AlreadyExists);
        }
        let ghost before = self@;
        let ghost bv = bytes@;
        let tmp = String::from_str(key).concat(".tmp");
        proof {
            reveal_strlit(".tmp");
            assert(tmp@ =~= tmp_name_of(key@));
        }
        let tmp2 = String::from_str(tmp.as_str());
        let stored = crate::directory::copy_bytes(&bytes);
        self.pending.push(DiskAction::WriteFile { name: tmp, bytes });
        self.pending.push(DiskAction::Rename { from: tmp2, to: String::from_str(key) });
        self.dir.add_file(String::from_str(key), stored);
        proof {
            assert(acts_view(self.pending@) =~= before.pending + seq![
                ActionView::WriteFile(tmp_name_of(key@), bv),
                ActionView::Rename(tmp_name_of(key@), key@),
            ]);
            assert(self@ =~= FsView {
                files: before.files.push(FileView { name: key@, bytes: bv }),
                pending: before.pending + seq![
                    ActionView::WriteFile(tmp_name_of(key@), bv),
                    ActionView::Rename(tmp_name_of(key@), key@),
                ],
            });
        }
        Ok(())
    }

    /// Convenience: stores under the key built from (user, datetime) and
    /// returns that key.
    pub fn set_ud(&mut self, user: &str, datetime: &str, bytes: Vec<u8>) -> (r: Result<
        String,
        CacheError,
    >)
        ensures
            match r {
                Ok(key) => key@ == fs_key_name(user@, datetime@) && fs_insert(
                    old(self)@,
                    key@,
                    bytes@,
                ) == Ok::<FsView, ()>(final(self)@),
                Err(e) => {
                    &&& fs_insert(old(self)@, fs_key_name(user@, datetime@), bytes@) is Err
                    &&& e matches CacheError::AlreadyExists
                    &&& final(self)@ == old(self)@
                },
            },
    {
        let key = Self::make_key(user, datetime);
        match self.set(key.as_str(), bytes) {
            Ok(()) => Ok(key),
            Err(e) => Err(e),
        }
    }

    /// The full contents stored under a key.
    pub fn get(&self, key: &str) -> (r: Result<Vec<u8>, CacheError>)
        ensures
            match r {
                Ok(b) => lookup(self@.files, key@) == Some(b@),
                Err(e) => lookup(self@.files, key@) is None && e matches CacheError::NotFound,
            },
    {
        match self.dir.read_file(key) {
            Some(b) => Ok(b),
            None => Err(CacheError::NotFound),
        }
    }

    /// Deletes a key; a missing key is an error, as removing a missing
    /// file is.
    pub fn delete(&mut self, key: &str) -> (r: Result<(), CacheError>)
        ensures
            match r {
                Ok(()) => {
                    &&& find_from(old(self)@.files, key@, 0) matches Some(i) && final(self)@.files
                        == old(self)@.files.remove(i)
                    &&& final(self)@.pending == old(self)@.pending.push(ActionView::Remove(key@))
                },
                Err(e) => {
                    &&& lookup(old(self)@.files, key@) is None
                    &&& e matches CacheError::NotFound
                    &&& final(self)@ == old(self)@
                },
            },
    {
        let ghost before = self@;
        match self.dir.position_of(key) {
            Some(i) => {
                self.dir.remove_at(i);
                self.pending.push(DiskAction::Remove { name: String::from_str(key) });
                proof {
                    assert(acts_view(self.pending@) =~= before.pending.push(
                        ActionView::Remove(key@),
                    ));
                }
                Ok(())
            },
            None => Err(CacheError::NotFound),
        }
    }

    /// Removes every stored entry.
    pub fn clear(&mut self)
        ensures
            final(self)@.files == Seq::<FileView>::empty(),
            final(self)@.pending.len() == old(self)@.pending.len() + old(self)@.files.len(),
            forall|i: int|
                0 <= i < old(self)@.pending.len() ==> final(self)@.pending[i] == old(
                    self,
                )@.pending[i],
            forall|i: int|
                0 <= i < old(self)@.files.len() ==> final(self)@.pending[old(self)@.pending.len()
                    + i] == ActionView::Remove(old(self)@.files[i].name),
    {
        let ghost before = self@;
        let n = self.dir.len();
        let mut i: usize = 0;
        while i < n
            invariant
                i <= n,
                n == before.files.len(),
                self.dir@ == before.files,
                acts_view(self.pending@).len() == before.pending.len() + i,
                forall|p: int|
                    0 <= p < before.pending.len() ==> acts_view(self.pending@)[p]
                        == before.pending[p],
                forall|p: int|
                    0 <= p < i ==> acts_view(self.pending@)[before.pending.len() + p]
                        == ActionView::Remove(before.files[p].name),
            decreases n - i,
        {
            let name = String::from_str(self.dir.file_at(i).name.as_str());
            self.pending.push(DiskAction::Remove { name });
            i += 1;
        }
        self.dir.clear_all();
    }

    /// The stored keys, in ascending lexicographic order: the same names
    /// the files carry, each exactly as often.
    #[verifier::loop_isolation(false)]
    #[verifier::rlimit(60)]
    pub fn keys(&self) -> (r: Vec<String>)
        ensures
            names_of(r@).to_multiset() == file_names(self@.files).to_multiset(),
            forall|p: int, q: int| 0 <= p < q < r@.len() ==> lex_le(r@[p]@, r@[q]@),
    {
        broadcast use vstd::seq_lib::group_to_multiset_ensures;

        let ghost fns = file_names(self@.files);
        let mut out: Vec<String> = Vec::new();
        let n = self.dir.len();
        let mut i: usize = 0;
        proof {
            assert(names_of(out@) =~= fns.subrange(0, 0));
        }
        while i < n
            invariant
                i <= n,
                names_of(out@).to_multiset() == fns.subrange(0, i as int).to_multiset(),
                forall|p: int, q: int| 0 <= p < q < out@.len() ==> lex_le(out@[p]@, out@[q]@),
            decreases n - i,
        {
            let nm = String::from_str(self.dir.file_at(i).name.as_str());
            let ghost nmv = nm;
            let ghost before = out@;
            let mut pos: usize = 0;
            while pos < out.len() && str_le(out[pos].as_str(), nm.as_str())
                invariant
                    pos <= out@.len(),
                    out@ == before,
                    nm == nmv,
                    forall|q: int| 0 <= q < pos ==> lex_le(out@[q]@, nm@),
                decreases out@.len() - pos,
            {
                pos += 1;
            }
            proof {
                if (pos as int) < before.len() {
                    crate::text::lemma_lex_le_total(before[pos as int]@, nmv@);
                }
            }
            out.insert(pos, nm);
            proof {
                before.insert_ensures(pos as int, nmv);
                assert(out@ == before.insert(pos as int, nmv));
                // The new listing is still sorted.
                assert forall|p: int, q: int|
                    0 <= p < q < out@.len() implies lex_le(out@[p]@, out@[q]@) by {
                    if q < pos {
                        assert(out@[p] == before[p] && out@[q] == before[q]);
                    } else if p < pos && q == pos {
                        assert(out@[p] == before[p] && out@[q] == nmv);
                    } else if p < pos && q > pos {
                        assert(out@[p] == before[p] && out@[q] == before[q - 1]);
                    } else if p == pos {
                        assert(out@[p] == nmv && out@[q] == before[q - 1]);
                        assert(lex_le(nmv@, before[pos as int]@));
                        if q - 1 > pos {
                            crate::text::lemma_lex_le_trans(
                                nmv@,
                                before[pos as int]@,
                                before[q - 1]@,
                            );
                        }
                    } else {
                        assert(out@[p] == before[p - 1] && out@[q] == before[q - 1]);
                    }
                }
                // The new listing holds the old names plus the new one.
                let pre = names_of(before).subrange(0, pos as int);
                let suf = names_of(before).subrange(pos as int, names_of(before).len() as int);
                assert(names_of(out@) =~= pre.push(nmv@) + suf);
                assert(names_of(before) =~= pre + suf);
                vstd::seq_lib::lemma_multiset_commutative(pre.push(nmv@), suf);
                vstd::seq_lib::lemma_multiset_commutative(pre, suf);
                assert(names_of(out@).to_multiset() =~= names_of(before).to_multiset().insert(
                    nmv@,
                ));
                assert(fns.subrange(0, i + 1 as int) =~= fns.subrange(0, i as int).push(
                    self@.files[i as int].name,
                ));
                assert(fns.subrange(0, i + 1 as int).to_multiset() =~= fns.subrange(
                    0,
                    i as int,
                ).to_multiset().insert(nmv@));
            }
            i += 1;
        }
        proof {
            assert(fns.subrange(0, n as int) =~= fns);
        }
        out
    }

    /// Hands the queued disk actions out, oldest first, and empties the
    /// queue; the model keeps its files.
    pub fn take_actions(&mut self) -> (r: Vec<DiskAction>)
        ensures
            acts_view(r@) == old(self)@.pending,
            final(self)@.files == old(self)@.files,
            final(self)@.pending == Seq::<ActionView>::empty(),
    {
        let mut out: Vec<DiskAction> = Vec::new();
        core::mem::swap(&mut out, &mut self.pending);
        proof {
            assert(acts_view(self.pending@) =~= Seq::<ActionView>::empty());
        }
        out
    }
}

} // verus!
