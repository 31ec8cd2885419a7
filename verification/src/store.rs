//! The time-boxed key-value store.
//!
//! Opening the store scans a directory listing: a file whose name does not
//! decode is a fatal fault, an entry past its expiry is evicted, and among
//! entries sharing a logical name only the first encountered survives.
//! Insertion is first-writer-wins: writing under a name that is already
//! tracked is a silent no-op. A real write is queued as a temporary-file
//! write followed by an atomic rename, so an interruption can never leave
//! partial contents under the final name.

use crate::directory::{
    apply_action, apply_actions, lookup, ActionView, Directory, DiskAction, FileView,
};
use crate::key::{key_file_name, parse_key, KeyView, StorageKey};
use crate::timestamp::Timestamp;
use vstd::prelude::*;

verus! {

/// Why a store operation refused.
#[derive(Debug)]
pub enum CacheError {
    /// A file on disk carries the final name of an entry that the
    /// in-memory set does not track: a lost update or a stale view.
    AlreadyExists,
    /// No entry under the key's name.
    NotFound,
    /// A file name in the cache directory does not follow the encoding.
    MalformedName(String),
}

impl CacheError {
    /// A short description of the fault.
    pub fn describe(&self) -> (r: &'static str) {
        match self {
            CacheError::AlreadyExists => "an untracked file already holds this entry's name",
            CacheError::NotFound => "no entry under this name",
            CacheError::MalformedName(_) => "a cache file name does not follow the encoding",
        }
    }
}

/// The views of a sequence of keys.
pub open spec fn keys_view(ks: Seq<StorageKey>) -> Seq<KeyView> {
    Seq::new(ks.len(), |i: int| ks[i]@)
}

/// The views of a sequence of actions.
pub open spec fn acts_view(acts: Seq<DiskAction>) -> Seq<ActionView> {
    Seq::new(acts.len(), |i: int| acts[i]@)
}

/// Whether some key of the set carries a logical name.
pub open spec fn has_name(keys: Seq<KeyView>, name: Seq<char>) -> bool {
    exists|i: int| 0 <= i < keys.len() && keys[i].name == name
}

/// The position of the first key with a name, searched from `i` on.
pub open spec fn find_key_from(keys: Seq<KeyView>, name: Seq<char>, i: int) -> Option<int>
    decreases keys.len() - i,
{
    if i < 0 || i >= keys.len() {
        None
    } else if keys[i].name == name {
        Some(i)
    } else {
        find_key_from(keys, name, i + 1)
    }
}

/// The mathematical content of the store: the tracked keys, the modeled
/// directory, and the disk actions queued so far.
#[verifier::ext_equal]
pub struct StoreView {
    pub keys: Seq<KeyView>,
    pub files: Seq<FileView>,
    pub pending: Seq<ActionView>,
}

/// Well-formedness of the store: keys and files stand in step, the file of
/// the key at a position being the file at that position.
pub open spec fn wf_store(v: StoreView) -> bool {
    v.keys.len() == v.files.len()
}

// ---------------------------------------------------------------------------
// The directory scan, as a fold
// ---------------------------------------------------------------------------
/// The scan's running state: kept keys, kept files, and removals.
#[verifier::ext_equal]
pub struct ScanState {
    pub keys: Seq<KeyView>,
    pub kept: Seq<FileView>,
    pub acts: Seq<ActionView>,
}

/// What the scan does with one file: a name that does not decode is a
/// fault; an expired entry and an entry whose name is already taken are
/// removed; anything else is kept.
pub open spec fn scan_step(st: ScanState, f: FileView, now: Timestamp) -> Result<
    ScanState,
    Seq<char>,
> {
    match parse_key(f.name) {
        None => Err(f.name),
        Some(k) => {
            if k.expires.spec_before(now) || has_name(st.keys, k.name) {
                Ok(ScanState { keys: st.keys, kept: st.kept, acts: st.acts.push(ActionView::Remove(f.name)) })
            } else {
                Ok(ScanState { keys: st.keys.push(k), kept: st.kept.push(f), acts: st.acts })
            }
        },
    }
}

pub open spec fn scan_from(files: Seq<FileView>, now: Timestamp, i: int, st: ScanState) -> Result<
    ScanState,
    Seq<char>,
>
    decreases files.len() - i,
{
    if i < 0 || i >= files.len() {
        Ok(st)
    } else {
        match scan_step(st, files[i], now) {
            Ok(st2) => scan_from(files, now, i + 1, st2),
            Err(e) => Err(e),
        }
    }
}

pub open spec fn empty_scan() -> ScanState {
    ScanState { keys: Seq::empty(), kept: Seq::empty(), acts: Seq::empty() }
}

/// The whole scan of a listing.
pub open spec fn scan(files: Seq<FileView>, now: Timestamp) -> Result<ScanState, Seq<char>> {
    scan_from(files, now, 0, empty_scan())
}

/// The temporary name a write uses before the atomic rename.
pub open spec fn tmp_name_of(name: Seq<char>) -> Seq<char> {
    name + seq!['.', 't', 'm', 'p']
}

/// What a successful insert does to the store: nothing when the name is
/// already tracked; otherwise the key and its file join the model and a
/// temporary write plus an atomic rename join the queue. An untracked file
/// already under the final name is refused.
pub open spec fn spec_insert(v: StoreView, k: KeyView, bytes: Seq<u8>) -> Result<StoreView, ()> {
    if has_name(v.keys, k.name) {
        Ok(v)
    } else if lookup(v.files, key_file_name(k)) is Some {
        Err(())
    } else {
        Ok(
            StoreView {
                keys: v.keys.push(k),
                files: v.files.push(FileView { name: key_file_name(k), bytes }),
                pending: v.pending + seq![
                    ActionView::WriteFile(tmp_name_of(key_file_name(k)), bytes),
                    ActionView::Rename(tmp_name_of(key_file_name(k)), key_file_name(k)),
                ],
            },
        )
    }
}

/// What a lookup returns: the contents of the file standing at the tracked
/// key's position.
pub open spec fn spec_get(v: StoreView, name: Seq<char>) -> Option<Seq<u8>> {
    match find_key_from(v.keys, name, 0) {
        Some(i) => if i < v.files.len() {
            Some(v.files[i].bytes)
        } else {
            None
        },
        None => None,
    }
}

// ---------------------------------------------------------------------------
// The store
// ---------------------------------------------------------------------------
/// A time-boxed key-value store over a modeled directory. Keys and files
/// stand in step: the file of the key at position `i` is the file at
/// position `i`.
pub struct LocalStorage {
    keys: Vec<StorageKey>,
    dir: Directory,
    pending: Vec<DiskAction>,
}

impl View for LocalStorage {
    type V = StoreView;

    closed spec fn view(&self) -> StoreView {
        StoreView { keys: keys_view(self.keys@), files: self.dir@, pending: acts_view(self.pending@) }
    }
}

impl LocalStorage {
    /// Opens the store on a directory listing: evicts what is expired,
    /// evicts duplicates of a logical name keeping the first encountered,
    /// and fails on a file name that does not decode into a key.
    #[verifier::loop_isolation(false)]
    pub fn open(dir: &Directory, now: Timestamp) -> (r: Result<LocalStorage, CacheError>)
        ensures
            match r {
                Ok(st) => wf_store(st@) && scan(dir@, now) == Ok::<ScanState, Seq<char>>(
                    ScanState { keys: st@.keys, kept: st@.files, acts: st@.pending },
                ),
                Err(e) => {
                    &&& scan(dir@, now) is Err
                    &&& e matches CacheError::MalformedName(f) && scan(dir@, now) == Err::<
                        ScanState,
                        Seq<char>,
                    >(f@)
                },
            },
    {
        let mut keys: Vec<StorageKey> = Vec::new();
        let mut kept = Directory::new();
        let mut pending: Vec<DiskAction> = Vec::new();
        let n = dir.len();
        let mut i: usize = 0;
        proof {
            assert(keys_view(keys@) =~= empty_scan().keys);
            assert(acts_view(pending@) =~= empty_scan().acts);
            assert(scan_from(dir@, now, 0, empty_scan()) == scan(dir@, now));
        }
        while i < n
            invariant
                i <= n,
                keys@.len() == kept@.len(),
                scan(dir@, now) == scan_from(
                    dir@,
                    now,
                    i as int,
                    ScanState { keys: keys_view(keys@), kept: kept@, acts: acts_view(pending@) },
                ),
            decreases n - i,
        {
            let ghost st = ScanState {
                keys: keys_view(keys@),
                kept: kept@,
                acts: acts_view(pending@),
            };
            let entry = dir.file_at(i);
            match StorageKey::parse_file_name(entry.name.as_str()) {
                None => {
                    proof {
                        assert(scan_step(st, dir@[i as int], now) == Err::<ScanState, Seq<char>>(
                            entry.name@,
                        ));
                    }
                    return Err(CacheError::MalformedName(entry.name.clone()));
                },
                Some(k) => {
                    let stale = k.is_expired(&now);
                    let taken = contains_key_name(&keys, k.name().as_str());
                    if stale || taken {
                        let ghost before = acts_view(pending@);
                        pending.push(DiskAction::Remove { name: entry.name.clone() });
                        proof {
                            assert(acts_view(pending@) =~= before.push(
                                ActionView::Remove(entry.name@),
                            ));
                            assert(scan_step(st, dir@[i as int], now) == Ok::<
                                ScanState,
                                Seq<char>,
                            >(
                                ScanState {
                                    keys: keys_view(keys@),
                                    kept: kept@,
                                    acts: acts_view(pending@),
                                },
                            ));
                        }
                    } else {
                        let ghost kb = keys_view(keys@);
                        let ghost keptb = kept@;
                        keys.push(k);
                        kept.add_file(entry.name.clone(), crate::directory::copy_bytes(&entry.bytes));
                        proof {
                            assert(keys_view(keys@) =~= kb.push(keys@[keys@.len() - 1]@));
                            assert(kept@ =~= keptb.push(dir@[i as int]));
                            assert(scan_step(st, dir@[i as int], now) == Ok::<
                                ScanState,
                                Seq<char>,
                            >(
                                ScanState {
                                    keys: keys_view(keys@),
                                    kept: kept@,
                                    acts: acts_view(pending@),
                                },
                            ));
                        }
                    }
                },
            }
            i += 1;
        }
        let st = LocalStorage { keys, dir: kept, pending };
        Ok(st)
    }

    /// Membership under the identity invariant: the name alone decides.
    pub fn contains(&self, key: &StorageKey) -> (r: bool)
        ensures
            r == has_name(self@.keys, key@.name),
    {
        contains_key_name(&self.keys, key.name().as_str())
    }

    /// Inserts an entry. A name already tracked makes the call a silent
    /// no-op; an untracked file under the computed final name is refused;
    /// otherwise the bytes are queued as a temporary write followed by an
    /// atomic rename, and key and file join the model.
    pub fn insert_item(&mut self, key: &StorageKey, item: &Vec<u8>) -> (r: Result<(), CacheError>)
        requires
            key.wf(),
            wf_store(old(self)@),
        ensures
            wf_store(final(self)@),
            match r {
                Ok(()) => spec_insert(old(self)@, key@, item@) == Ok::<StoreView, ()>(final(self)@),
                Err(e) => {
                    &&& spec_insert(old(self)@, key@, item@) is Err
                    &&& e matches CacheError::AlreadyExists
                    &&& final(self)@ == old(self)@
                },
            },
    {
        if self.contains(key) {
            return Ok(());
        }
        let file_name = key.encoded_file_name();
        if self.dir.has_file(file_name.as_str()) {
            return Err(CacheError::AlreadyExists);
        }
        let ghost before = self@;
        let tmp = String::from_str(file_name.as_str()).concat(".tmp");
        proof {
            reveal_strlit(".tmp");
            assert(tmp@ =~= tmp_name_of(key_file_name(key@)));
        }
        let bytes = crate::directory::copy_bytes(item);
        let tmp2 = String::from_str(tmp.as_str());
        self.pending.push(DiskAction::WriteFile { name: tmp, bytes });
        self.pending.push(DiskAction::Rename { from: tmp2, to: file_name.clone() });
        self.dir.add_file(file_name, crate::directory::copy_bytes(item));
        self.keys.push(key.clone_key());
        proof {
            assert(keys_view(self.keys@) =~= before.keys.push(key@));
            assert(acts_view(self.pending@) =~= before.pending + seq![
                ActionView::WriteFile(tmp_name_of(key_file_name(key@)), item@),
                ActionView::Rename(tmp_name_of(key_file_name(key@)), key_file_name(key@)),
            ]);
            assert(self@ =~= StoreView {
                keys: before.keys.push(key@),
                files: before.files.push(FileView { name: key_file_name(key@), bytes: item@ }),
                pending: before.pending + seq![
                    ActionView::WriteFile(tmp_name_of(key_file_name(key@)), item@),
                    ActionView::Rename(tmp_name_of(key_file_name(key@)), key_file_name(key@)),
                ],
            });
        }
        Ok(())
    }

    /// The bytes stored under the key's logical name, or `None` when the
    /// name is not tracked.
    pub fn get_item(&self, key: &StorageKey) -> (r: Option<Vec<u8>>)
        requires
            wf_store(self@),
        ensures
            match r {
                Some(b) => spec_get(self@, key@.name) == Some(b@),
                None => spec_get(self@, key@.name) is None,
            },
    {
        let mut i: usize = 0;
        let n = self.keys.len();
        while i < n
            invariant
                i <= n,
                n == self@.keys.len(),
                self@.keys.len() == self@.files.len(),
                find_key_from(self@.keys, key@.name, 0) == find_key_from(
                    self@.keys,
                    key@.name,
                    i as int,
                ),
            decreases n - i,
        {
            if crate::text::str_eq(self.keys[i].name().as_str(), key.name().as_str()) {
                proof {
                    assert(find_key_from(self@.keys, key@.name, i as int) == Some(i as int));
                }
                let entry = self.dir.file_at(i);
                return Some(crate::directory::copy_bytes(&entry.bytes));
            }
            proof {
                assert(self@.keys[i as int].name == self.keys@[i as int]@.name);
                assert(find_key_from(self@.keys, key@.name, i as int) == find_key_from(
                    self@.keys,
                    key@.name,
                    i + 1 as int,
                ));
            }
            i += 1;
        }
        proof {
            assert(find_key_from(self@.keys, key@.name, i as int) is None);
        }
        None
    }

    /// Hands the queued disk actions out, oldest first, and empties the
    /// queue; the model keeps its keys and files.
    pub fn take_actions(&mut self) -> (r: Vec<DiskAction>)
        ensures
            acts_view(r@) == old(self)@.pending,
            final(self)@.keys == old(self)@.keys,
            final(self)@.files == old(self)@.files,
            final(self)@.pending == Seq::<ActionView>::empty(),
    {
        let mut out: Vec<DiskAction> = Vec::new();
        core::mem::swap(&mut out, &mut self.pending);
        proof {
            assert(acts_view(self.pending@) =~= Seq::<ActionView>::empty());
        }
        out
    }

    /// How many entries the store tracks.
    pub fn len(&self) -> (r: usize)
        ensures
            r == self@.keys.len(),
    {
        self.keys.len()
    }
}


// ---------------------------------------------------------------------------
// Laws
// ---------------------------------------------------------------------------
/// The scan preserves: no kept key expired, names pairwise distinct, and
/// one kept file per kept key.
proof fn lemma_scan_from_good(files: Seq<FileView>, now: Timestamp, i: int, st: ScanState)
    requires
        forall|p: int| 0 <= p < st.keys.len() ==> !(#[trigger] st.keys[p]).expires.spec_before(now),
        forall|p: int, q: int|
            0 <= p < q < st.keys.len() ==> st.keys[p].name != st.keys[q].name,
        st.keys.len() == st.kept.len(),
    ensures
        scan_from(files, now, i, st) matches Ok(sc) ==> {
            &&& forall|p: int|
                0 <= p < sc.keys.len() ==> !(#[trigger] sc.keys[p]).expires.spec_before(now)
            &&& forall|p: int, q: int|
                0 <= p < q < sc.keys.len() ==> sc.keys[p].name != sc.keys[q].name
            &&& sc.keys.len() == sc.kept.len()
        },
    decreases files.len() - i,
{
    if 0 <= i < files.len() {
        match scan_step(st, files[i], now) {
            Ok(st2) => {
                assert(forall|p: int|
                    0 <= p < st2.keys.len() ==> !(#[trigger] st2.keys[p]).expires.spec_before(now));
                assert forall|p: int, q: int|
                    0 <= p < q < st2.keys.len() implies st2.keys[p].name != st2.keys[q].name by {
                    if q == st.keys.len() as int {
                        assert(!has_name(st.keys, st2.keys[q].name));
                    }
                }
                lemma_scan_from_good(files, now, i + 1, st2);
            },
            Err(_) => {},
        }
    }
}

/// Expiry eviction: an entry whose expiry lies in the past at scan time is
/// absent from the key set right after an open.
pub proof fn lemma_expiry_eviction(files: Seq<FileView>, now: Timestamp)
    ensures
        scan(files, now) matches Ok(sc) ==> forall|i: int|
            0 <= i < sc.keys.len() ==> !(#[trigger] sc.keys[i]).expires.spec_before(now),
{
    lemma_scan_from_good(files, now, 0, empty_scan());
}

/// Duplicate eviction: after an open the surviving keys carry pairwise
/// distinct logical names, and exactly one file per surviving key remains.
pub proof fn lemma_duplicate_eviction(files: Seq<FileView>, now: Timestamp)
    ensures
        scan(files, now) matches Ok(sc) ==> {
            &&& forall|p: int, q: int|
                0 <= p < q < sc.keys.len() ==> sc.keys[p].name != sc.keys[q].name
            &&& sc.keys.len() == sc.kept.len()
        },
{
    lemma_scan_from_good(files, now, 0, empty_scan());
}

/// Write atomicity: of the two actions a fresh insert queues, applying any
/// prefix to a disk that does not yet hold the final name leaves that name
/// either absent or bound to the complete new contents; after both actions
/// it holds them. An interruption can therefore never expose partial bytes
/// under the final name.
pub proof fn lemma_write_atomicity(
    disk: Map<Seq<char>, Seq<u8>>,
    name: Seq<char>,
    bytes: Seq<u8>,
    n: int,
)
    requires
        0 <= n <= 2,
        !disk.dom().contains(name),
    ensures
        ({
            let acts = seq![
                ActionView::WriteFile(tmp_name_of(name), bytes),
                ActionView::Rename(tmp_name_of(name), name),
            ];
            let d = apply_actions(disk, acts.subrange(0, n));
            &&& (d.dom().contains(name) ==> d[name] == bytes)
            &&& (n == 2 ==> d.dom().contains(name) && d[name] == bytes)
        }),
{
    reveal_with_fuel(apply_actions, 4);
    let tmp = tmp_name_of(name);
    assert(tmp.len() == name.len() + 4);
    assert(tmp != name);
    let acts = seq![
        ActionView::WriteFile(tmp, bytes),
        ActionView::Rename(tmp, name),
    ];
    if n == 0 {
        assert(acts.subrange(0, 0) =~= Seq::<ActionView>::empty());
    } else {
        let d1 = apply_action(disk, acts[0]);
        assert(d1 == disk.insert(tmp, bytes));
        if n == 1 {
            let pre = acts.subrange(0, 1);
            assert(pre[0] == acts[0]);
            assert(pre.subrange(1, 1) =~= Seq::<ActionView>::empty());
            assert(apply_actions(disk, pre) == d1);
            assert(!d1.dom().contains(name));
        } else {
            let pre = acts.subrange(0, 2);
            assert(pre =~= acts);
            assert(acts.subrange(1, 2)[0] == acts[1]);
            assert(acts.subrange(1, 2).subrange(1, 1) =~= Seq::<ActionView>::empty());
            let d2 = apply_action(d1, acts[1]);
            assert(apply_actions(disk, acts) == d2);
            assert(d1.dom().contains(tmp) && d1[tmp] == bytes);
            assert(d2 == d1.remove(tmp).insert(name, bytes));
            assert(d2.dom().contains(name) && d2[name] == bytes);
        }
    }
}

/// Searching a name that no earlier key carries finds the freshly pushed
/// key.
proof fn lemma_find_key_pushed(keys: Seq<KeyView>, k: KeyView, i: int)
    requires
        0 <= i <= keys.len(),
        forall|p: int| 0 <= p < keys.len() ==> (#[trigger] keys[p]).name != k.name,
    ensures
        find_key_from(keys.push(k), k.name, i) == Some(keys.len() as int),
    decreases keys.len() - i,
{
    if i < keys.len() {
        assert(keys.push(k)[i] == keys[i]);
        lemma_find_key_pushed(keys, k, i + 1);
    } else {
        assert(keys.push(k)[i] == k);
    }
}

/// A cache hit avoids recomputation: after an insert the logical name is
/// tracked, and when the insert actually stored the bytes a lookup returns
/// exactly them — so a caller that consults the cache first never repeats
/// the expensive fetch.
pub proof fn lemma_cache_hit_after_insert(v: StoreView, k: KeyView, bytes: Seq<u8>)
    requires
        wf_store(v),
    ensures
        spec_insert(v, k, bytes) matches Ok(v2) ==> {
            &&& has_name(v2.keys, k.name)
            &&& !has_name(v.keys, k.name) ==> spec_get(v2, k.name) == Some(bytes)
        },
{
    if !has_name(v.keys, k.name) {
        match spec_insert(v, k, bytes) {
            Ok(v2) => {
                assert(v2.keys == v.keys.push(k));
                assert(v2.keys[v.keys.len() as int] == k);
                assert(has_name(v2.keys, k.name));
                lemma_find_key_pushed(v.keys, k, 0);
                assert(v2.files[v.keys.len() as int].bytes == bytes);
            },
            Err(_) => {},
        }
    }
}

/// Whether any key of the vector carries the logical name.
fn contains_key_name(keys: &Vec<StorageKey>, name: &str) -> (r: bool)
    ensures
        r == has_name(keys_view(keys@), name@),
{
    let mut i: usize = 0;
    let n = keys.len();
    while i < n
        invariant
            i <= n,
            n == keys@.len(),
            forall|j: int| 0 <= j < i ==> keys_view(keys@)[j].name != name@,
        decreases n - i,
    {
        if crate::text::str_eq(keys[i].name().as_str(), name) {
            assert(keys_view(keys@)[i as int].name == name@);
            return true;
        }
        proof {
            assert(keys_view(keys@)[i as int].name == keys@[i as int]@.name);
        }
        i += 1;
    }
    false
}

} // verus!
