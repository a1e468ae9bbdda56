//! A name-keyed cache of lazily loaded sprite-sheet handles: idempotent
//! get-or-load, lookup under any path spelling of the same logical name,
//! and an aggregate readiness poll.
//!
//! The cache owns the handle identities and the bookkeeping; issuing the
//! actual load requests to the host asset subsystem, checking that files
//! exist, and polling single handles are the host's work, whose outcomes
//! are handed in as plain values.

use vstd::prelude::*;
use vstd::string::StrSliceExecFns;
use vstd::string::StringSliceAdditionalSpecFns;

use crate::asset_path::{
    bytes_equal, norm_name, normalized_name, path_error, plan_load, LoadError,
};

verus! {

/// An opaque identity for a sprite sheet the host was asked to load. The
/// host maps these to its own handle objects.
#[derive(Debug, Clone, Copy, PartialEq, Eq, Structural)]
pub struct SpriteSheetHandle {
    pub id: u64,
}

/// One cache entry: a logical name, the handle registered for it, and
/// whether the host has reported the underlying asset resolved.
struct SheetEntry {
    name: Vec<u8>,
    handle: SpriteSheetHandle,
    resolved: bool,
}

/// No two entries share a name.
spec fn names_distinct(s: Seq<SheetEntry>) -> bool {
    forall|i: int, j: int| 0 <= i < j < s.len() ==> s[i].name@ != s[j].name@
}

/// The entries as a map from logical name to handle and resolution state.
spec fn entries_map(s: Seq<SheetEntry>) -> Map<Seq<u8>, (SpriteSheetHandle, bool)>
    decreases s.len(),
{
    if s.len() == 0 {
        Map::empty()
    } else {
        entries_map(s.drop_last()).insert(
            s.last().name@,
            (s.last().handle, s.last().resolved),
        )
    }
}

/// The map contains exactly the entry names, and, when names are distinct,
/// maps each to that entry's handle and state.
proof fn lemma_entries_map(s: Seq<SheetEntry>)
    ensures
        forall|n: Seq<u8>|
            #[trigger] entries_map(s).contains_key(n) ==> exists|i: int|
                0 <= i < s.len() && #[trigger] s[i].name@ == n,
        forall|i: int| 0 <= i < s.len() ==> entries_map(s).contains_key(#[trigger] s[i].name@),
        names_distinct(s) ==> forall|i: int|
            0 <= i < s.len() ==> entries_map(s)[#[trigger] s[i].name@] == (
                s[i].handle,
                s[i].resolved,
            ),
    decreases s.len(),
{
    if s.len() > 0 {
        lemma_entries_map(s.drop_last());
        assert forall|n: Seq<u8>| #[trigger] entries_map(s).contains_key(n) implies exists|i: int|
            0 <= i < s.len() && #[trigger] s[i].name@ == n by {
            if n == s.last().name@ {
                assert(s[s.len() - 1].name@ == n);
            } else {
                assert(entries_map(s.drop_last()).contains_key(n));
                let i = choose|i: int| 0 <= i < s.drop_last().len() && #[trigger] s.drop_last()[
                    i].name@ == n;
                assert(s[i].name@ == n);
            }
        }
        assert forall|i: int| 0 <= i < s.len() implies entries_map(s).contains_key(
            #[trigger] s[i].name@,
        ) by {
            if i < s.len() - 1 {
                assert(s.drop_last()[i].name@ == s[i].name@);
            }
        }
        if names_distinct(s) {
            assert forall|i: int| 0 <= i < s.len() implies entries_map(s)[#[trigger] s[i].name@]
                == (s[i].handle, s[i].resolved) by {
                if i < s.len() - 1 {
                    assert(s[i].name@ != s.last().name@);
                    assert(s.drop_last()[i].name@ == s[i].name@);
                }
            }
        }
    }
}

/// Replacing an entry in place (same name) updates the map at that name.
proof fn lemma_entries_map_update(s: Seq<SheetEntry>, i: int, e: SheetEntry)
    requires
        0 <= i < s.len(),
        names_distinct(s),
        e.name@ == s[i].name@,
    ensures
        entries_map(s.update(i, e)) == entries_map(s).insert(e.name@, (e.handle, e.resolved)),
    decreases s.len(),
{
    let t = s.update(i, e);
    if i == s.len() - 1 {
        assert(t.drop_last() =~= s.drop_last());
        assert(t.last() == e);
        assert(entries_map(t) =~= entries_map(s).insert(e.name@, (e.handle, e.resolved)));
    } else {
        assert(s.drop_last()[i] == s[i]);
        lemma_entries_map_update(s.drop_last(), i, e);
        assert(t.drop_last() =~= s.drop_last().update(i, e));
        assert(t.last() == s.last());
        assert(e.name@ != s.last().name@);
        assert(entries_map(t) =~= entries_map(s).insert(e.name@, (e.handle, e.resolved)));
    }
}

/// This is a resource wrapper for the host's sprite sheets. It can _load_
/// them by image file path and _get_ them by path or bare logical name;
/// equivalent spellings resolve to the same entry, and repeated loads of
/// one logical name never issue a second underlying load request.
pub struct SpriteSheetHandles {
    entries: Vec<SheetEntry>,
    next_id: u64,
}

impl View for SpriteSheetHandles {
    type V = Map<Seq<u8>, (SpriteSheetHandle, bool)>;

    closed spec fn view(&self) -> Map<Seq<u8>, (SpriteSheetHandle, bool)> {
        entries_map(self.entries@)
    }
}

impl Default for SpriteSheetHandles {
    /// An empty cache.
    fn default() -> (r: Self)
        ensures
            r.wf(),
            r@ == Map::<Seq<u8>, (SpriteSheetHandle, bool)>::empty(),
    {
        SpriteSheetHandles { entries: Vec::new(), next_id: 0 }
    }
}

impl SpriteSheetHandles {
    /// Cache names are unique.
    pub closed spec fn wf(self) -> bool {
        names_distinct(self.entries@)
    }

    /// Index of the entry stored under exactly `name`, if any.
    fn index_of(&self, name: &[u8]) -> (r: Option<usize>)
        ensures
            match r {
                Some(i) => i < self.entries@.len() && self.entries@[i as int].name@ == name@,
                None => forall|i: int|
                    0 <= i < self.entries@.len() ==> (#[trigger] self.entries@[i].name@) != name@,
            },
    {
        let mut i: usize = 0;
        let n = self.entries.len();
        while i < n
            invariant
                i <= n,
                n == self.entries@.len(),
                forall|k: int| 0 <= k < i ==> (#[trigger] self.entries@[k].name@) != name@,
            decreases n - i,
        {
            if bytes_equal(self.entries[i].name.as_slice(), name) {
                return Some(i);
            }
            i = i + 1;
        }
        None
    }

    /// Store `(handle, resolved)` under the raw byte name, replacing any
    /// entry of that name.
    fn insert_raw(&mut self, name: Vec<u8>, handle: SpriteSheetHandle, resolved: bool)
        requires
            old(self).wf(),
        ensures
            final(self).wf(),
            final(self)@ == old(self)@.insert(name@, (handle, resolved)),
            final(self).next_id == old(self).next_id,
    {
        let ghost s0 = self.entries@;
        match self.index_of(name.as_slice()) {
            Some(i) => {
                let e = &mut self.entries[i];
                *e = SheetEntry { name, handle, resolved };
                proof {
                    assert(self.entries@ == s0.update(i as int, self.entries@[i as int]));
                    lemma_entries_map_update(s0, i as int, self.entries@[i as int]);
                    assert forall|a: int, b: int|
                        0 <= a < b < self.entries@.len() implies self.entries@[a].name@
                        != self.entries@[b].name@ by {
                        assert(s0[a].name@ == self.entries@[a].name@);
                        assert(s0[b].name@ == self.entries@[b].name@);
                    }
                }
            },
            None => {
                self.entries.push(SheetEntry { name, handle, resolved });
                proof {
                    assert(self.entries@.drop_last() =~= s0);
                    assert forall|a: int, b: int|
                        0 <= a < b < self.entries@.len() implies self.entries@[a].name@
                        != self.entries@[b].name@ by {
                        if b < self.entries@.len() - 1 {
                            assert(s0[a].name@ != s0[b].name@);
                        } else {
                            assert(s0[a].name@ != name@);
                        }
                    }
                }
            },
        }
    }

    /// Insert a new handle under an identifier name (stored as given).
    /// You will not usually use this method; `load` and `get_or_load`
    /// handle the registration for you. The entry starts unresolved until
    /// the host reports it loaded via `mark_resolved`.
    pub fn insert(&mut self, name: &str, handle: SpriteSheetHandle)
        requires
            old(self).wf(),
        ensures
            final(self).wf(),
            final(self)@ == old(self)@.insert(name.spec_bytes(), (handle, false)),
    {
        let nb: Vec<u8> = name.as_bytes_vec();
        self.insert_raw(nb, handle, false);
    }

    /// Get the handle stored under the given identifier name. A full path
    /// may be passed: directory components and the trailing extension are
    /// stripped first. Returns `None` when nothing is cached under the
    /// normalized name — a normal outcome, not a failure.
    pub fn get(&self, name: &str) -> (r: Option<SpriteSheetHandle>)
        requires
            self.wf(),
        ensures
            ({
                let key = norm_name(name.spec_bytes());
                r == if self@.contains_key(key) {
                    Some(self@[key].0)
                } else {
                    None::<SpriteSheetHandle>
                }
            }),
    {
        let nb: Vec<u8> = name.as_bytes_vec();
        let key = normalized_name(nb.as_slice());
        proof {
            lemma_entries_map(self.entries@);
        }
        match self.index_of(key.as_slice()) {
            Some(i) => Some(self.entries[i].handle),
            None => {
                proof {
                    if self@.contains_key(key@) {
                        let i = choose|i: int|
                            0 <= i < self.entries@.len() && #[trigger] self.entries@[i].name@
                                == key@;
                        assert(false);
                    }
                }
                None
            },
        }
    }

    /// Load a new sprite sheet under the logical name derived from `path`.
    ///
    /// The caller reports whether the image file and the derived companion
    /// descriptor file exist; the checks themselves are host I/O. Failures
    /// are reported in this order: missing image file, unparseable path,
    /// unsupported extension, missing descriptor file — and a failed load
    /// produces no cache entry. On success the returned handle is
    /// registered, unresolved, under the normalized name (replacing any
    /// previous entry of that name), and the host is expected to issue the
    /// two chained load requests of the plan and later `mark_resolved`.
    pub fn load(&mut self, path: &str, image_file_exists: bool, descriptor_file_exists: bool) -> (r:
        Result<SpriteSheetHandle, LoadError>)
        requires
            old(self).wf(),
        ensures
            final(self).wf(),
            ({
                let p = path.spec_bytes();
                &&& (r is Ok <==> image_file_exists && path_error(p) is None
                    && descriptor_file_exists)
                &&& (!image_file_exists ==> r == Err::<SpriteSheetHandle, LoadError>(
                    LoadError::MissingImageFile,
                ))
                &&& (image_file_exists && path_error(p) is Some ==> r == Err::<
                    SpriteSheetHandle,
                    LoadError,
                >(path_error(p)->0))
                &&& (image_file_exists && path_error(p) is None && !descriptor_file_exists ==> r
                    == Err::<SpriteSheetHandle, LoadError>(LoadError::MissingDescriptorFile))
                &&& (r is Err ==> final(self)@ == old(self)@)
                &&& (r is Ok ==> final(self)@ == old(self)@.insert(norm_name(p), (r->Ok_0, false)))
            }),
    {
        if !image_file_exists {
            return Err(LoadError::MissingImageFile);
        }
        let plan = match plan_load(path) {
            Ok(p) => p,
            Err(e) => {
                return Err(e);
            },
        };
        if !descriptor_file_exists {
            return Err(LoadError::MissingDescriptorFile);
        }
        let handle = SpriteSheetHandle { id: self.next_id };
        self.next_id = if self.next_id == u64::MAX {
            0
        } else {
            self.next_id + 1
        };
        self.insert_raw(plan.name, handle, false);
        Ok(handle)
    }

    /// Get the handle for the sprite sheet at `path`, loading it first if
    /// nothing is cached under the path's logical name. Idempotent: when an
    /// entry exists, it is returned unchanged and no load is issued. The
    /// returned flag says whether this call issued a load (so the host
    /// knows to act on the plan); existence flags are as for `load`.
    pub fn get_or_load(
        &mut self,
        path: &str,
        image_file_exists: bool,
        descriptor_file_exists: bool,
    ) -> (r: Result<(SpriteSheetHandle, bool), LoadError>)
        requires
            old(self).wf(),
        ensures
            final(self).wf(),
            ({
                let p = path.spec_bytes();
                let key = norm_name(p);
                if old(self)@.contains_key(key) {
                    r == Ok::<(SpriteSheetHandle, bool), LoadError>((old(self)@[key].0, false))
                        && final(self)@ == old(self)@
                } else {
                    &&& (r is Ok <==> image_file_exists && path_error(p) is None
                        && descriptor_file_exists)
                    &&& (!image_file_exists ==> r == Err::<(SpriteSheetHandle, bool), LoadError>(
                        LoadError::MissingImageFile,
                    ))
                    &&& (image_file_exists && path_error(p) is Some ==> r == Err::<
                        (SpriteSheetHandle, bool),
                        LoadError,
                    >(path_error(p)->0))
                    &&& (image_file_exists && path_error(p) is None && !descriptor_file_exists
                        ==> r == Err::<(SpriteSheetHandle, bool), LoadError>(
                        LoadError::MissingDescriptorFile,
                    ))
                    &&& (r is Err ==> final(self)@ == old(self)@)
                    &&& (r matches Ok((h, issued)) ==> issued && final(self)@ == old(
                        self,
                    )@.insert(key, (h, false)))
                }
            }),
    {
        match self.get(path) {
            Some(handle) => Ok((handle, false)),
            None => match self.load(path, image_file_exists, descriptor_file_exists) {
                Ok(handle) => Ok((handle, true)),
                Err(e) => Err(e),
            },
        }
    }

    /// The host reports the sheet cached under this name (or path) as
    /// resolved. Unknown names are ignored.
    pub fn mark_resolved(&mut self, name: &str)
        requires
            old(self).wf(),
        ensures
            final(self).wf(),
            ({
                let key = norm_name(name.spec_bytes());
                if old(self)@.contains_key(key) {
                    final(self)@ == old(self)@.insert(key, (old(self)@[key].0, true))
                } else {
                    final(self)@ == old(self)@
                }
            }),
    {
        let nb: Vec<u8> = name.as_bytes_vec();
        let key = normalized_name(nb.as_slice());
        proof {
            lemma_entries_map(self.entries@);
        }
        let ghost s0 = self.entries@;
        match self.index_of(key.as_slice()) {
            Some(i) => {
                let e = &mut self.entries[i];
                e.resolved = true;
                proof {
                    assert(self.entries@ == s0.update(i as int, self.entries@[i as int]));
                    lemma_entries_map_update(s0, i as int, self.entries@[i as int]);
                    assert forall|a: int, b: int|
                        0 <= a < b < self.entries@.len() implies self.entries@[a].name@
                        != self.entries@[b].name@ by {
                        assert(s0[a].name@ == self.entries@[a].name@);
                        assert(s0[b].name@ == self.entries@[b].name@);
                    }
                }
            },
            None => {
                proof {
                    if self@.contains_key(key@) {
                        let i = choose|i: int|
                            0 <= i < self.entries@.len() && #[trigger] self.entries@[i].name@
                                == key@;
                        assert(false);
                    }
                }
            },
        }
    }

    /// Returns `true` if every cached sheet has been reported resolved;
    /// a cache with no entries is (vacuously) fully loaded. Startup logic
    /// polls this each frame until it holds.
    pub fn has_finished_loading_all(&self) -> (r: bool)
        requires
            self.wf(),
        ensures
            r == (forall|n: Seq<u8>| #[trigger] self@.contains_key(n) ==> self@[n].1),
    {
        proof {
            lemma_entries_map(self.entries@);
        }
        let n = self.entries.len();
        let mut i: usize = 0;
        while i < n
            invariant
                i <= n,
                n == self.entries@.len(),
                self.wf(),
                forall|k: int| 0 <= k < i ==> (#[trigger] self.entries@[k]).resolved,
            decreases n - i,
        {
            if !self.entries[i].resolved {
                proof {
                    lemma_entries_map(self.entries@);
                    assert(self@.contains_key(self.entries@[i as int].name@));
                    assert(!self@[self.entries@[i as int].name@].1);
                }
                return false;
            }
            i = i + 1;
        }
        proof {
            assert forall|m: Seq<u8>| #[trigger] self@.contains_key(m) implies self@[m].1 by {
                let k = choose|k: int|
                    0 <= k < self.entries@.len() && #[trigger] self.entries@[k].name@ == m;
                assert(self@[m] == (self.entries@[k].handle, self.entries@[k].resolved));
            }
        }
        true
    }
}

/// A successful load registers the sheet under the path's normalized name,
/// so looking it up under any spelling with the same logical name — full
/// path, name with extension, or bare name — finds that one entry.
pub proof fn lemma_load_resolves_all_spellings(
    pre: Map<Seq<u8>, (SpriteSheetHandle, bool)>,
    post: Map<Seq<u8>, (SpriteSheetHandle, bool)>,
    p: Seq<u8>,
    q: Seq<u8>,
    h: SpriteSheetHandle,
)
    requires
        post == pre.insert(norm_name(p), (h, false)),
        norm_name(q) == norm_name(p),
    ensures
        post.contains_key(norm_name(q)),
        post[norm_name(q)].0 == h,
{
}

/// Once a cache holds an entry for a path's logical name, a `get_or_load`
/// of any equivalent path finds it: the same handle comes back and no
/// second load request is issued (its contract then forces the result
/// `Ok((handle, false))` and an unchanged cache).
pub proof fn lemma_get_or_load_idempotent(
    m: Map<Seq<u8>, (SpriteSheetHandle, bool)>,
    p: Seq<u8>,
    q: Seq<u8>,
    h: SpriteSheetHandle,
    resolved: bool,
)
    requires
        m.contains_key(norm_name(p)),
        m[norm_name(p)] == (h, resolved),
        norm_name(q) == norm_name(p),
    ensures
        m.contains_key(norm_name(q)),
        m[norm_name(q)].0 == h,
{
}

} // verus!
