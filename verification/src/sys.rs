//! A simulated login-item registry with instrumented handle accounting.
//!
//! [`SimSystem`] stands for the state the operating system keeps: the two
//! scoped entry lists, the failure behaviour of the mutation calls, and a
//! resource-accounting layer (`next_handle`, `live`) that records every handle
//! the system has handed out and not yet been given back.  Each method models
//! one call of the system list API; its contract states exactly what the call
//! returns, which handles it acquires, and that nothing else changes.

use vstd::prelude::*;

verus! {

/// Which of the two system-maintained login-item lists an operation targets.
#[derive(Clone, Copy, PartialEq, Eq, Structural, Debug)]
pub enum Scope {
    Session,
    Global,
}

/// One entry of a simulated list, with the behaviour the system would show
/// for it: whether it resolves, what its display name and percent-encoded
/// path extract to (`None` models a string with no byte representation), and
/// whether a removal call on it succeeds.
#[derive(Debug)]
pub struct EntryModel {
    /// The entry is still in the list (a removed entry stays in snapshots
    /// that were taken while it was present, but no longer resolves).
    pub present: bool,
    /// Resolution to a filesystem location succeeds.
    pub resolvable: bool,
    /// The display name, or `None` when it cannot be extracted as bytes.
    pub name: Option<String>,
    /// The percent-encoded path, or `None` when it cannot be extracted.
    pub encoded_path: Option<String>,
    /// A removal call on this entry is accepted by the system.
    pub removable: bool,
}

/// The mathematical value of one entry.
pub struct EntryView {
    pub present: bool,
    pub resolvable: bool,
    pub name: Option<Seq<char>>,
    pub encoded_path: Option<Seq<char>>,
    pub removable: bool,
}

/// The view of an optional extracted string.
pub open spec fn opt_text(o: Option<String>) -> Option<Seq<char>> {
    match o {
        Some(s) => Some(s@),
        None => None,
    }
}

impl View for EntryModel {
    type V = EntryView;

    open spec fn view(&self) -> EntryView {
        EntryView {
            present: self.present,
            resolvable: self.resolvable,
            name: opt_text(self.name),
            encoded_path: opt_text(self.encoded_path),
            removable: self.removable,
        }
    }
}

/// An owned handle to one scoped list.
#[derive(Clone, Copy)]
pub struct ListHandle {
    pub id: u64,
    pub scope: Scope,
}

/// An owned handle to a point-in-time snapshot of a list, together with the
/// number of entries it holds.
#[derive(Clone, Copy)]
pub struct SnapshotHandle {
    pub id: u64,
    pub scope: Scope,
    pub count: usize,
}

/// An owned handle to one entry of a snapshot.
#[derive(Clone, Copy)]
pub struct EntryHandle {
    pub id: u64,
    pub scope: Scope,
    pub index: usize,
}

/// An owned handle to the filesystem URL a resolved entry points at.
#[derive(Clone, Copy)]
pub struct UrlHandle {
    pub id: u64,
    pub scope: Scope,
    pub index: usize,
}

/// An owned handle to the copied display name of a resolved entry.
#[derive(Clone, Copy)]
pub struct NameHandle {
    pub id: u64,
    pub scope: Scope,
    pub index: usize,
}

/// An owned handle to a string resource built from raw bytes.
pub struct StrResHandle {
    pub id: u64,
    pub value: String,
}

/// An owned handle to a file URL resource built from raw path bytes.
pub struct UrlResHandle {
    pub id: u64,
    pub path: String,
}

/// The requested list could not be obtained.
#[derive(Clone, Copy, PartialEq, Eq, Structural, Debug)]
pub struct OpenFailure;

/// One entry could not be resolved to a location and name.
#[derive(Clone, Copy, PartialEq, Eq, Structural, Debug)]
pub struct Unresolved;

/// The simulated registry and its handle accounting.
pub struct SimSystem {
    /// The session-scoped list, or `None` when opening it fails.
    pub session_items: Option<Vec<EntryModel>>,
    /// The global list, or `None` when opening it fails.
    pub global_items: Option<Vec<EntryModel>>,
    /// A name resource cannot be constructed from raw bytes.
    pub string_create_fails: bool,
    /// A file URL resource cannot be constructed from raw path bytes.
    pub url_create_fails: bool,
    /// The system rejects insertion calls.
    pub insert_fails: bool,
    /// The freshness seed reported with each snapshot.
    pub seed: u32,
    /// The id the next acquired handle will carry.
    pub next_handle: u64,
    /// The ids of all handles handed out and not yet released.
    pub live: Vec<u64>,
}

impl SimSystem {
    /// Handle accounting is consistent: live ids are distinct and below the
    /// next id to be handed out.
    pub open spec fn wf(self) -> bool {
        &&& forall|i: int, j: int|
            0 <= i < j < self.live@.len() ==> self.live@[i] != self.live@[j]
        &&& forall|i: int| 0 <= i < self.live@.len() ==> self.live@[i] < self.next_handle
    }

    /// The list of the given scope can be opened.
    pub open spec fn openable(self, sc: Scope) -> bool {
        match sc {
            Scope::Session => self.session_items is Some,
            Scope::Global => self.global_items is Some,
        }
    }

    /// The entries of the given scope's list, as mathematical values.
    pub open spec fn items(self, sc: Scope) -> Seq<EntryView> {
        (match sc {
            Scope::Session => self.session_items->0,
            Scope::Global => self.global_items->0,
        })@.map_values(|e: EntryModel| e@)
    }

    /// The length of the given scope's list (zero when it cannot be opened).
    pub open spec fn len_of(self, sc: Scope) -> int {
        if self.openable(sc) {
            self.items(sc).len() as int
        } else {
            0
        }
    }

    /// Enough handle ids remain for one operation on the given scope.
    pub open spec fn handle_room(self, sc: Scope) -> bool {
        self.next_handle as int + 4 * self.len_of(sc) + 6 <= u64::MAX as int
    }

    /// The number of handles currently held live, for resource-accounting
    /// checks by callers of the simulated system.
    pub fn live_handle_count(&self) -> (n: usize)
        ensures
            n == self.live@.len(),
    {
        self.live.len()
    }
}

/// Both scoped lists, the failure behaviour and the seed of `b` are those of
/// `a`: only the handle accounting may differ.
pub open spec fn registry_unchanged(a: SimSystem, b: SimSystem) -> bool {
    &&& b.session_items == a.session_items
    &&& b.global_items == a.global_items
    &&& b.string_create_fails == a.string_create_fails
    &&& b.url_create_fails == a.url_create_fails
    &&& b.insert_fails == a.insert_fails
    &&& b.seed == a.seed
}

/// Everything of `b` but the lists' entries is as in `a`.
pub open spec fn config_unchanged(a: SimSystem, b: SimSystem) -> bool {
    &&& b.openable(Scope::Session) == a.openable(Scope::Session)
    &&& b.openable(Scope::Global) == a.openable(Scope::Global)
    &&& b.string_create_fails == a.string_create_fails
    &&& b.url_create_fails == a.url_create_fails
    &&& b.insert_fails == a.insert_fails
    &&& b.seed == a.seed
}

/// Dropping the last element of a pushed sequence gives the sequence back:
/// releasing the most recently acquired handle restores the previous set.
pub broadcast proof fn lemma_push_drop_last<A>(s: Seq<A>, x: A)
    ensures
        #[trigger] s.push(x).drop_last() == s,
{
    assert(s.push(x).drop_last() =~= s);
}

/// The opposite scope.
pub open spec fn other_scope(sc: Scope) -> Scope {
    match sc {
        Scope::Session => Scope::Global,
        Scope::Global => Scope::Session,
    }
}

/// The entry that an accepted insertion appends: present, resolvable and
/// removable, carrying the given name and path.
pub open spec fn inserted_entry(name: Seq<char>, encoded_path: Seq<char>) -> EntryView {
    EntryView {
        present: true,
        resolvable: true,
        name: Some(name),
        encoded_path: Some(encoded_path),
        removable: true,
    }
}

/// The entry with its presence cleared, as an accepted removal leaves it.
pub open spec fn cleared(e: EntryView) -> EntryView {
    EntryView { present: false, ..e }
}

impl SimSystem {
    /// Hand out one fresh handle id.
    fn acquire(&mut self) -> (id: u64)
        requires
            old(self).wf(),
            old(self).next_handle < u64::MAX,
        ensures
            final(self).wf(),
            id == old(self).next_handle,
            final(self).next_handle == old(self).next_handle + 1,
            final(self).live@ == old(self).live@.push(id),
            registry_unchanged(*old(self), *final(self)),
    {
        let id = self.next_handle;
        self.live.push(id);
        self.next_handle = id + 1;
        id
    }

    /// Give one live handle back.  Models the single release call of the
    /// system API; releasing a handle that is not live is a defect, so the
    /// contract demands a live one.
    pub fn release(&mut self, id: u64)
        requires
            old(self).wf(),
            old(self).live@.contains(id),
        ensures
            final(self).wf(),
            final(self).next_handle == old(self).next_handle,
            registry_unchanged(*old(self), *final(self)),
            exists|j: int|
                0 <= j < old(self).live@.len() && old(self).live@[j] == id && final(self).live@
                    == old(self).live@.remove(j),
            old(self).live@.last() == id ==> final(self).live@ == old(self).live@.drop_last(),
    {
        let ghost prev = self.live@;
        let mut i: usize = 0;
        while i < self.live.len() && self.live[i] != id
            invariant
                *self == *old(self),
                0 <= i <= self.live@.len(),
                forall|k: int| 0 <= k < i ==> self.live@[k] != id,
            decreases self.live@.len() - i,
        {
            i += 1;
        }
        proof {
            if i == prev.len() {
                let w = choose|w: int| 0 <= w < prev.len() && prev[w] == id;
                assert(prev[w] != id);
            }
            assert(i < prev.len() && prev[i as int] == id);
        }
        self.live.remove(i);
        proof {
            assert forall|a: int, b: int|
                0 <= a < b < self.live@.len() implies self.live@[a] != self.live@[b] by {
                let map_idx = |k: int| if k < i { k } else { k + 1 };
                assert(self.live@[a] == prev[map_idx(a)]);
                assert(self.live@[b] == prev[map_idx(b)]);
            }
            if prev.last() == id {
                assert(i == prev.len() - 1) by {
                    if i < prev.len() - 1 {
                        assert(prev[i as int] != id);
                    }
                }
                assert(self.live@ =~= prev.drop_last());
            }
        }
    }

    /// Models the open-list-by-scope call: an owned handle to the requested
    /// list, or a failure when the system cannot provide one.
    pub fn open_list(&mut self, sc: Scope) -> (r: Result<ListHandle, OpenFailure>)
        requires
            old(self).wf(),
            old(self).next_handle < u64::MAX,
        ensures
            final(self).wf(),
            registry_unchanged(*old(self), *final(self)),
            r is Ok <==> old(self).openable(sc),
            r matches Ok(h) ==> h.scope == sc && h.id == old(self).next_handle && final(self).live@ == old(self).live@.push(h.id) && final(self).next_handle == old(self).next_handle + 1,
            r is Err ==> *final(self) == *old(self),
    {
        let can_open = match sc {
            Scope::Session => self.session_items.is_some(),
            Scope::Global => self.global_items.is_some(),
        };
        if can_open {
            let id = self.acquire();
            Ok(ListHandle { id, scope: sc })
        } else {
            Err(OpenFailure)
        }
    }

    /// Models snapshot-list: an owned handle to a point-in-time copy of the
    /// list's entries, with the current freshness seed.
    pub fn copy_snapshot(&mut self, lh: &ListHandle) -> (r: (SnapshotHandle, u32))
        requires
            old(self).wf(),
            old(self).live@.contains(lh.id),
            old(self).openable(lh.scope),
            old(self).next_handle < u64::MAX,
        ensures
            final(self).wf(),
            registry_unchanged(*old(self), *final(self)),
            r.0.scope == lh.scope,
            r.0.count == old(self).items(lh.scope).len(),
            r.0.id == old(self).next_handle,
            r.1 == old(self).seed,
            final(self).live@ == old(self).live@.push(r.0.id),
            final(self).next_handle == old(self).next_handle + 1,
    {
        let count = match lh.scope {
            Scope::Session => match &self.session_items {
                Some(v) => v.len(),
                None => 0,
            },
            Scope::Global => match &self.global_items {
                Some(v) => v.len(),
                None => 0,
            },
        };
        let seed = self.seed;
        let id = self.acquire();
        (SnapshotHandle { id, scope: lh.scope, count }, seed)
    }

    /// Models taking one entry out of a snapshot for the current loop
    /// iteration: an owned handle that must be released after the iteration.
    pub fn snapshot_entry(&mut self, sh: &SnapshotHandle, i: usize) -> (r: EntryHandle)
        requires
            old(self).wf(),
            old(self).live@.contains(sh.id),
            old(self).next_handle < u64::MAX,
            i < sh.count,
        ensures
            final(self).wf(),
            registry_unchanged(*old(self), *final(self)),
            r.id == old(self).next_handle,
            r.scope == sh.scope,
            r.index == i,
            final(self).live@ == old(self).live@.push(r.id),
            final(self).next_handle == old(self).next_handle + 1,
    {
        let id = self.acquire();
        EntryHandle { id, scope: sh.scope, index: i }
    }

    /// Models resolve-entry-to-location together with copy-display-name:
    /// resolution succeeds exactly for an entry that is still present and
    /// resolvable, and on success ownership of the returned URL and name
    /// resources passes to the caller.
    pub fn resolve_entry(&mut self, eh: &EntryHandle) -> (r: Result<
        (UrlHandle, NameHandle),
        Unresolved,
    >)
        requires
            old(self).wf(),
            old(self).live@.contains(eh.id),
            old(self).openable(eh.scope),
            eh.index < old(self).items(eh.scope).len(),
            old(self).next_handle as int + 2 <= u64::MAX as int,
        ensures
            final(self).wf(),
            registry_unchanged(*old(self), *final(self)),
            r is Ok <==> (old(self).items(eh.scope)[eh.index as int].present && old(self).items(
                eh.scope,
            )[eh.index as int].resolvable),
            r matches Ok(p) ==> p.0.scope == eh.scope && p.0.index == eh.index && p.1.scope
                == eh.scope && p.1.index == eh.index && p.0.id == old(self).next_handle && p.1.id
                == old(self).next_handle + 1 && final(self).live@ == old(self).live@.push(
                p.0.id,
            ).push(p.1.id) && final(self).next_handle == old(self).next_handle + 2,
            r is Err ==> *final(self) == *old(self),
    {
        let can_resolve = match eh.scope {
            Scope::Session => match &self.session_items {
                Some(v) => v[eh.index].present && v[eh.index].resolvable,
                None => false,
            },
            Scope::Global => match &self.global_items {
                Some(v) => v[eh.index].present && v[eh.index].resolvable,
                None => false,
            },
        };
        if can_resolve {
            let uid = self.acquire();
            let nid = self.acquire();
            Ok(
                (
                    UrlHandle { id: uid, scope: eh.scope, index: eh.index },
                    NameHandle { id: nid, scope: eh.scope, index: eh.index },
                ),
            )
        } else {
            Err(Unresolved)
        }
    }

    /// Models extract-bytes-from-string on a copied display name: `None`
    /// stands for a name the fixed encoding cannot hand out directly.
    pub fn display_name(&self, nh: &NameHandle) -> (r: Option<String>)
        requires
            self.wf(),
            self.live@.contains(nh.id),
            self.openable(nh.scope),
            nh.index < self.items(nh.scope).len(),
        ensures
            opt_text(r) == self.items(nh.scope)[nh.index as int].name,
    {
        let e_name = match nh.scope {
            Scope::Session => match &self.session_items {
                Some(v) => &v[nh.index].name,
                None => &None,
            },
            Scope::Global => match &self.global_items {
                Some(v) => &v[nh.index].name,
                None => &None,
            },
        };
        match e_name {
            Some(s) => Some(s.clone()),
            None => None,
        }
    }

    /// Models extracting the percent-encoded path text of a resolved URL:
    /// `None` stands for a path string with no direct byte representation.
    pub fn url_encoded_path(&self, uh: &UrlHandle) -> (r: Option<String>)
        requires
            self.wf(),
            self.live@.contains(uh.id),
            self.openable(uh.scope),
            uh.index < self.items(uh.scope).len(),
        ensures
            opt_text(r) == self.items(uh.scope)[uh.index as int].encoded_path,
    {
        let e_path = match uh.scope {
            Scope::Session => match &self.session_items {
                Some(v) => &v[uh.index].encoded_path,
                None => &None,
            },
            Scope::Global => match &self.global_items {
                Some(v) => &v[uh.index].encoded_path,
                None => &None,
            },
        };
        match e_path {
            Some(s) => Some(s.clone()),
            None => None,
        }
    }

    /// Models construct-string-from-bytes: an owned string resource holding
    /// the given text, or a construction failure.
    pub fn create_string(&mut self, s: &str) -> (r: Option<StrResHandle>)
        requires
            old(self).wf(),
            old(self).next_handle < u64::MAX,
        ensures
            final(self).wf(),
            registry_unchanged(*old(self), *final(self)),
            r is Some <==> !old(self).string_create_fails,
            r matches Some(h) ==> h.value@ == s@ && h.id == old(self).next_handle && final(self).live@ == old(self).live@.push(h.id) && final(self).next_handle == old(self).next_handle + 1,
            r is None ==> *final(self) == *old(self),
    {
        if self.string_create_fails {
            None
        } else {
            let id = self.acquire();
            Some(StrResHandle { id, value: s.to_owned() })
        }
    }

    /// Models construct-file-url-from-path-bytes: an owned URL resource for
    /// the given path, or a construction failure.
    pub fn create_file_url(&mut self, path: &str) -> (r: Option<UrlResHandle>)
        requires
            old(self).wf(),
            old(self).next_handle < u64::MAX,
        ensures
            final(self).wf(),
            registry_unchanged(*old(self), *final(self)),
            r is Some <==> !old(self).url_create_fails,
            r matches Some(h) ==> h.path@ == path@ && h.id == old(self).next_handle && final(self).live@ == old(self).live@.push(h.id) && final(self).next_handle == old(self).next_handle + 1,
            r is None ==> *final(self) == *old(self),
    {
        if self.url_create_fails {
            None
        } else {
            let id = self.acquire();
            Some(UrlResHandle { id, path: path.to_owned() })
        }
    }

    /// Models insert-entry: asks the list to append a new last-position entry
    /// built from the given name and URL resources, with no custom icon and
    /// no extra metadata.  Returns the owned handle of the new entry, or
    /// `None` when the system rejects the insertion.
    pub fn insert_item(&mut self, lh: &ListHandle, name: &StrResHandle, url: &UrlResHandle) -> (r:
        Option<EntryHandle>)
        requires
            old(self).wf(),
            old(self).live@.contains(lh.id),
            old(self).live@.contains(name.id),
            old(self).live@.contains(url.id),
            old(self).openable(lh.scope),
            old(self).next_handle < u64::MAX,
        ensures
            final(self).wf(),
            config_unchanged(*old(self), *final(self)),
            r is Some <==> !old(self).insert_fails,
            r matches Some(h) ==> h.scope == lh.scope && h.index == old(self).items(
                lh.scope,
            ).len() && h.id == old(self).next_handle && final(self).live@ == old(self).live@.push(
                h.id,
            ) && final(self).next_handle == old(self).next_handle + 1 && final(self).items(lh.scope)
                == old(self).items(lh.scope).push(inserted_entry(name.value@, url.path@)) && final(self).items(other_scope(lh.scope)) == old(self).items(other_scope(lh.scope)),
            r is None ==> *final(self) == *old(self),
    {
        if self.insert_fails {
            None
        } else {
            let entry = EntryModel {
                present: true,
                resolvable: true,
                name: Some(name.value.clone()),
                encoded_path: Some(url.path.clone()),
                removable: true,
            };
            let ghost sc = lh.scope;
            let ghost before = *self;
            match lh.scope {
                Scope::Session => match &mut self.session_items {
                    Some(v) => v.push(entry),
                    None => (),
                },
                Scope::Global => match &mut self.global_items {
                    Some(v) => v.push(entry),
                    None => (),
                },
            }
            proof {
                assert(self.items(sc) =~= before.items(sc).push(
                    inserted_entry(name.value@, url.path@),
                ));
            }
            let id = self.acquire();
            Some(EntryHandle { id, scope: lh.scope, index: self.len_of_exec(lh.scope) - 1 })
        }
    }

    /// The current length of the given scope's list.
    fn len_of_exec(&self, sc: Scope) -> (n: usize)
        requires
            self.openable(sc),
        ensures
            n == self.items(sc).len(),
    {
        match sc {
            Scope::Session => match &self.session_items {
                Some(v) => v.len(),
                None => 0,
            },
            Scope::Global => match &self.global_items {
                Some(v) => v.len(),
                None => 0,
            },
        }
    }

    /// Models remove-entry: asks the list to remove the entry the handle
    /// points at.  The call is accepted exactly when the entry is still
    /// present and the system allows its removal; a rejected call leaves the
    /// list unchanged.
    pub fn remove_item(&mut self, lh: &ListHandle, eh: &EntryHandle) -> (r: bool)
        requires
            old(self).wf(),
            old(self).live@.contains(lh.id),
            old(self).live@.contains(eh.id),
            old(self).openable(eh.scope),
            lh.scope == eh.scope,
            eh.index < old(self).items(eh.scope).len(),
        ensures
            final(self).wf(),
            config_unchanged(*old(self), *final(self)),
            final(self).live@ == old(self).live@,
            final(self).next_handle == old(self).next_handle,
            r == (old(self).items(eh.scope)[eh.index as int].present && old(self).items(
                eh.scope,
            )[eh.index as int].removable),
            r ==> final(self).items(eh.scope) == old(self).items(eh.scope).update(
                eh.index as int,
                cleared(old(self).items(eh.scope)[eh.index as int]),
            ) && final(self).items(other_scope(eh.scope)) == old(self).items(
                other_scope(eh.scope),
            ),
            !r ==> *final(self) == *old(self),
    {
        let ghost sc = eh.scope;
        let ghost before = *self;
        let accepted: bool;
        match eh.scope {
            Scope::Session => match &mut self.session_items {
                Some(v) => {
                    if v[eh.index].present && v[eh.index].removable {
                        v[eh.index].present = false;
                        accepted = true;
                    } else {
                        accepted = false;
                    }
                },
                None => {
                    accepted = false;
                },
            },
            Scope::Global => match &mut self.global_items {
                Some(v) => {
                    if v[eh.index].present && v[eh.index].removable {
                        v[eh.index].present = false;
                        accepted = true;
                    } else {
                        accepted = false;
                    }
                },
                None => {
                    accepted = false;
                },
            },
        }
        proof {
            if accepted {
                assert(self.items(sc) =~= before.items(sc).update(
                    eh.index as int,
                    cleared(before.items(sc)[eh.index as int]),
                ));
            }
        }
        accepted
    }
}

} // verus!
