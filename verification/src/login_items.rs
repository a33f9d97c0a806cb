//! The verified login-item operations: list, add and remove.
//!
//! Each operation opens the scoped list, works on a snapshot of its entries,
//! and releases every handle it acquired exactly once on every exit path —
//! success, early failure and loop abort alike — which its contract states as
//! `final(sys).live@ == old(sys).live@`.  An entry that fails to resolve is
//! skipped, never aborting the scan of the remaining entries.  A stored path
//! that fails to percent-decode is treated the same way — the entry is
//! skipped when listing and matches nothing when removing — an explicit
//! policy rather than a fatal condition.

use crate::decode::{percent_decode, percent_decoded};
use crate::sys::{
    cleared, config_unchanged, inserted_entry, opt_text, other_scope, registry_unchanged,
    EntryView, ListHandle, Scope, SimSystem,
};
use vstd::prelude::*;
use vstd::string::StringExecFns;

verus! {

broadcast use vstd::seq_lib::lemma_seq_contains_after_push, crate::sys::lemma_push_drop_last;

/// The scope a front end's global flag selects.
pub open spec fn scope_of(global: bool) -> Scope {
    if global {
        Scope::Global
    } else {
        Scope::Session
    }
}

/// An extracted string, with the empty text standing in for one the system
/// could not hand out.
pub open spec fn text_or_empty(o: Option<Seq<char>>) -> Seq<char> {
    match o {
        Some(s) => s,
        None => Seq::empty(),
    }
}

/// The percent-decoded path of an entry, decoding the empty text for a path
/// the system could not hand out.
pub open spec fn entry_decoded_path(e: EntryView) -> Option<Seq<char>> {
    percent_decoded(text_or_empty(e.encoded_path))
}

/// The entry contributes a line to the listing: it is still present, it
/// resolves, and its stored path decodes.
pub open spec fn listed(e: EntryView) -> bool {
    e.present && e.resolvable && entry_decoded_path(e) is Some
}

/// One output line: the display name, a separator, the decoded path, and a
/// line break.
pub open spec fn line_text(name: Seq<char>, decoded_path: Seq<char>) -> Seq<char> {
    name + ": "@ + decoded_path + "\n"@
}

/// The output line of a listed entry.
pub open spec fn line_of(e: EntryView) -> Seq<char> {
    line_text(text_or_empty(e.name), entry_decoded_path(e)->0)
}

/// The listing of the first `n` entries, one line per listed entry, in
/// snapshot order.
pub open spec fn listing_upto(items: Seq<EntryView>, n: int) -> Seq<char>
    decreases n,
{
    if n <= 0 {
        Seq::empty()
    } else {
        listing_upto(items, n - 1) + (if listed(items[n - 1]) {
            line_of(items[n - 1])
        } else {
            Seq::empty()
        })
    }
}

/// The listing of all entries.
pub open spec fn listing(items: Seq<EntryView>) -> Seq<char> {
    listing_upto(items, items.len() as int)
}

/// What `list_login_items` returns: the listing of the scope's entries, or
/// the empty text when the list cannot be opened.
pub open spec fn list_output(s: SimSystem, sc: Scope) -> Seq<char> {
    if s.openable(sc) {
        listing(s.items(sc))
    } else {
        Seq::empty()
    }
}

/// The display name equals the target name exactly.  A name the system could
/// not hand out matches nothing.
pub open spec fn name_selected(name: Option<Seq<char>>, target: Seq<char>) -> bool {
    name is Some && name->0 == target
}

/// The percent-decoded path equals the target path exactly.  A path the
/// system could not hand out, or one that fails to decode, matches nothing.
pub open spec fn path_selected(encoded: Option<Seq<char>>, target: Seq<char>) -> bool {
    encoded is Some && percent_decoded(encoded->0) == Some(target)
}

/// The removal predicate: display name equality or decoded-path equality.
pub open spec fn selected(
    name: Option<Seq<char>>,
    encoded: Option<Seq<char>>,
    target_name: Seq<char>,
    target_path: Seq<char>,
) -> bool {
    name_selected(name, target_name) || path_selected(encoded, target_path)
}

/// A removal pass issues a removal call for this entry: it is present,
/// resolves, and matches the predicate.
pub open spec fn scan_hit(e: EntryView, target_name: Seq<char>, target_path: Seq<char>) -> bool {
    e.present && e.resolvable && selected(e.name, e.encoded_path, target_name, target_path)
}

/// The removal call for this entry is rejected, aborting the pass.
pub open spec fn blocked(e: EntryView, target_name: Seq<char>, target_path: Seq<char>) -> bool {
    scan_hit(e, target_name, target_path) && !e.removable
}

/// No entry among the first `n` aborts a removal pass.
pub open spec fn no_block_upto(
    items: Seq<EntryView>,
    target_name: Seq<char>,
    target_path: Seq<char>,
    n: int,
) -> bool {
    forall|k: int| 0 <= k < n ==> !blocked(items[k], target_name, target_path)
}

/// The entries after a removal pass handled the first `n`: every hit among
/// them is cleared, everything else is untouched.
pub open spec fn swept(
    items: Seq<EntryView>,
    target_name: Seq<char>,
    target_path: Seq<char>,
    n: int,
) -> Seq<EntryView> {
    items.map(
        |i: int, e: EntryView|
            if i < n && scan_hit(e, target_name, target_path) {
                cleared(e)
            } else {
                e
            },
    )
}

/// How many of the first `n` entries a removal pass hits.
pub open spec fn hits_upto(
    items: Seq<EntryView>,
    target_name: Seq<char>,
    target_path: Seq<char>,
    n: int,
) -> int
    decreases n,
{
    if n <= 0 {
        0
    } else {
        hits_upto(items, target_name, target_path, n - 1) + (if scan_hit(
            items[n - 1],
            target_name,
            target_path,
        ) {
            1int
        } else {
            0int
        })
    }
}

/// An insertion is accepted: the list opens, both resources construct, and
/// the system takes the new entry.
pub open spec fn add_accepted(s: SimSystem, sc: Scope) -> bool {
    s.openable(sc) && !s.string_create_fails && !s.url_create_fails && !s.insert_fails
}

/// Building a name resource failed, building a URL resource failed, or the
/// system rejected the insertion call.
#[derive(Clone, Copy, PartialEq, Eq, Structural, Debug)]
pub enum InsertFailure {
    NameConstruction,
    UrlConstruction,
    Rejected,
}

/// A removal call was rejected, aborting the pass.
#[derive(Clone, Copy, PartialEq, Eq, Structural, Debug)]
pub struct RemoveFailure;

/// What `insert_login_entry` returns, decided by the first failing step.
pub open spec fn insert_outcome(s: SimSystem) -> Result<(), InsertFailure> {
    if s.string_create_fails {
        Err(InsertFailure::NameConstruction)
    } else if s.url_create_fails {
        Err(InsertFailure::UrlConstruction)
    } else if s.insert_fails {
        Err(InsertFailure::Rejected)
    } else {
        Ok(())
    }
}

/// Builds the output line for one resolved entry from its display name text
/// and its percent-encoded path text: the path is decoded, and the line is
/// `None` exactly when decoding fails, so that the caller skips the entry.
pub fn format_entry_line(name: &str, encoded_path: &str) -> (r: Option<String>)
    ensures
        r is Some <==> percent_decoded(encoded_path@) is Some,
        r is Some ==> r->0@ == line_text(name@, percent_decoded(encoded_path@)->0),
{
    match percent_decode(encoded_path) {
        Some(decoded) => {
            let mut line = String::new();
            line.append(name);
            line.append(": ");
            line.append(decoded.as_str());
            line.append("\n");
            proof {
                assert(line@ =~= line_text(name@, percent_decoded(encoded_path@)->0));
            }
            Some(line)
        },
        None => None,
    }
}

/// The removal decision for one resolved entry: its display name equals the
/// target name exactly, or its percent-decoded path equals the target path
/// exactly.  A name or path the system could not hand out matches nothing,
/// and a path that fails to decode matches nothing.
pub fn removal_decision(
    name: &Option<String>,
    encoded_path: &Option<String>,
    target_name: &str,
    target_path: &str,
) -> (r: bool)
    ensures
        r == selected(opt_text(*name), opt_text(*encoded_path), target_name@, target_path@),
{
    let name_hit = match name {
        Some(n) => *n == target_name.to_owned(),
        None => false,
    };
    if name_hit {
        return true;
    }
    match encoded_path {
        Some(p) => match percent_decode(p.as_str()) {
            Some(d) => d == target_path.to_owned(),
            None => false,
        },
        None => false,
    }
}

/// Lists the entries of the scoped login-item list: one `name: path` line
/// per entry that is present, resolves and whose path decodes, in snapshot
/// order; the empty string when the list cannot be opened.  Every handle
/// acquired during the run is released exactly once.
pub fn list_login_items(sys: &mut SimSystem, global: bool) -> (out: String)
    requires
        old(sys).wf(),
        old(sys).handle_room(scope_of(global)),
    ensures
        final(sys).wf(),
        registry_unchanged(*old(sys), *final(sys)),
        final(sys).live@ == old(sys).live@,
        final(sys).next_handle as int <= old(sys).next_handle as int + 2 + 3 * old(sys).len_of(
            scope_of(global),
        ),
        out@ == list_output(*old(sys), scope_of(global)),
{
    let sc = if global {
        Scope::Global
    } else {
        Scope::Session
    };
    let mut out = String::new();
    let lh = match sys.open_list(sc) {
        Ok(h) => h,
        Err(_) => {
            return out;
        },
    };
    let (snap, _seed) = sys.copy_snapshot(&lh);
    let ghost items = old(sys).items(sc);
    let ghost base = old(sys).live@;
    let ghost base_next = old(sys).next_handle as int;
    let mut i: usize = 0;
    while i < snap.count
        invariant
            sys.wf(),
            registry_unchanged(*old(sys), *sys),
            old(sys).handle_room(sc),
            sc == scope_of(global),
            sys.openable(sc),
            sys.items(sc) == items,
            items.len() == old(sys).len_of(sc),
            0 <= i <= snap.count,
            snap.count == items.len(),
            snap.scope == sc,
            lh.scope == sc,
            sys.live@ == base.push(lh.id).push(snap.id),
            sys.next_handle as int <= base_next + 2 + 3 * i,
            base_next == old(sys).next_handle as int,
            out@ == listing_upto(items, i as int),
        decreases snap.count - i,
    {
        let eh = sys.snapshot_entry(&snap, i);
        match sys.resolve_entry(&eh) {
            Ok((uh, nh)) => {
                let name_opt = sys.display_name(&nh);
                let enc_opt = sys.url_encoded_path(&uh);
                let name_s = match name_opt {
                    Some(s) => s,
                    None => String::new(),
                };
                let enc_s = match enc_opt {
                    Some(s) => s,
                    None => String::new(),
                };
                match format_entry_line(name_s.as_str(), enc_s.as_str()) {
                    Some(line) => {
                        out.append(line.as_str());
                        proof {
                            assert(out@ =~= listing_upto(items, i as int + 1));
                        }
                    },
                    None => {
                        proof {
                            assert(out@ =~= listing_upto(items, i as int + 1));
                        }
                    },
                }
                sys.release(nh.id);
                sys.release(uh.id);
            },
            Err(_) => {
                proof {
                    assert(out@ =~= listing_upto(items, i as int + 1));
                }
            },
        }
        sys.release(eh.id);
        i += 1;
    }
    sys.release(snap.id);
    sys.release(lh.id);
    out
}

/// Inserts a new last-position entry built from the raw name and path into
/// the list the handle points at, releasing every intermediate resource on
/// the success and failure paths alike.
pub fn insert_login_entry(sys: &mut SimSystem, lh: &ListHandle, name: &str, path: &str) -> (r:
    Result<(), InsertFailure>)
    requires
        old(sys).wf(),
        old(sys).live@.contains(lh.id),
        old(sys).openable(lh.scope),
        old(sys).next_handle as int + 3 <= u64::MAX as int,
    ensures
        final(sys).wf(),
        config_unchanged(*old(sys), *final(sys)),
        final(sys).live@ == old(sys).live@,
        final(sys).next_handle as int <= old(sys).next_handle as int + 3,
        r == insert_outcome(*old(sys)),
        r is Ok ==> final(sys).items(lh.scope) == old(sys).items(lh.scope).push(
            inserted_entry(name@, path@),
        ) && final(sys).items(other_scope(lh.scope)) == old(sys).items(other_scope(lh.scope)),
        r is Err ==> registry_unchanged(*old(sys), *final(sys)),
{
    let name_res = match sys.create_string(name) {
        Some(h) => h,
        None => {
            return Err(InsertFailure::NameConstruction);
        },
    };
    let url_res = match sys.create_file_url(path) {
        Some(h) => h,
        None => {
            sys.release(name_res.id);
            return Err(InsertFailure::UrlConstruction);
        },
    };
    match sys.insert_item(lh, &name_res, &url_res) {
        Some(eh) => {
            sys.release(eh.id);
            sys.release(url_res.id);
            sys.release(name_res.id);
            Ok(())
        },
        None => {
            sys.release(url_res.id);
            sys.release(name_res.id);
            Err(InsertFailure::Rejected)
        },
    }
}

/// Adds a login item with the given display name and raw path to the scoped
/// list.  Returns `true` exactly when the list opens, both resources
/// construct and the system accepts the insertion; the new entry then stands
/// at the end of the list.  Every handle acquired during the run is released
/// exactly once.
pub fn add_login_item(sys: &mut SimSystem, global: bool, name: &str, path: &str) -> (r: bool)
    requires
        old(sys).wf(),
        old(sys).handle_room(scope_of(global)),
    ensures
        final(sys).wf(),
        config_unchanged(*old(sys), *final(sys)),
        final(sys).live@ == old(sys).live@,
        final(sys).next_handle as int <= old(sys).next_handle as int + 4,
        r == add_accepted(*old(sys), scope_of(global)),
        r ==> final(sys).items(scope_of(global)) == old(sys).items(scope_of(global)).push(
            inserted_entry(name@, path@),
        ) && final(sys).items(other_scope(scope_of(global))) == old(sys).items(
            other_scope(scope_of(global)),
        ),
        !r ==> registry_unchanged(*old(sys), *final(sys)),
{
    let sc = if global {
        Scope::Global
    } else {
        Scope::Session
    };
    let lh = match sys.open_list(sc) {
        Ok(h) => h,
        Err(_) => {
            return false;
        },
    };
    let outcome = insert_login_entry(sys, &lh, name, path);
    sys.release(lh.id);
    match outcome {
        Ok(()) => true,
        Err(_) => false,
    }
}

/// Removes every entry of the list that the predicate built from the target
/// name and path selects, in snapshot order, stopping at the first removal
/// call the system rejects.  Returns the number of entries removed, or the
/// failure at the point of the first rejected call — earlier removals in the
/// same pass keep their effect.  Every handle acquired during the run is
/// released exactly once.
pub fn remove_matching(
    sys: &mut SimSystem,
    lh: &ListHandle,
    target_name: &str,
    target_path: &str,
) -> (r: Result<usize, RemoveFailure>)
    requires
        old(sys).wf(),
        old(sys).live@.contains(lh.id),
        old(sys).openable(lh.scope),
        old(sys).next_handle as int + 4 * old(sys).items(lh.scope).len() + 2 <= u64::MAX as int,
    ensures
        final(sys).wf(),
        config_unchanged(*old(sys), *final(sys)),
        final(sys).live@ == old(sys).live@,
        final(sys).next_handle as int <= old(sys).next_handle as int + 1 + 3 * old(sys).items(
            lh.scope,
        ).len(),
        final(sys).items(other_scope(lh.scope)) == old(sys).items(other_scope(lh.scope)),
        r matches Ok(c) ==> no_block_upto(
            old(sys).items(lh.scope),
            target_name@,
            target_path@,
            old(sys).items(lh.scope).len() as int,
        ) && final(sys).items(lh.scope) == swept(
            old(sys).items(lh.scope),
            target_name@,
            target_path@,
            old(sys).items(lh.scope).len() as int,
        ) && c == hits_upto(
            old(sys).items(lh.scope),
            target_name@,
            target_path@,
            old(sys).items(lh.scope).len() as int,
        ),
        r is Err ==> exists|k: int|
            0 <= k < old(sys).items(lh.scope).len() && blocked(
                #[trigger] old(sys).items(lh.scope)[k],
                target_name@,
                target_path@,
            ) && no_block_upto(old(sys).items(lh.scope), target_name@, target_path@, k) && final(sys).items(lh.scope) == swept(old(sys).items(lh.scope), target_name@, target_path@, k),
{
    let sc = lh.scope;
    let ghost tn = target_name@;
    let ghost tp = target_path@;
    let ghost items = old(sys).items(sc);
    let ghost base = old(sys).live@;
    let ghost base_next = old(sys).next_handle as int;
    let (snap, _seed) = sys.copy_snapshot(lh);
    let mut removed: usize = 0;
    let mut i: usize = 0;
    while i < snap.count
        invariant
            sys.wf(),
            config_unchanged(*old(sys), *sys),
            old(sys).live@.contains(lh.id),
            sys.openable(sc),
            sc == lh.scope,
            snap.scope == sc,
            0 <= i <= snap.count,
            snap.count == items.len(),
            items == old(sys).items(sc),
            tn == target_name@,
            tp == target_path@,
            sys.items(sc) == swept(items, tn, tp, i as int),
            sys.items(other_scope(sc)) == old(sys).items(other_scope(sc)),
            no_block_upto(items, tn, tp, i as int),
            removed <= i,
            removed as int == hits_upto(items, tn, tp, i as int),
            sys.live@ == base.push(snap.id),
            base == old(sys).live@,
            sys.next_handle as int <= base_next + 1 + 3 * i,
            base_next + 4 * items.len() + 2 <= u64::MAX as int,
            base_next == old(sys).next_handle as int,
        decreases snap.count - i,
    {
        let eh = sys.snapshot_entry(&snap, i);
        proof {
            assert(swept(items, tn, tp, i as int)[i as int] == items[i as int]);
        }
        match sys.resolve_entry(&eh) {
            Ok((uh, nh)) => {
                let name_opt = sys.display_name(&nh);
                let enc_opt = sys.url_encoded_path(&uh);
                let hit = removal_decision(&name_opt, &enc_opt, target_name, target_path);
                proof {
                    assert(opt_text(name_opt) == items[i as int].name);
                    assert(opt_text(enc_opt) == items[i as int].encoded_path);
                    assert(hit == scan_hit(items[i as int], tn, tp));
                }
                sys.release(nh.id);
                sys.release(uh.id);
                if hit {
                    let accepted = sys.remove_item(lh, &eh);
                    sys.release(eh.id);
                    if accepted {
                        removed += 1;
                        proof {
                            let before = swept(items, tn, tp, i as int);
                            let after = swept(items, tn, tp, i as int + 1);
                            assert forall|j: int| 0 <= j < items.len() implies before.update(
                                i as int,
                                cleared(items[i as int]),
                            )[j] == after[j] by {
                                if j != i as int {
                                    assert(before[j] == after[j]);
                                }
                            }
                            assert(sys.items(sc) =~= after);
                        }
                    } else {
                        sys.release(snap.id);
                        proof {
                            assert(!items[i as int].removable);
                            assert(blocked(items[i as int], tn, tp));
                        }
                        return Err(RemoveFailure);
                    }
                } else {
                    sys.release(eh.id);
                    proof {
                        assert forall|j: int| 0 <= j < items.len() implies swept(
                            items,
                            tn,
                            tp,
                            i as int,
                        )[j] == swept(items, tn, tp, i as int + 1)[j] by {}
                        assert(sys.items(sc) =~= swept(items, tn, tp, i as int + 1));
                    }
                }
            },
            Err(_) => {
                sys.release(eh.id);
                proof {
                    assert(!items[i as int].present || !items[i as int].resolvable);
                    assert forall|j: int| 0 <= j < items.len() implies swept(
                        items,
                        tn,
                        tp,
                        i as int,
                    )[j] == swept(items, tn, tp, i as int + 1)[j] by {}
                    assert(sys.items(sc) =~= swept(items, tn, tp, i as int + 1));
                }
            },
        }
        i += 1;
    }
    sys.release(snap.id);
    Ok(removed)
}

/// Removes the entries of the scoped list whose display name equals `name`
/// or whose decoded path equals `path`.  Returns `true` when the full scan
/// completes without a rejected removal call — also when nothing matched —
/// and `false` when the list cannot be opened or at the first rejected call,
/// earlier removals keeping their effect.  Every handle acquired during the
/// run is released exactly once.
pub fn rm_login_item(sys: &mut SimSystem, global: bool, name: &str, path: &str) -> (r: bool)
    requires
        old(sys).wf(),
        old(sys).handle_room(scope_of(global)),
    ensures
        final(sys).wf(),
        config_unchanged(*old(sys), *final(sys)),
        final(sys).live@ == old(sys).live@,
        final(sys).next_handle as int <= old(sys).next_handle as int + 2 + 3 * old(sys).len_of(
            scope_of(global),
        ),
        !old(sys).openable(scope_of(global)) ==> !r && registry_unchanged(
            *old(sys),
            *final(sys),
        ),
        old(sys).openable(scope_of(global)) ==> final(sys).items(other_scope(scope_of(global)))
            == old(sys).items(other_scope(scope_of(global))),
        old(sys).openable(scope_of(global)) && r ==> no_block_upto(
            old(sys).items(scope_of(global)),
            name@,
            path@,
            old(sys).items(scope_of(global)).len() as int,
        ) && final(sys).items(scope_of(global)) == swept(
            old(sys).items(scope_of(global)),
            name@,
            path@,
            old(sys).items(scope_of(global)).len() as int,
        ),
        old(sys).openable(scope_of(global)) && !r ==> exists|k: int|
            0 <= k < old(sys).items(scope_of(global)).len() && blocked(
                #[trigger] old(sys).items(scope_of(global))[k],
                name@,
                path@,
            ) && no_block_upto(old(sys).items(scope_of(global)), name@, path@, k) && final(sys).items(scope_of(global)) == swept(old(sys).items(scope_of(global)), name@, path@, k),
{
    let sc = if global {
        Scope::Global
    } else {
        Scope::Session
    };
    let lh = match sys.open_list(sc) {
        Ok(h) => h,
        Err(_) => {
            return false;
        },
    };
    let outcome = remove_matching(sys, &lh, name, path);
    sys.release(lh.id);
    match outcome {
        Ok(_) => true,
        Err(_) => false,
    }
}

/// Records the messages handed to it: the injected logging capability a
/// front end passes into an operation in place of a global callback.
pub struct InternalLogger {
    pub messages: Vec<String>,
}

impl View for InternalLogger {
    type V = Seq<Seq<char>>;

    open spec fn view(&self) -> Seq<Seq<char>> {
        self.messages@.map_values(|m: String| m@)
    }
}

impl InternalLogger {
    /// A logger with no messages recorded yet.
    pub fn new() -> (r: InternalLogger)
        ensures
            r@ == Seq::<Seq<char>>::empty(),
    {
        let r = InternalLogger { messages: Vec::new() };
        proof {
            assert(r@ =~= Seq::<Seq<char>>::empty());
        }
        r
    }

    /// Record one message.
    pub fn log(&mut self, msg: &str)
        ensures
            final(self)@ == old(self)@.push(msg@),
    {
        self.messages.push(msg.to_owned());
        proof {
            assert(self@ =~= old(self)@.push(msg@));
        }
    }
}

} // verus!

