//! The tree walker: one work-stack machine behind both enumeration backends.
//!
//! Recursive traversal is run as an explicit stack of pending entries. A
//! file entry on top of the stack is emitted into the result pool; a
//! directory entry is handed back to the caller, which lists it (remote
//! request or local read) and delivers the listing. Entries of one listing
//! are pushed in reverse so they are processed in listing order, which gives
//! exactly depth-first expansion: a directory's own files come out before
//! the entries that followed it in its parent's listing.

use vstd::prelude::*;

use crate::tree::{entries_view, EntryKind, TreeEntry};

verus! {

/// The characters of each path in a list of identifiers.
pub open spec fn paths_view(s: Seq<String>) -> Seq<Seq<char>> {
    s.map(|i: int, p: String| p@)
}

/// A listing in reverse order.
pub open spec fn rev_entries(s: Seq<(Seq<char>, EntryKind)>) -> Seq<(Seq<char>, EntryKind)>
    decreases s.len(),
{
    if s.len() == 0 {
        Seq::empty()
    } else {
        rev_entries(s.drop_first()).push(s.first())
    }
}

/// The run of file entries on top of the stack, in the order they are
/// emitted (top of stack first).
pub open spec fn pending_emits(s: Seq<(Seq<char>, EntryKind)>) -> Seq<Seq<char>>
    decreases s.len(),
{
    if s.len() == 0 {
        Seq::empty()
    } else if s.last().1 is File {
        seq![s.last().0] + pending_emits(s.drop_last())
    } else {
        Seq::empty()
    }
}

/// What remains of the stack once the top run of file entries is emitted:
/// empty, or a stack whose top is a directory entry.
pub open spec fn after_emits(s: Seq<(Seq<char>, EntryKind)>) -> Seq<(Seq<char>, EntryKind)>
    decreases s.len(),
{
    if s.len() == 0 {
        s
    } else if s.last().1 is File {
        after_emits(s.drop_last())
    } else {
        s
    }
}

/// How many file entries a listing holds.
pub open spec fn count_files(s: Seq<(Seq<char>, EntryKind)>) -> nat
    decreases s.len(),
{
    if s.len() == 0 {
        0
    } else if s.last().1 is File {
        count_files(s.drop_last()) + 1
    } else {
        count_files(s.drop_last())
    }
}

/// The enumeration machine: files already emitted and entries still pending.
pub struct TreeWalker {
    /// File identifiers collected so far, in traversal order.
    pub files: Vec<String>,
    /// The work stack; the end of the vector is the top.
    pub tasks: Vec<TreeEntry>,
}

/// The files already emitted plus every file entry still on the stack:
/// the quantity that one delivered listing raises by exactly its file count
/// and that stepping never changes.
pub open spec fn files_emitted_or_queued(w: TreeWalker) -> nat {
    w.files@.len() + count_files(entries_view(w.tasks@))
}

impl TreeWalker {
    /// A walk that has not started: no files yet, one pending directory, the
    /// root.
    pub fn new(root: String) -> (r: Self)
        ensures
            r.files@.len() == 0,
            entries_view(r.tasks@) =~= seq![(root@, EntryKind::Directory)],
    {
        let mut tasks: Vec<TreeEntry> = Vec::new();
        tasks.push(TreeEntry { path: root, kind: EntryKind::Directory });
        TreeWalker { files: Vec::new(), tasks }
    }

    /// Emit the run of file entries on top of the stack into the pool, in
    /// stack order, then either hand back the next directory to list or
    /// report the walk finished.
    pub fn step(&mut self) -> (r: Option<String>)
        ensures
            paths_view(final(self).files@) == paths_view(old(self).files@) + pending_emits(
                entries_view(old(self).tasks@),
            ),
            after_emits(entries_view(old(self).tasks@)).len() == 0 ==> r is None
                && final(self).tasks@.len() == 0,
            after_emits(entries_view(old(self).tasks@)).len() > 0 ==> (r matches Some(d)
                && after_emits(entries_view(old(self).tasks@)).last().1 is Directory
                && d@ == after_emits(entries_view(old(self).tasks@)).last().0
                && entries_view(final(self).tasks@) == after_emits(
                entries_view(old(self).tasks@),
            ).drop_last()),
            files_emitted_or_queued(*final(self)) == files_emitted_or_queued(*old(self)),
    {
        loop
            invariant
                paths_view(self.files@) + pending_emits(entries_view(self.tasks@)) == paths_view(
                    old(self).files@,
                ) + pending_emits(entries_view(old(self).tasks@)),
                after_emits(entries_view(self.tasks@)) == after_emits(
                    entries_view(old(self).tasks@),
                ),
                files_emitted_or_queued(*self) == files_emitted_or_queued(*old(self)),
            decreases self.tasks@.len(),
        {
            let n = self.tasks.len();
            if n == 0 {
                proof {
                    assert(paths_view(self.files@) + pending_emits(entries_view(self.tasks@))
                        =~= paths_view(self.files@));
                }
                return None;
            }
            proof {
                assert(entries_view(self.tasks@).last() == (
                    self.tasks@.last().path@,
                    self.tasks@.last().kind,
                ));
                assert(entries_view(self.tasks@).drop_last() =~= entries_view(
                    self.tasks@.drop_last(),
                ));
            }
            let top = self.tasks.pop().unwrap();
            match top.kind {
                EntryKind::File => {
                    proof {
                        assert(paths_view(self.files@.push(top.path)) =~= paths_view(
                            self.files@,
                        ).push(top.path@));
                    }
                    self.files.push(top.path);
                },
                EntryKind::Directory => {
                    proof {
                        assert(paths_view(self.files@) + pending_emits(
                            entries_view(old(self).tasks@),
                        ) =~= paths_view(self.files@) + Seq::<Seq<char>>::empty() + pending_emits(
                            entries_view(old(self).tasks@),
                        ));
                    }
                    return Some(top.path);
                },
            }
        }
    }

    /// Push one delivered listing onto the stack, in reverse, so its entries
    /// are processed in listing order. The emitted pool is untouched; the
    /// queued file count rises by exactly the listing's file count.
    pub fn deliver(&mut self, entries: Vec<TreeEntry>)
        ensures
            final(self).files == old(self).files,
            entries_view(final(self).tasks@) == entries_view(old(self).tasks@) + rev_entries(
                entries_view(entries@),
            ),
            files_emitted_or_queued(*final(self)) == files_emitted_or_queued(*old(self))
                + count_files(entries_view(entries@)),
    {
        let ghost all = entries_view(entries@);
        let mut rest = entries;
        proof {
            lemma_count_files_rev(all);
        }
        loop
            invariant
                rest@.len() <= all.len(),
                entries_view(rest@) =~= all.take(rest@.len() as int),
                entries_view(self.tasks@) == entries_view(old(self).tasks@) + rev_entries(
                    all.skip(rest@.len() as int),
                ),
                self.files == old(self).files,
            ensures
                rest@.len() == 0,
            decreases rest@.len(),
        {
            let k = rest.len();
            if k == 0 {
                break;
            }
            proof {
                assert(entries_view(rest@).last() == (rest@.last().path@, rest@.last().kind));
                assert(entries_view(rest@).len() == k);
                assert(entries_view(rest@) == all.take(k as int));
                assert(all[k - 1] == all.take(k as int)[k - 1]);
                assert(all[k - 1] == entries_view(rest@).last());
                assert(entries_view(rest@.drop_last()) =~= entries_view(rest@).drop_last());
                assert(entries_view(rest@).drop_last() =~= all.take(k - 1));
                lemma_rev_skip_one(all, k - 1);
            }
            let e = rest.pop().unwrap();
            proof {
                assert(entries_view(self.tasks@.push(e)) =~= entries_view(self.tasks@).push((
                    e.path@,
                    e.kind,
                )));
            }
            self.tasks.push(e);
        }
        proof {
            assert(all.skip(0) =~= all);
            lemma_count_files_concat(entries_view(old(self).tasks@), rev_entries(all));
        }
    }
}

/// The file-count law of a whole walk: stepping never changes the
/// emitted-or-queued count and delivering a listing raises it by exactly
/// the listing's file count, so once no tasks remain — a step returned
/// nothing — the pool's length is exactly the number of file entries the
/// delivered listings held, whatever the nesting depth.
pub proof fn lemma_finished_walk_count(w: TreeWalker)
    requires
        w.tasks@.len() == 0,
    ensures
        w.files@.len() == files_emitted_or_queued(w),
{
    assert(entries_view(w.tasks@) =~= Seq::<(Seq<char>, EntryKind)>::empty());
}

/// Peeling the element before a suffix: the reverse of the suffix from
/// `k` is the reverse of the suffix from `k + 1` with element `k` appended.
proof fn lemma_rev_skip_one(s: Seq<(Seq<char>, EntryKind)>, k: int)
    requires
        0 <= k < s.len(),
    ensures
        rev_entries(s.skip(k)) == rev_entries(s.skip(k + 1)).push(s[k]),
{
    assert(s.skip(k).len() > 0);
    assert(s.skip(k).first() == s[k]);
    assert(s.skip(k).drop_first() =~= s.skip(k + 1));
}

/// Reversal keeps the file count.
proof fn lemma_count_files_rev(s: Seq<(Seq<char>, EntryKind)>)
    ensures
        count_files(rev_entries(s)) == count_files(s),
    decreases s.len(),
{
    if s.len() > 0 {
        lemma_count_files_rev(s.drop_first());
        assert(rev_entries(s) == rev_entries(s.drop_first()).push(s.first()));
        assert(rev_entries(s).drop_last() =~= rev_entries(s.drop_first()));
        lemma_count_files_drop_first(s);
    }
}

/// The file count splits around the first element.
proof fn lemma_count_files_drop_first(s: Seq<(Seq<char>, EntryKind)>)
    requires
        s.len() > 0,
    ensures
        count_files(s) == count_files(s.drop_first()) + (if s.first().1 is File {
            1nat
        } else {
            0nat
        }),
    decreases s.len(),
{
    if s.len() == 1 {
        assert(s.drop_first() =~= Seq::<(Seq<char>, EntryKind)>::empty());
        assert(s.drop_last() =~= Seq::<(Seq<char>, EntryKind)>::empty());
    } else {
        lemma_count_files_drop_first(s.drop_last());
        assert(s.drop_last().drop_first() =~= s.drop_first().drop_last());
        assert(s.drop_last().first() == s.first());
        assert(s.drop_first().last() == s.last());
    }
}

/// The file count of a concatenation is the sum of the parts'.
proof fn lemma_count_files_concat(a: Seq<(Seq<char>, EntryKind)>, b: Seq<(Seq<char>, EntryKind)>)
    ensures
        count_files(a + b) == count_files(a) + count_files(b),
    decreases b.len(),
{
    if b.len() == 0 {
        assert(a + b =~= a);
    } else {
        lemma_count_files_concat(a, b.drop_last());
        assert((a + b).drop_last() =~= a + b.drop_last());
        assert((a + b).last() == b.last());
    }
}

} // verus!
