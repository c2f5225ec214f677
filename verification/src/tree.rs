//! Directory-tree entries and the shape both enumeration backends share.
//!
//! A listing of one directory is a sequence of entries, each a path together
//! with a kind (regular file or directory). The remote backend first sees a
//! looser record, [`RawEntry`], whose fields may be missing; such entries are
//! silently skipped when the listing is tightened into [`TreeEntry`] values.

use vstd::prelude::*;

verus! {

/// Whether a tree entry names a regular file or a directory.
#[derive(Clone, Copy, Debug, PartialEq, Eq, Structural)]
pub enum EntryKind {
    File,
    Directory,
}

/// One entry of a directory listing: a path and its kind.
#[derive(Clone, Debug)]
pub struct TreeEntry {
    pub path: String,
    pub kind: EntryKind,
}

/// One record of a remote listing before validation: either field may be
/// missing, and the kind is still a free-form string.
#[derive(Clone, Debug)]
pub struct RawEntry {
    pub path: Option<String>,
    pub kind_name: Option<String>,
}

/// The mathematical shape of a listing: each entry as its path's characters
/// and its kind.
pub open spec fn entries_view(s: Seq<TreeEntry>) -> Seq<(Seq<char>, EntryKind)> {
    s.map(|i: int, e: TreeEntry| (e.path@, e.kind))
}

/// One raw record's fields as character sequences, shape only, nothing
/// validated.
pub open spec fn spec_record(r: RawEntry) -> (Option<Seq<char>>, Option<Seq<char>>) {
    (
        match r.path {
            Some(p) => Some(p@),
            None => None,
        },
        match r.kind_name {
            Some(k) => Some(k@),
            None => None,
        },
    )
}

/// The fields of a whole raw listing, record by record.
pub open spec fn raw_view(s: Seq<RawEntry>) -> Seq<(Option<Seq<char>>, Option<Seq<char>>)> {
    s.map(|i: int, r: RawEntry| spec_record(r))
}

/// What one record contributes: a file or directory entry when both fields
/// are present and the kind string is recognised, nothing otherwise.
pub open spec fn spec_entry_of_record(rec: (Option<Seq<char>>, Option<Seq<char>>)) -> Option<
    (Seq<char>, EntryKind),
> {
    match rec {
        (Some(p), Some(k)) => if k == "file"@ {
            Some((p, EntryKind::File))
        } else if k == "dir"@ {
            Some((p, EntryKind::Directory))
        } else {
            None
        },
        _ => None,
    }
}

/// The entries that a listing's records contribute, in listing order, with
/// unrecognised records skipped.
pub open spec fn spec_entries_of_records(
    s: Seq<(Option<Seq<char>>, Option<Seq<char>>)>,
) -> Seq<(Seq<char>, EntryKind)>
    decreases s.len(),
{
    if s.len() == 0 {
        Seq::empty()
    } else {
        match spec_entry_of_record(s.last()) {
            Some(e) => spec_entries_of_records(s.drop_last()).push(e),
            None => spec_entries_of_records(s.drop_last()),
        }
    }
}

proof fn lemma_entries_view_push(s: Seq<TreeEntry>, e: TreeEntry)
    ensures
        entries_view(s.push(e)) == entries_view(s).push((e.path@, e.kind)),
{
    assert(entries_view(s.push(e)) =~= entries_view(s).push((e.path@, e.kind)));
}

/// Tighten a raw remote listing into tree entries: records missing a field
/// or carrying an unrecognised kind are silently skipped, the rest keep
/// their listing order.
pub fn entries_from_raw(raw: &Vec<RawEntry>) -> (r: Vec<TreeEntry>)
    ensures
        entries_view(r@) == spec_entries_of_records(raw_view(raw@)),
{
    let ghost records = raw_view(raw@);
    let mut out: Vec<TreeEntry> = Vec::new();
    let mut i: usize = 0;
    while i < raw.len()
        invariant
            i <= raw@.len(),
            records == raw_view(raw@),
            entries_view(out@) == spec_entries_of_records(records.take(i as int)),
        decreases raw@.len() - i,
    {
        let file_name = "file".to_owned();
        let dir_name = "dir".to_owned();
        proof {
            assert(records[i as int] == spec_record(raw@[i as int]));
        }
        match (&raw[i].path, &raw[i].kind_name) {
            (Some(p), Some(k)) => {
                if *k == file_name {
                    let e = TreeEntry { path: p.clone(), kind: EntryKind::File };
                    proof {
                        lemma_entries_view_push(out@, e);
                    }
                    out.push(e);
                } else if *k == dir_name {
                    let e = TreeEntry { path: p.clone(), kind: EntryKind::Directory };
                    proof {
                        lemma_entries_view_push(out@, e);
                    }
                    out.push(e);
                }
            },
            _ => {},
        }
        proof {
            assert(records.take(i + 1).drop_last() =~= records.take(i as int));
            assert(records.take(i + 1).last() == records[i as int]);
        }
        i += 1;
    }
    proof {
        assert(records.take(raw@.len() as int) =~= records);
    }
    out
}

} // verus!
