//! From what a walk of the file system reports to the list of entries.

use crate::entry::{EntryView, FileEntry, FileStatus};
use crate::utils::{format_permissions, permissions_text};
use vstd::prelude::*;
use vstd::string::StringExecFns;

verus! {

/// What the file system knows of one path.
#[derive(Debug)]
pub struct FileMeta {
    /// The size in bytes.
    pub len: u64,
    /// Whether the path is a directory.
    pub is_dir: bool,
    /// The permission bits, on systems that have them.
    pub mode: Option<u32>,
}

/// One path that the walk found.
#[derive(Debug)]
pub struct WalkEntry {
    pub path: String,
    /// How far below the root the path lies; the root itself has depth 0.
    pub depth: usize,
    pub is_dir: bool,
    /// Absent where it was not asked for or could not be read.
    pub metadata: Option<FileMeta>,
    /// Absent where the path is as the repository has it, or no repository
    /// was read.
    pub git_status: Option<FileStatus>,
}

/// One step of the walk: a path, or something that could not be read.
#[derive(Debug)]
pub enum WalkItem {
    Found(WalkEntry),
    /// The walk failed at this depth below the root, where it knows the
    /// depth. At depth 0 it is the root itself that could not be read.
    Failed { depth: Option<usize> },
}

/// Why a walk gives no list of entries to start a session on.
#[derive(Clone, Copy, Debug, PartialEq, Eq, Structural)]
pub enum ScanError {
    /// The root itself could not be read.
    RootFailed,
    /// What the walk reported is not laid out as a walk of one tree.
    NotATree,
}

impl WalkItem {
    /// The step is a failure to read the root: a failed step at depth 0.
    pub open spec fn is_root_failure(self) -> bool {
        self matches WalkItem::Failed { depth: Some(d) } && d == 0
    }

    /// Tells whether the step is a failure to read the root.
    pub fn root_failure(&self) -> (failed: bool)
        ensures
            failed == self.is_root_failure(),
    {
        match self {
            WalkItem::Failed { depth: Some(d) } => *d == 0,
            _ => false,
        }
    }
}

/// The walk could not read its root: one of its steps is a failure at depth
/// 0. Such a walk gives no list at all, whatever else it found.
pub open spec fn root_failed(items: Seq<WalkItem>) -> bool {
    exists|i: int| 0 <= i < items.len() && (#[trigger] items[i]).is_root_failure()
}

/// Which columns a scan fills in.
#[derive(Clone, Copy, Debug, PartialEq, Eq, Structural)]
pub struct Columns {
    pub size: bool,
    pub permissions: bool,
    pub git_status: bool,
}

impl Columns {
    /// Whether the scan has to ask the file system about each path: sizes
    /// and permissions come from there.
    pub open spec fn spec_needs_metadata(self) -> bool {
        self.size || self.permissions
    }

    /// Tells whether the scan has to ask the file system about each path.
    pub fn needs_metadata(&self) -> (needed: bool)
        ensures
            needed == self.spec_needs_metadata(),
    {
        self.size || self.permissions
    }
}

/// The permission column of a path: `d` or `-` for its kind, then the nine
/// permission letters; ten dashes where the system has no permission bits.
pub open spec fn permission_column(meta: FileMeta) -> Seq<char> {
    match meta.mode {
        Some(mode) => seq![if meta.is_dir {
            'd'
        } else {
            '-'
        }] + permissions_text(mode),
        None => "----------"@,
    }
}

/// The entry that a step of the walk leaves in the list, if it leaves one:
/// none for a failed step, and none for the root itself.
/// A new entry is collapsed. It has a size only if it is a file, and each
/// column only if the column was asked for and the walk could fill it.
pub open spec fn entry_for(item: WalkItem, root: Seq<char>, columns: Columns) -> Option<
    EntryView,
> {
    match item {
        WalkItem::Failed { .. } => None,
        WalkItem::Found(found) => if found.path@ == root {
            None
        } else {
            Some(
                EntryView {
                    path: found.path@,
                    depth: found.depth as nat,
                    is_dir: found.is_dir,
                    is_expanded: false,
                    size: match found.metadata {
                        Some(meta) => if columns.size && !found.is_dir {
                            Some(meta.len)
                        } else {
                            None
                        },
                        None => None,
                    },
                    permissions: match found.metadata {
                        Some(meta) => if columns.permissions {
                            Some(permission_column(meta))
                        } else {
                            None
                        },
                        None => None,
                    },
                    git_status: if columns.git_status {
                        found.git_status
                    } else {
                        None
                    },
                },
            )
        },
    }
}

/// The list of entries that a walk leaves, in the order of the walk, where it
/// could read its root. Steps that failed below the root leave no entry
/// and are otherwise passed over.
pub open spec fn scanned(items: Seq<WalkItem>, root: Seq<char>, columns: Columns) -> Seq<
    EntryView,
> {
    items.filter_map(|item: WalkItem| entry_for(item, root, columns))
}

/// Writes the permission column of a path.
pub fn format_permission_column(meta: &FileMeta) -> (text: String)
    ensures
        text@ == permission_column(*meta),
{
    match meta.mode {
        Some(mode) => {
            proof {
                reveal_strlit("d");
                reveal_strlit("-");
            }
            let mut text = String::from_str(
                if meta.is_dir {
                    "d"
                } else {
                    "-"
                },
            );
            let letters = format_permissions(mode);
            text.append(letters.as_str());
            assert(text@ =~= permission_column(*meta));
            text
        },
        None => String::from_str("----------"),
    }
}

/// Turns one step of the walk into an entry.
pub fn scan_entry(item: &WalkItem, root: &String, columns: Columns) -> (entry: Option<FileEntry>)
    ensures
        match entry {
            Some(e) => entry_for(*item, root@, columns) == Some(e@),
            None => entry_for(*item, root@, columns) is None,
        },
{
    match item {
        WalkItem::Failed { .. } => None,
        WalkItem::Found(found) => {
            if found.path == *root {
                return None;
            }
            let size: Option<u64> = match &found.metadata {
                Some(meta) => if columns.size && !found.is_dir {
                    Some(meta.len)
                } else {
                    None
                },
                None => None,
            };
            let permissions: Option<String> = match &found.metadata {
                Some(meta) => if columns.permissions {
                    Some(format_permission_column(meta))
                } else {
                    None
                },
                None => None,
            };
            let git_status: Option<FileStatus> = if columns.git_status {
                found.git_status
            } else {
                None
            };
            Some(
                FileEntry {
                    path: found.path.clone(),
                    depth: found.depth,
                    is_dir: found.is_dir,
                    is_expanded: false,
                    size,
                    permissions,
                    git_status,
                },
            )
        },
    }
}

/// Collects the entries of a walk: every path that could be read, but for
/// the root, in the order in which the walk found them. A walk that could
/// not read its root gives no list, only the error.
pub fn scan_directory(items: &Vec<WalkItem>, root: &String, columns: Columns) -> (result: Result<
    Vec<FileEntry>,
    ScanError,
>)
    ensures
        match result {
            Ok(entries) => {
                &&& !root_failed(items@)
                &&& entries.deep_view() == scanned(items@, root@, columns)
            },
            Err(error) => root_failed(items@) && error == ScanError::RootFailed,
        },
{
    let ghost pick = |item: WalkItem| entry_for(item, root@, columns);
    let mut entries: Vec<FileEntry> = Vec::new();
    let mut i: usize = 0;
    assert(items@.take(0) =~= Seq::<WalkItem>::empty());
    assert(entries.deep_view() =~= items@.take(0).filter_map(pick));
    while i < items.len()
        invariant
            i <= items.len(),
            pick == |item: WalkItem| entry_for(item, root@, columns),
            entries.deep_view() == items@.take(i as int).filter_map(pick),
            forall|j: int| 0 <= j < i ==> !(#[trigger] items@[j]).is_root_failure(),
        decreases items.len() - i,
    {
        if items[i].root_failure() {
            return Err(ScanError::RootFailed);
        }
        let ghost before = entries.deep_view();
        let ghost prefix = items@.take(i as int + 1);
        assert(prefix.drop_last() =~= items@.take(i as int));
        assert(prefix.last() == items@[i as int]);
        match scan_entry(&items[i], root, columns) {
            Some(entry) => {
                let ghost e = entry@;
                entries.push(entry);
                assert(entries.deep_view() =~= before.push(e));
                assert(prefix.filter_map(pick) =~= before + seq![e]);
            },
            None => {
                assert(prefix.filter_map(pick) =~= before);
            },
        }
        i += 1;
    }
    assert(items@.take(items.len() as int) =~= items@);
    Ok(entries)
}

} // verus!
