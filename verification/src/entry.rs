//! One node of a scanned directory tree.

use vstd::prelude::*;

verus! {

/// How a path differs from what the repository has recorded for it.
#[derive(Clone, Copy, Debug, PartialEq, Eq, Structural)]
pub enum FileStatus {
    New,
    Modified,
    Deleted,
    Renamed,
    Typechange,
    Untracked,
    Conflicted,
}

impl FileStatus {
    /// The one-letter code shown in front of a row.
    pub open spec fn code(self) -> char {
        match self {
            FileStatus::New => 'A',
            FileStatus::Modified => 'M',
            FileStatus::Deleted => 'D',
            FileStatus::Renamed => 'R',
            FileStatus::Typechange => 'T',
            FileStatus::Untracked => '?',
            FileStatus::Conflicted => 'C',
        }
    }

    /// Gives the one-letter code shown in front of a row.
    pub fn get_char(&self) -> (c: char)
        ensures
            c == self.code(),
    {
        match self {
            FileStatus::New => 'A',
            FileStatus::Modified => 'M',
            FileStatus::Deleted => 'D',
            FileStatus::Renamed => 'R',
            FileStatus::Typechange => 'T',
            FileStatus::Untracked => '?',
            FileStatus::Conflicted => 'C',
        }
    }
}

/// One file or directory below the scan root.
///
/// `depth` counts the steps from the root: its direct children have depth 1.
/// `is_expanded` matters only for a directory. The three optional fields are
/// filled once, while scanning, and only when the matching column was asked
/// for.
#[derive(Debug)]
pub struct FileEntry {
    pub path: String,
    pub depth: usize,
    pub is_dir: bool,
    pub is_expanded: bool,
    pub size: Option<u64>,
    pub permissions: Option<String>,
    pub git_status: Option<FileStatus>,
}

/// What a `FileEntry` stands for in contracts.
pub struct EntryView {
    pub path: Seq<char>,
    pub depth: nat,
    pub is_dir: bool,
    pub is_expanded: bool,
    pub size: Option<u64>,
    pub permissions: Option<Seq<char>>,
    pub git_status: Option<FileStatus>,
}

impl EntryView {
    /// The same entry with its expand flag set to `flag`.
    pub open spec fn with_expanded(self, flag: bool) -> EntryView {
        EntryView { is_expanded: flag, ..self }
    }
}

impl View for FileEntry {
    type V = EntryView;

    open spec fn view(&self) -> EntryView {
        EntryView {
            path: self.path@,
            depth: self.depth as nat,
            is_dir: self.is_dir,
            is_expanded: self.is_expanded,
            size: self.size,
            permissions: match self.permissions {
                Some(p) => Some(p@),
                None => None,
            },
            git_status: self.git_status,
        }
    }
}

impl DeepView for FileEntry {
    type V = EntryView;

    open spec fn deep_view(&self) -> EntryView {
        self@
    }
}

impl Clone for FileEntry {
    fn clone(&self) -> (copy: Self)
        ensures
            copy == *self,
    {
        FileEntry {
            path: self.path.clone(),
            depth: self.depth,
            is_dir: self.is_dir,
            is_expanded: self.is_expanded,
            size: self.size,
            permissions: match &self.permissions {
                Some(p) => Some(p.clone()),
                None => None,
            },
            git_status: self.git_status,
        }
    }
}

} // verus!
