//! The state of one interactive session: the scan, the rows on screen and
//! the cursor.

use crate::app::InteractiveArgs;
use crate::entry::{EntryView, FileEntry};
use crate::events::{Command, Key, PostExitAction, Transition};
use crate::scan::{root_failed, scan_directory, scanned, ScanError, WalkItem};
use crate::lemmas::{
    lemma_distinct_path_found, lemma_same_shape_chain, lemma_same_shape_preorder,
    lemma_toggle_twice, lemma_toggled_path_stays_visible, lemma_toggled_row_keeps_its_place,
    lemma_toggled_same_shape, lemma_visible_is_subsequence, lemma_visible_nonempty,
};
use crate::tree::{
    expand_to_level, expanded_to, find_path, has_distinct_paths, in_preorder, is_first_with_path,
    is_preorder,
    position_of, reanchored, same_shape, toggle_path, toggled, visible_entries, visible_indices,
    visible_of,
};
use vstd::prelude::*;

verus! {

/// What an `AppState` stands for in contracts: the scan with its expand
/// flags, and the row the cursor is on. The rows on screen follow from the
/// scan.
pub struct AppView {
    pub master: Seq<EntryView>,
    pub selection: Option<int>,
}

impl AppView {
    /// The rows on screen.
    pub open spec fn visible(self) -> Seq<EntryView> {
        visible_of(self.master)
    }

    /// The scan is in pre-order, and the cursor is on a row, or on none when
    /// there is no row.
    pub open spec fn wf(self) -> bool {
        &&& is_preorder(self.master)
        &&& match self.selection {
            Some(i) => 0 <= i < self.visible().len(),
            None => self.visible().len() == 0,
        }
    }

    /// The state in which a session starts on a scan. With a level given,
    /// every directory above it starts expanded. The cursor starts on the
    /// first row.
    pub open spec fn start(scan: Seq<EntryView>, expand_level: Option<usize>) -> AppView {
        let master = match expand_level {
            Some(level) => expanded_to(scan, level as nat),
            None => scan,
        };
        AppView {
            master,
            selection: if visible_of(master).len() > 0 {
                Some(0)
            } else {
                None
            },
        }
    }

    /// The state after the cursor has gone one row down, from the last row
    /// to the first.
    pub open spec fn after_next(self) -> AppView {
        match self.selection {
            Some(i) => AppView {
                selection: Some(
                    if i + 1 >= self.visible().len() {
                        0
                    } else {
                        i + 1
                    },
                ),
                ..self
            },
            None => self,
        }
    }

    /// The state after the cursor has gone one row up, from the first row to
    /// the last.
    pub open spec fn after_previous(self) -> AppView {
        match self.selection {
            Some(i) => AppView {
                selection: Some(
                    if i == 0 {
                        self.visible().len() - 1
                    } else {
                        i - 1
                    },
                ),
                ..self
            },
            None => self,
        }
    }

    /// The state after a toggle of `path`: the flag is flipped, and the
    /// cursor follows the row it was on.
    pub open spec fn after_toggle(self, path: Seq<char>) -> AppView {
        let master = toggled(self.master, path);
        match self.selection {
            Some(i) => AppView {
                master,
                selection: Some(reanchored(visible_of(master), self.visible()[i].path, i)),
            },
            None => AppView { master, selection: None },
        }
    }
}

/// One thing a user can do to a session.
pub enum Move {
    Next,
    Previous,
    Select(int),
    Toggle(Seq<char>),
    ToggleSelected,
}

impl AppView {
    /// The state after the cursor was sent to row `index`: it goes there if
    /// there is such a row, and stays where it is otherwise.
    pub open spec fn after_select(self, index: int) -> AppView {
        if 0 <= index < self.visible().len() {
            AppView { selection: Some(index), ..self }
        } else {
            self
        }
    }

    /// The state after a toggle of the entry under the cursor.
    pub open spec fn after_toggle_selected(self) -> AppView {
        match self.selection {
            Some(i) => self.after_toggle(self.visible()[i].path),
            None => self,
        }
    }

    /// The state after one move.
    pub open spec fn after(self, mv: Move) -> AppView {
        match mv {
            Move::Next => self.after_next(),
            Move::Previous => self.after_previous(),
            Move::Select(index) => self.after_select(index),
            Move::Toggle(path) => self.after_toggle(path),
            Move::ToggleSelected => self.after_toggle_selected(),
        }
    }

    /// The state after a run of moves, the first of them made first.
    pub open spec fn after_all(self, moves: Seq<Move>) -> AppView
        decreases moves.len(),
    {
        if moves.len() == 0 {
            self
        } else {
            self.after_all(moves.drop_last()).after(moves.last())
        }
    }
}

/// A toggle leaves the cursor on a row: on the one it was on if that is
/// still on screen, else on the row now in its place, or on the last.
pub proof fn lemma_toggle_keeps_cursor(s: AppView, path: Seq<char>)
    requires
        s.wf(),
    ensures
        s.after_toggle(path).wf(),
{
    let t = s.after_toggle(path);
    lemma_toggled_same_shape(s.master, path);
    lemma_same_shape_preorder(s.master, t.master);
    lemma_visible_nonempty(s.master);
    lemma_visible_nonempty(t.master);
    match s.selection {
        Some(i) => {
            let kept = s.visible()[i].path;
            match position_of(t.visible(), kept) {
                Some(at) => {
                    assert(is_first_with_path(t.visible(), kept, at));
                },
                None => {},
            }
        },
        None => {},
    }
}

/// Whatever is done to a session, and in whatever order, the cursor stays
/// on a row of the visible list, and is on none only while there is no row.
pub proof fn lemma_cursor_stays_on_a_row(s: AppView, moves: Seq<Move>)
    requires
        s.wf(),
    ensures
        s.after_all(moves).wf(),
    decreases moves.len(),
{
    if moves.len() > 0 {
        lemma_cursor_stays_on_a_row(s, moves.drop_last());
        let before = s.after_all(moves.drop_last());
        match moves.last() {
            Move::Toggle(path) => {
                lemma_toggle_keeps_cursor(before, path);
            },
            Move::ToggleSelected => {
                if let Some(i) = before.selection {
                    lemma_toggle_keeps_cursor(before, before.visible()[i].path);
                }
            },
            _ => {},
        }
    }
}

/// Whatever is done to a session, the scan keeps its entries and their
/// order: nothing but expand flags ever changes.
pub proof fn lemma_moves_change_flags_only(s: AppView, moves: Seq<Move>)
    ensures
        same_shape(s.master, s.after_all(moves).master),
    decreases moves.len(),
{
    if moves.len() > 0 {
        lemma_moves_change_flags_only(s, moves.drop_last());
        let before = s.after_all(moves.drop_last());
        let after = before.after(moves.last());
        match moves.last() {
            Move::Toggle(path) => {
                lemma_toggled_same_shape(before.master, path);
            },
            Move::ToggleSelected => {
                if let Some(i) = before.selection {
                    lemma_toggled_same_shape(before.master, before.visible()[i].path);
                }
            },
            _ => {},
        }
        assert(same_shape(before.master, after.master));
        lemma_same_shape_chain(s.master, before.master, after.master);
    }
}

/// A toggle of the entry under the cursor leaves the cursor on a row with
/// that entry's path: a directory that is toggled keeps its row.
pub proof fn lemma_toggle_selected_keeps_row(s: AppView)
    requires
        s.wf(),
        s.selection is Some,
    ensures
        s.after_toggle_selected().selection is Some,
        s.after_toggle_selected().visible()[s.after_toggle_selected().selection->0].path
            == s.visible()[s.selection->0].path,
{
    let i = s.selection->0;
    let m = s.master;
    let path = s.visible()[i].path;
    let t = s.after_toggle_selected();
    lemma_visible_is_subsequence(m);
    let r = visible_indices(m)[i];
    assert(m[r].path == path);
    lemma_toggled_path_stays_visible(m, r);
    let at = position_of(t.visible(), path)->0;
    assert(is_first_with_path(t.visible(), path, at));
}

/// Where every entry has a path of its own, a toggle of the entry under the
/// cursor leaves the cursor on the row it is on: rows come and go below it
/// only.
pub proof fn lemma_toggle_selected_keeps_index(s: AppView)
    requires
        s.wf(),
        has_distinct_paths(s.master),
        s.selection is Some,
    ensures
        s.after_toggle_selected().selection == s.selection,
        s.after_toggle_selected().visible()[s.selection->0].path == s.visible()[s.selection->0].path,
        has_distinct_paths(s.after_toggle_selected().master),
{
    let i = s.selection->0;
    let path = s.visible()[i].path;
    let t = s.after_toggle_selected();
    lemma_toggled_row_keeps_its_place(s.master, i);
    assert(is_first_with_path(t.visible(), path, i));
    lemma_toggled_same_shape(s.master, path);
    assert forall|a: int, b: int| 0 <= a < b < t.master.len() implies (#[trigger] t.master[a]).path
        != (#[trigger] t.master[b]).path by {
        assert(s.master[a].with_expanded(t.master[a].is_expanded) == t.master[a]);
        assert(s.master[b].with_expanded(t.master[b].is_expanded) == t.master[b]);
    }
}

/// Where every entry has a path of its own, a toggle of a file under the
/// cursor changes nothing.
pub proof fn lemma_toggle_selected_file_changes_nothing(s: AppView)
    requires
        s.wf(),
        has_distinct_paths(s.master),
        s.selection is Some,
        !s.visible()[s.selection->0].is_dir,
    ensures
        s.after_toggle_selected() == s,
{
    let i = s.selection->0;
    lemma_visible_is_subsequence(s.master);
    let r = visible_indices(s.master)[i];
    lemma_distinct_path_found(s.master, r);
    lemma_toggle_selected_keeps_index(s);
}

/// Where every entry has a path of its own, two toggles of the entry under
/// the cursor, one after the other, restore the session: the flags, the rows
/// and the cursor.
pub proof fn lemma_toggle_selected_twice(s: AppView)
    requires
        s.wf(),
        has_distinct_paths(s.master),
    ensures
        s.after_toggle_selected().after_toggle_selected() == s,
{
    if let Some(i) = s.selection {
        let path = s.visible()[i].path;
        let once = s.after_toggle_selected();
        lemma_toggle_selected_keeps_index(s);
        lemma_toggle_keeps_cursor(s, path);
        lemma_toggle_selected_keeps_index(once);
        lemma_toggle_twice(s.master, path);
    }
}

/// One interactive session: the scan, the rows of it that are on screen, and
/// the cursor. The rows always are those that the expand flags of the scan
/// call for, and the cursor always is on one of them, unless there is none.
pub struct AppState {
    master_entries: Vec<FileEntry>,
    visible_entries: Vec<FileEntry>,
    selection: Option<usize>,
}

impl View for AppState {
    type V = AppView;

    closed spec fn view(&self) -> AppView {
        AppView {
            master: self.master_entries.deep_view(),
            selection: match self.selection {
                Some(i) => Some(i as int),
                None => None,
            },
        }
    }
}

impl AppState {
    #[verifier::type_invariant]
    spec fn inv(&self) -> bool {
        &&& self@.wf()
        &&& self.visible_entries.deep_view() == self@.visible()
    }

    /// A session on a scan that holds nothing: no entry, no row, and the
    /// cursor on none.
    fn empty() -> (state: Self)
        ensures
            state@ == (AppView { master: Seq::empty(), selection: None }),
            state@.visible() == Seq::<EntryView>::empty(),
            state@.wf(),
    {
        let master_entries: Vec<FileEntry> = Vec::new();
        let visible_entries: Vec<FileEntry> = Vec::new();
        proof {
            assert(master_entries.deep_view() =~= Seq::<EntryView>::empty());
            lemma_visible_nonempty(master_entries.deep_view());
            assert(visible_entries.deep_view() =~= visible_of(master_entries.deep_view()));
        }
        AppState { master_entries, visible_entries, selection: None }
    }

    /// Starts a session on a scan, which has to be in pre-order. With a level
    /// given, every directory above it starts expanded. The cursor starts on
    /// the first row.
    pub fn new(master_entries: Vec<FileEntry>, expand_level: Option<usize>) -> (state: Self)
        requires
            is_preorder(master_entries.deep_view()),
        ensures
            state@ == AppView::start(master_entries.deep_view(), expand_level),
            state@.wf(),
    {
        let mut master = master_entries;
        let ghost scanned = master.deep_view();
        if let Some(level) = expand_level {
            expand_to_level(&mut master, level);
            proof {
                assert(same_shape(scanned, master.deep_view()));
                lemma_same_shape_preorder(scanned, master.deep_view());
            }
        }
        let visible = visible_entries(&master);
        let selection: Option<usize> = if visible.len() > 0 {
            Some(0)
        } else {
            None
        };
        AppState { master_entries: master, visible_entries: visible, selection }
    }

    /// Starts a session on what a walk of the file system reported. The
    /// entries are collected as `scan_directory` does it, with the columns
    /// that `args` asks for. There is no session on a walk that could not
    /// read its root, whatever else it found; nor on one whose entries are
    /// not in pre-order, which no walk of a tree leaves behind.
    pub fn from_scan(items: &Vec<WalkItem>, root: &String, args: &InteractiveArgs) -> (state:
        Result<Self, ScanError>)
        ensures
            match state {
                Ok(s) => {
                    &&& !root_failed(items@)
                    &&& is_preorder(scanned(items@, root@, args.columns()))
                    &&& s@ == AppView::start(
                        scanned(items@, root@, args.columns()),
                        args.expand_level,
                    )
                    &&& s@.wf()
                },
                Err(ScanError::RootFailed) => root_failed(items@),
                Err(ScanError::NotATree) => {
                    &&& !root_failed(items@)
                    &&& !is_preorder(scanned(items@, root@, args.columns()))
                },
            },
    {
        match scan_directory(items, root, args.to_columns()) {
            Ok(entries) => {
                if in_preorder(&entries) {
                    Ok(AppState::new(entries, args.expand_level))
                } else {
                    Err(ScanError::NotATree)
                }
            },
            Err(error) => Err(error),
        }
    }

    /// The whole scan.
    pub fn master_entries(&self) -> (entries: &Vec<FileEntry>)
        ensures
            entries.deep_view() == self@.master,
    {
        &self.master_entries
    }

    /// The rows on screen.
    pub fn visible_entries(&self) -> (entries: &Vec<FileEntry>)
        ensures
            entries.deep_view() == self@.visible(),
    {
        proof {
            use_type_invariant(self);
        }
        &self.visible_entries
    }

    /// The row the cursor is on.
    pub fn selected(&self) -> (index: Option<usize>)
        ensures
            self@.wf(),
            match index {
                Some(i) => self@.selection == Some(i as int),
                None => self@.selection is None,
            },
    {
        proof {
            use_type_invariant(self);
        }
        self.selection
    }

    /// Moves the cursor one row down, and from the last row to the first.
    pub fn next(&mut self)
        ensures
            final(self)@ == old(self)@.after_next(),
            final(self)@.wf(),
    {
        proof {
            use_type_invariant(&*self);
        }
        if let Some(i) = self.selection {
            let next: usize = if i >= self.visible_entries.len() - 1 {
                0
            } else {
                i + 1
            };
            self.selection = Some(next);
        }
    }

    /// Moves the cursor one row up, and from the first row to the last.
    pub fn previous(&mut self)
        ensures
            final(self)@ == old(self)@.after_previous(),
            final(self)@.wf(),
    {
        proof {
            use_type_invariant(&*self);
        }
        if let Some(i) = self.selection {
            let previous: usize = if i == 0 {
                self.visible_entries.len() - 1
            } else {
                i - 1
            };
            self.selection = Some(previous);
        }
    }

    /// Puts the cursor on the given row, if there is such a row.
    pub fn select(&mut self, index: usize) -> (moved: bool)
        ensures
            moved == (index < old(self)@.visible().len()),
            final(self)@ == old(self)@.after_select(index as int),
            final(self)@.wf(),
    {
        proof {
            use_type_invariant(&*self);
        }
        if index < self.visible_entries.len() {
            self.selection = Some(index);
            true
        } else {
            false
        }
    }

    /// The entry under the cursor.
    pub fn get_selected_entry(&self) -> (entry: Option<&FileEntry>)
        ensures
            self@.wf(),
            match entry {
                Some(e) => self@.selection is Some && e@ == self@.visible()[self@.selection->0],
                None => self@.selection is None,
            },
    {
        proof {
            use_type_invariant(self);
        }
        match self.selection {
            Some(i) => {
                assert(self.visible_entries.deep_view()[i as int] == self.visible_entries[i as int]@);
                Some(&self.visible_entries[i])
            },
            None => None,
        }
    }

    /// Flips the expand flag of the directory with the given path, rebuilds
    /// the rows on screen and puts the cursor back on the row it was on. Where
    /// that row has gone, the cursor keeps its place in the list, or goes to
    /// the last row if the list has become shorter than that.
    pub fn toggle(&mut self, path: &String)
        ensures
            final(self)@ == old(self)@.after_toggle(path@),
            final(self)@.wf(),
    {
        proof {
            use_type_invariant(&*self);
        }
        let mut taken = AppState::empty();
        std::mem::swap(self, &mut taken);
        let AppState { master_entries: mut master, visible_entries: shown, selection } = taken;
        let ghost before = master.deep_view();
        toggle_path(&mut master, path);
        proof {
            lemma_toggled_same_shape(before, path@);
            lemma_same_shape_preorder(before, master.deep_view());
            lemma_visible_nonempty(before);
            lemma_visible_nonempty(master.deep_view());
        }
        let visible = visible_entries(&master);
        let selection: Option<usize> = match selection {
            Some(i) => {
                assert(shown.deep_view()[i as int] == shown[i as int]@);
                match find_path(&visible, &shown[i].path) {
                    Some(at) => Some(at),
                    None => Some(if i < visible.len() - 1 {
                        i
                    } else {
                        visible.len() - 1
                    }),
                }
            },
            None => None,
        };
        *self = AppState { master_entries: master, visible_entries: visible, selection };
    }

    /// Toggles the directory under the cursor.
    pub fn toggle_selected_directory(&mut self)
        ensures
            final(self)@ == old(self)@.after_toggle_selected(),
            final(self)@.wf(),
    {
        proof {
            use_type_invariant(&*self);
        }
        if let Some(i) = self.selection {
            assert(self.visible_entries.deep_view()[i as int] == self.visible_entries[i as int]@);
            let path = self.visible_entries[i].path.clone();
            self.toggle(&path);
        }
    }

    /// Takes one key: moves the cursor, toggles the directory under it, or
    /// ends the session.
    pub fn handle_key(&mut self, key: Key) -> (transition: Transition)
        ensures
            final(self)@ == old(self)@.after_command(key.command()),
            transition@ == old(self)@.transition_on(key.command()),
            final(self)@.wf(),
    {
        proof {
            use_type_invariant(&*self);
        }
        match key.to_command() {
            Command::Quit => Transition::Exited(PostExitAction::Nothing),
            Command::MoveDown => {
                self.next();
                Transition::Browsing
            },
            Command::MoveUp => {
                self.previous();
                Transition::Browsing
            },
            Command::Activate => {
                let target: Option<(bool, String)> = match self.get_selected_entry() {
                    Some(entry) => Some((entry.is_dir, entry.path.clone())),
                    None => None,
                };
                match target {
                    Some((is_dir, path)) => {
                        if is_dir {
                            self.toggle(&path);
                            Transition::Browsing
                        } else {
                            Transition::Exited(PostExitAction::OpenFile(path))
                        }
                    },
                    None => Transition::Browsing,
                }
            },
            Command::Ignore => Transition::Browsing,
        }
    }
}

} // verus!
