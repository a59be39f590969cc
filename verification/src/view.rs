//! The classic view: the whole tree, one line for each path, and a count of
//! what was listed.
//!
//! The walk itself and the printing are the caller's. For each step of the
//! walk it asks `Tally::visit` what to print, prints it, and at the end
//! prints the summary.

use crate::app::ViewArgs;
use crate::scan::{format_permission_column, permission_column, WalkEntry, WalkItem};
use crate::style::{colored, plain, repeated, Color, Icon, Segment, SegmentView};
use crate::utils::{decimal_text, format_size, push_decimal, size_text};
use vstd::prelude::*;
use vstd::string::StringExecFns;

verus! {

/// How many directories and files have been listed so far.
#[derive(Clone, Copy, Debug, PartialEq, Eq, Structural)]
pub struct Tally {
    pub dir_count: u64,
    pub file_count: u64,
}

/// Text in the faint style.
pub open spec fn dimmed(text: Seq<char>) -> SegmentView<Color> {
    SegmentView { text, color: None, bold: false, dimmed: true }
}

/// Whether a step of the walk gets a line: a path that was read, that is not
/// the root, and that is a directory where only directories are listed.
pub open spec fn is_listed(item: WalkItem, args: ViewArgs) -> bool {
    match item {
        WalkItem::Failed { .. } => false,
        WalkItem::Found(found) => found.depth != 0 && (found.is_dir || !args.dirs_only),
    }
}

/// The status column of a line, where a repository was read: the code in its
/// color, or blanks for a path that is as the repository has it.
pub open spec fn status_part(found: WalkEntry, args: ViewArgs, in_repository: bool) -> Seq<
    SegmentView<Color>,
> {
    if args.git_status && in_repository {
        match found.git_status {
            Some(s) => seq![colored(seq![s.code()] + " "@, s.spec_color())],
            None => seq![plain("  "@)],
        }
    } else {
        seq![]
    }
}

/// The permission column of a line, faint: the permissions, or ten dashes
/// where the path could not be read; empty where the column is not shown.
pub open spec fn permission_part(found: WalkEntry, args: ViewArgs) -> SegmentView<Color> {
    dimmed(
        if args.permissions {
            (match found.metadata {
                Some(meta) => permission_column(meta),
                None => "----------"@,
            }) + " "@
        } else {
            Seq::empty()
        },
    )
}

/// Four blanks for each level below the first, then the branch.
pub open spec fn branch_part(depth: usize) -> Seq<SegmentView<Color>> {
    seq![
        plain(
            repeated(
                "    "@,
                if depth > 0 {
                    (depth - 1) as nat
                } else {
                    0
                },
            ),
        ),
        plain("└── "@),
    ]
}

/// The icon in its color and a blank, where icons are shown and one was
/// found.
pub open spec fn icon_part(icon: Option<Icon>, args: ViewArgs) -> Seq<SegmentView<Color>> {
    match icon {
        Some(i) => if args.icons {
            seq![colored(i.glyph@, i.color), plain(" "@)]
        } else {
            seq![]
        },
        None => seq![],
    }
}

/// The name, and after a file its size: a directory's name is bold blue; a
/// file's size stands faint and in brackets, where sizes are shown and the
/// file could be read.
pub open spec fn name_part(found: WalkEntry, name: Seq<char>, args: ViewArgs) -> Seq<
    SegmentView<Color>,
> {
    if found.is_dir {
        seq![SegmentView { text: name, color: Some(Color::Blue), bold: true, dimmed: false }]
    } else {
        seq![
            plain(name),
            dimmed(
                match found.metadata {
                    Some(meta) => if args.size {
                        " ("@ + size_text(meta.len as nat) + ")"@
                    } else {
                        Seq::empty()
                    },
                    None => Seq::empty(),
                },
            ),
        ]
    }
}

/// The line for a path.
pub open spec fn line_segments(
    found: WalkEntry,
    name: Seq<char>,
    icon: Option<Icon>,
    args: ViewArgs,
    in_repository: bool,
) -> Seq<SegmentView<Color>> {
    status_part(found, args, in_repository) + seq![permission_part(found, args)] + branch_part(
        found.depth,
    ) + icon_part(icon, args) + name_part(found, name, args)
}

/// The last line of the listing.
pub open spec fn summary_text(tally: Tally) -> Seq<char> {
    "\n"@ + decimal_text(tally.dir_count as nat) + " directories, "@ + decimal_text(
        tally.file_count as nat,
    ) + " files"@
}

impl Tally {
    /// The tally after a step of the walk: a listed directory or file counts,
    /// nothing else does.
    pub open spec fn after(self, item: WalkItem, args: ViewArgs) -> Tally {
        match item {
            WalkItem::Found(found) => if is_listed(item, args) {
                if found.is_dir {
                    Tally { dir_count: (self.dir_count + 1) as u64, ..self }
                } else {
                    Tally { file_count: (self.file_count + 1) as u64, ..self }
                }
            } else {
                self
            },
            WalkItem::Failed { .. } => self,
        }
    }

    /// Whether the tally can take the step: the count that the step adds to
    /// has room for one more.
    pub open spec fn has_room_for(self, item: WalkItem, args: ViewArgs) -> bool {
        match item {
            WalkItem::Found(found) => if is_listed(item, args) {
                if found.is_dir {
                    self.dir_count < u64::MAX
                } else {
                    self.file_count < u64::MAX
                }
            } else {
                true
            },
            WalkItem::Failed { .. } => true,
        }
    }

    /// A tally of nothing.
    pub fn new() -> (tally: Self)
        ensures
            tally == (Tally { dir_count: 0, file_count: 0 }),
    {
        Tally { dir_count: 0, file_count: 0 }
    }

    /// Takes one step of the walk: says what to print for it, if anything,
    /// and counts it. `name` is the last part of the path, `icon` the icon
    /// found for it, if one was looked up, and `in_repository` whether the
    /// statuses of a repository were read.
    pub fn visit(
        &mut self,
        item: &WalkItem,
        name: &str,
        icon: &Option<Icon>,
        args: &ViewArgs,
        in_repository: bool,
    ) -> (line: Option<Vec<Segment<Color>>>)
        requires
            old(self).has_room_for(*item, *args),
        ensures
            *final(self) == old(self).after(*item, *args),
            match line {
                Some(segments) => {
                    &&& is_listed(*item, *args)
                    &&& item matches WalkItem::Found(found)
                    &&& segments.deep_view() == line_segments(
                        *found,
                        name@,
                        *icon,
                        *args,
                        in_repository,
                    )
                },
                None => !is_listed(*item, *args),
            },
    {
        match item {
            WalkItem::Failed { .. } => None,
            WalkItem::Found(found) => {
                if found.depth == 0 {
                    return None;
                }
                if args.dirs_only && !found.is_dir {
                    return None;
                }
                let line = format_line(found, name, icon, args, in_repository);
                if found.is_dir {
                    self.dir_count = self.dir_count + 1;
                } else {
                    self.file_count = self.file_count + 1;
                }
                Some(line)
            },
        }
    }

    /// Writes the last line of the listing.
    pub fn summary(&self) -> (text: String)
        ensures
            text@ == summary_text(*self),
    {
        let mut text = String::from_str("\n");
        push_decimal(&mut text, self.dir_count as u128);
        text.append(" directories, ");
        push_decimal(&mut text, self.file_count as u128);
        text.append(" files");
        text
    }
}

fn push_segment(
    line: &mut Vec<Segment<Color>>,
    text: String,
    color: Option<Color>,
    bold: bool,
    dimmed: bool,
)
    ensures
        final(line).deep_view() == old(line).deep_view().push(
            SegmentView { text: text@, color, bold, dimmed },
        ),
{
    let ghost before = line.deep_view();
    let ghost piece = SegmentView { text: text@, color, bold, dimmed };
    line.push(Segment { text, color, bold, dimmed });
    assert(line.deep_view() =~= before.push(piece));
}

fn push_status(
    line: &mut Vec<Segment<Color>>,
    found: &WalkEntry,
    args: &ViewArgs,
    in_repository: bool,
)
    ensures
        final(line).deep_view() == old(line).deep_view() + status_part(
            *found,
            *args,
            in_repository,
        ),
{
    if args.git_status && in_repository {
        match found.git_status {
            Some(status) => {
                let mut text = String::from_str(status.label());
                text.append(" ");
                push_segment(line, text, Some(status.color()), false, false);
            },
            None => {
                push_segment(line, String::from_str("  "), None, false, false);
            },
        }
    }
    assert(line.deep_view() =~= old(line).deep_view() + status_part(*found, *args, in_repository));
}

fn push_permissions(line: &mut Vec<Segment<Color>>, found: &WalkEntry, args: &ViewArgs)
    ensures
        final(line).deep_view() == old(line).deep_view() + seq![permission_part(*found, *args)],
{
    let text = if args.permissions {
        let mut text = match &found.metadata {
            Some(meta) => format_permission_column(meta),
            None => String::from_str("----------"),
        };
        text.append(" ");
        text
    } else {
        String::new()
    };
    push_segment(line, text, None, false, true);
    assert(line.deep_view() =~= old(line).deep_view() + seq![permission_part(*found, *args)]);
}

fn push_branch(line: &mut Vec<Segment<Color>>, depth: usize)
    ensures
        final(line).deep_view() == old(line).deep_view() + branch_part(depth),
{
    push_segment(
        line,
        crate::rows::repeat_text("    ", depth.saturating_sub(1)),
        None,
        false,
        false,
    );
    push_segment(line, String::from_str("└── "), None, false, false);
    assert(line.deep_view() =~= old(line).deep_view() + branch_part(depth));
}

fn push_icon(line: &mut Vec<Segment<Color>>, icon: &Option<Icon>, args: &ViewArgs)
    ensures
        final(line).deep_view() == old(line).deep_view() + icon_part(*icon, *args),
{
    if args.icons {
        match icon {
            Some(i) => {
                push_segment(line, i.glyph.clone(), Some(i.color), false, false);
                push_segment(line, String::from_str(" "), None, false, false);
            },
            None => {},
        }
    }
    assert(line.deep_view() =~= old(line).deep_view() + icon_part(*icon, *args));
}

fn push_name(line: &mut Vec<Segment<Color>>, found: &WalkEntry, name: &str, args: &ViewArgs)
    ensures
        final(line).deep_view() == old(line).deep_view() + name_part(*found, name@, *args),
{
    if found.is_dir {
        push_segment(line, String::from_str(name), Some(Color::Blue), true, false);
    } else {
        push_segment(line, String::from_str(name), None, false, false);
        let size: String = match &found.metadata {
            Some(meta) => if args.size {
                let mut text = String::from_str(" (");
                let number = format_size(meta.len);
                text.append(number.as_str());
                text.append(")");
                text
            } else {
                String::new()
            },
            None => String::new(),
        };
        push_segment(line, size, None, false, true);
    }
    assert(line.deep_view() =~= old(line).deep_view() + name_part(*found, name@, *args));
}

/// Lays out the line for a path.
pub fn format_line(
    found: &WalkEntry,
    name: &str,
    icon: &Option<Icon>,
    args: &ViewArgs,
    in_repository: bool,
) -> (line: Vec<Segment<Color>>)
    ensures
        line.deep_view() == line_segments(*found, name@, *icon, *args, in_repository),
{
    let mut line: Vec<Segment<Color>> = Vec::new();
    assert(line.deep_view() =~= Seq::<SegmentView<Color>>::empty());
    push_status(&mut line, found, args, in_repository);
    push_permissions(&mut line, found, args);
    push_branch(&mut line, found.depth);
    push_icon(&mut line, icon, args);
    push_name(&mut line, found, name, args);
    assert(line.deep_view() =~= line_segments(*found, name@, *icon, *args, in_repository));
    line
}

} // verus!
