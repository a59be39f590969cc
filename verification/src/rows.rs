//! The rows of the interactive screen, as styled pieces of text.

use crate::app::InteractiveArgs;
use crate::entry::{EntryView, FileEntry, FileStatus};
use crate::style::{
    colored, map_color, plain, repeated, Icon, ScreenColor, Segment, SegmentView,
};
use crate::utils::{format_size, size_text};
use vstd::prelude::*;
use vstd::string::{StrSliceExecFns, StringExecFns};

verus! {

/// The number of terminal cells that a piece of text takes up, as ratatui's
/// `Span::width` counts them.
pub uninterp spec fn display_width(text: Seq<char>) -> usize;

/// Measures text as the screen will, by ratatui's `Span::width` on a span
/// that holds the text. Taken on trust, not proved: that the width is a
/// matter of the text alone, which is what `display_width` names. Nothing is
/// claimed of how wide any text is.
#[verifier::external_body]
fn span_width(text: &str) -> (width: usize)
    ensures
        width == display_width(text@),
{
    ratatui::text::Span::raw(text).width()
}

/// The cells that a run of segments takes up.
pub open spec fn total_width(segments: Seq<SegmentView<ScreenColor>>) -> nat
    decreases segments.len(),
{
    if segments.len() == 0 {
        0
    } else {
        total_width(segments.drop_last()) + display_width(segments.last().text) as nat
    }
}

/// The column that says how a path differs from the repository: its status
/// code in the code's color, or blanks.
pub open spec fn status_segment(status: Option<FileStatus>) -> SegmentView<ScreenColor> {
    match status {
        Some(s) => colored(seq![s.code()] + " "@, s.spec_color().on_screen()),
        None => colored(" "@ + " "@, ScreenColor::Reset),
    }
}

/// The permission column: the permissions, or ten dashes where none are
/// known, in dark gray.
pub open spec fn permission_segment(permissions: Option<Seq<char>>) -> SegmentView<ScreenColor> {
    colored(
        (match permissions {
            Some(p) => p,
            None => "----------"@,
        }) + " "@,
        ScreenColor::DarkGray,
    )
}

/// Four blanks for each level below the first.
pub open spec fn indent_segment(depth: nat) -> SegmentView<ScreenColor> {
    plain(
        repeated(
            "    "@,
            if depth > 0 {
                (depth - 1) as nat
            } else {
                0
            },
        ),
    )
}

/// The mark in front of a name: a triangle that points down at an expanded
/// directory and right at a collapsed one, blanks in front of a file.
pub open spec fn branch_segment(is_dir: bool, is_expanded: bool) -> SegmentView<ScreenColor> {
    plain(
        if is_dir {
            if is_expanded {
                "▼ "@
            } else {
                "▶ "@
            }
        } else {
            "  "@
        },
    )
}

/// The icon in its color.
pub open spec fn icon_segment(icon: Icon) -> SegmentView<ScreenColor> {
    colored(icon.glyph@ + " "@, icon.color.on_screen())
}

/// The name: bold blue for a directory, plain for a file.
pub open spec fn name_segment(name: Seq<char>, is_dir: bool) -> SegmentView<ScreenColor> {
    if is_dir {
        SegmentView { text: name, color: Some(ScreenColor::Blue), bold: true, dimmed: false }
    } else {
        plain(name)
    }
}

/// The status column, where it is shown.
pub open spec fn status_part(entry: EntryView, args: InteractiveArgs) -> Seq<
    SegmentView<ScreenColor>,
> {
    if args.git_status {
        seq![status_segment(entry.git_status)]
    } else {
        seq![]
    }
}

/// The permission column, where it is shown.
pub open spec fn permission_part(entry: EntryView, args: InteractiveArgs) -> Seq<
    SegmentView<ScreenColor>,
> {
    if args.permissions {
        seq![permission_segment(entry.permissions)]
    } else {
        seq![]
    }
}

/// The icon, where icons are shown and one was found.
pub open spec fn icon_part(icon: Option<Icon>, args: InteractiveArgs) -> Seq<
    SegmentView<ScreenColor>,
> {
    match icon {
        Some(i) => if args.icons {
            seq![icon_segment(i)]
        } else {
            seq![]
        },
        None => seq![],
    }
}

/// A row up to and with the name: the columns that were asked for, the
/// indent, the mark, the icon and the name.
pub open spec fn left_segments(
    entry: EntryView,
    name: Seq<char>,
    icon: Option<Icon>,
    args: InteractiveArgs,
) -> Seq<SegmentView<ScreenColor>> {
    status_part(entry, args) + permission_part(entry, args) + seq![
        indent_segment(entry.depth),
        branch_segment(entry.is_dir, entry.is_expanded),
    ] + icon_part(icon, args) + seq![name_segment(name, entry.is_dir)]
}

/// The cells that are free in a frame `frame_width` cells wide, once a row
/// has taken `left` of them and its size will take `size`: none where the
/// row is already that wide.
pub open spec fn free_cells(frame_width: usize, left: nat, size: nat) -> nat {
    if frame_width > left + size {
        (frame_width - left - size) as nat
    } else {
        0
    }
}

/// The blanks between the name and the size, which push the size to the
/// right edge of the frame.
pub open spec fn padding_segment(
    left: Seq<SegmentView<ScreenColor>>,
    size: Seq<char>,
    frame_width: usize,
) -> SegmentView<ScreenColor> {
    plain(repeated(" "@, free_cells(frame_width, total_width(left), size.len())))
}

/// The size at the right edge, where sizes are shown and the entry has one.
pub open spec fn size_part(
    left: Seq<SegmentView<ScreenColor>>,
    entry: EntryView,
    args: InteractiveArgs,
    frame_width: usize,
) -> Seq<SegmentView<ScreenColor>> {
    match entry.size {
        Some(size) => if args.size {
            seq![
                padding_segment(left, size_text(size as nat), frame_width),
                colored(size_text(size as nat), ScreenColor::DarkGray),
            ]
        } else {
            seq![]
        },
        None => seq![],
    }
}

/// A whole row: the part up to the name, then the size in dark gray at the
/// right edge, where there is one to show.
pub open spec fn row_segments(
    entry: EntryView,
    name: Seq<char>,
    icon: Option<Icon>,
    args: InteractiveArgs,
    frame_width: usize,
) -> Seq<SegmentView<ScreenColor>> {
    let left = left_segments(entry, name, icon, args);
    left + size_part(left, entry, args, frame_width)
}

/// Writes `unit` `n` times over.
pub fn repeat_text(unit: &str, n: usize) -> (text: String)
    ensures
        text@ == repeated(unit@, n as nat),
{
    let mut text = String::new();
    let mut i: usize = 0;
    while i < n
        invariant
            i <= n,
            text@ == repeated(unit@, i as nat),
        decreases n - i,
    {
        text.append(unit);
        i += 1;
    }
    text
}

/// A count that may be too large to hold: the largest number that can be
/// held stands for all that are larger.
pub open spec fn capped(n: nat) -> usize {
    if n > usize::MAX {
        usize::MAX
    } else {
        n as usize
    }
}

/// Adds up the cells that the segments take, stopping at the largest number
/// that can be held.
pub fn measure(segments: &Vec<Segment<ScreenColor>>) -> (width: usize)
    ensures
        width == capped(total_width(segments.deep_view())),
{
    let ghost all = segments.deep_view();
    let mut width: usize = 0;
    let mut i: usize = 0;
    assert(all.take(0) =~= Seq::<SegmentView<ScreenColor>>::empty());
    while i < segments.len()
        invariant
            all == segments.deep_view(),
            i <= segments.len(),
            width == capped(total_width(all.take(i as int))),
        decreases segments.len() - i,
    {
        assert(all.take(i as int + 1).drop_last() =~= all.take(i as int));
        assert(all.take(i as int + 1).last().text == segments[i as int].text@);
        width = width.saturating_add(span_width(segments[i].text.as_str()));
        i += 1;
    }
    assert(all.take(segments.len() as int) =~= all);
    width
}

/// Counts the cells that are free between a row and its size.
pub fn padding(frame_width: usize, left_width: usize, size_len: usize) -> (cells: usize)
    ensures
        cells == free_cells(frame_width, left_width as nat, size_len as nat),
{
    frame_width.saturating_sub(left_width).saturating_sub(size_len)
}

fn push_plain(row: &mut Vec<Segment<ScreenColor>>, text: String)
    ensures
        final(row).deep_view() == old(row).deep_view().push(plain(text@)),
{
    let ghost before = row.deep_view();
    let ghost piece = plain::<ScreenColor>(text@);
    row.push(Segment { text, color: None, bold: false, dimmed: false });
    assert(row.deep_view() =~= before.push(piece));
}

fn push_colored(row: &mut Vec<Segment<ScreenColor>>, text: String, color: ScreenColor)
    ensures
        final(row).deep_view() == old(row).deep_view().push(colored(text@, color)),
{
    let ghost before = row.deep_view();
    let ghost piece = colored(text@, color);
    row.push(Segment { text, color: Some(color), bold: false, dimmed: false });
    assert(row.deep_view() =~= before.push(piece));
}

fn push_status(row: &mut Vec<Segment<ScreenColor>>, entry: &FileEntry, args: &InteractiveArgs)
    ensures
        final(row).deep_view() == old(row).deep_view() + status_part(entry@, *args),
{
    if args.git_status {
        match entry.git_status {
            Some(status) => {
                let mut text = String::from_str(status.label());
                text.append(" ");
                push_colored(row, text, map_color(status.color()));
            },
            None => {
                let mut text = String::from_str(" ");
                text.append(" ");
                push_colored(row, text, ScreenColor::Reset);
            },
        }
    }
    assert(row.deep_view() =~= old(row).deep_view() + status_part(entry@, *args));
}

fn push_permissions(
    row: &mut Vec<Segment<ScreenColor>>,
    entry: &FileEntry,
    args: &InteractiveArgs,
)
    ensures
        final(row).deep_view() == old(row).deep_view() + permission_part(entry@, *args),
{
    if args.permissions {
        let mut text = match &entry.permissions {
            Some(p) => p.clone(),
            None => String::from_str("----------"),
        };
        text.append(" ");
        push_colored(row, text, ScreenColor::DarkGray);
    }
    assert(row.deep_view() =~= old(row).deep_view() + permission_part(entry@, *args));
}

fn push_indent_and_mark(row: &mut Vec<Segment<ScreenColor>>, entry: &FileEntry)
    ensures
        final(row).deep_view() == old(row).deep_view() + seq![
            indent_segment(entry@.depth),
            branch_segment(entry@.is_dir, entry@.is_expanded),
        ],
{
    push_plain(row, repeat_text("    ", entry.depth.saturating_sub(1)));
    let mark: &str = if entry.is_dir {
        if entry.is_expanded {
            "▼ "
        } else {
            "▶ "
        }
    } else {
        "  "
    };
    push_plain(row, String::from_str(mark));
    assert(row.deep_view() =~= old(row).deep_view() + seq![
        indent_segment(entry@.depth),
        branch_segment(entry@.is_dir, entry@.is_expanded),
    ]);
}

fn push_icon(row: &mut Vec<Segment<ScreenColor>>, icon: &Option<Icon>, args: &InteractiveArgs)
    ensures
        final(row).deep_view() == old(row).deep_view() + icon_part(*icon, *args),
{
    if args.icons {
        match icon {
            Some(i) => {
                let mut text = i.glyph.clone();
                text.append(" ");
                push_colored(row, text, map_color(i.color));
            },
            None => {},
        }
    }
    assert(row.deep_view() =~= old(row).deep_view() + icon_part(*icon, *args));
}

fn push_name(row: &mut Vec<Segment<ScreenColor>>, name: &str, is_dir: bool)
    ensures
        final(row).deep_view() == old(row).deep_view() + seq![name_segment(name@, is_dir)],
{
    if is_dir {
        row.push(
            Segment {
                text: String::from_str(name),
                color: Some(ScreenColor::Blue),
                bold: true,
                dimmed: false,
            },
        );
    } else {
        push_plain(row, String::from_str(name));
    }
    assert(row.deep_view() =~= old(row).deep_view() + seq![name_segment(name@, is_dir)]);
}

fn push_size(
    row: &mut Vec<Segment<ScreenColor>>,
    entry: &FileEntry,
    args: &InteractiveArgs,
    frame_width: usize,
)
    ensures
        final(row).deep_view() == old(row).deep_view() + size_part(
            old(row).deep_view(),
            entry@,
            *args,
            frame_width,
        ),
{
    if args.size {
        match entry.size {
            Some(size) => {
                let size_str = format_size(size);
                let left_len = measure(row);
                // A width too large to hold leaves no cell free, and so does
                // the largest width that stands for it.
                assert(free_cells(frame_width, left_len as nat, size_str@.len()) == free_cells(
                    frame_width,
                    total_width(row.deep_view()),
                    size_str@.len(),
                ));
                let blanks = padding(frame_width, left_len, size_str.as_str().unicode_len());
                push_plain(row, repeat_text(" ", blanks));
                push_colored(row, size_str, ScreenColor::DarkGray);
            },
            None => {},
        }
    }
    assert(row.deep_view() =~= old(row).deep_view() + size_part(
        old(row).deep_view(),
        entry@,
        *args,
        frame_width,
    ));
}

/// Lays out the row of one entry. `name` is what the row calls the entry,
/// `icon` the icon found for it, if one was looked up, and `frame_width` the
/// width of the frame that the row is drawn in.
pub fn row(
    entry: &FileEntry,
    name: &str,
    icon: &Option<Icon>,
    args: &InteractiveArgs,
    frame_width: usize,
) -> (segments: Vec<Segment<ScreenColor>>)
    ensures
        segments.deep_view() == row_segments(entry@, name@, *icon, *args, frame_width),
{
    let mut segments: Vec<Segment<ScreenColor>> = Vec::new();
    assert(segments.deep_view() =~= Seq::<SegmentView<ScreenColor>>::empty());
    push_status(&mut segments, entry, args);
    push_permissions(&mut segments, entry, args);
    push_indent_and_mark(&mut segments, entry);
    push_icon(&mut segments, icon, args);
    push_name(&mut segments, name, entry.is_dir);
    assert(segments.deep_view() =~= left_segments(entry@, name@, *icon, *args));
    push_size(&mut segments, entry, args, frame_width);
    segments
}

} // verus!
