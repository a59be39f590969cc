use lstr::app::InteractiveArgs;
use lstr::entry::{FileEntry, FileStatus};
use lstr::rows::{measure, padding, repeat_text, row};
use lstr::style::{Color, Icon, ScreenColor, Segment};

fn args() -> InteractiveArgs {
    InteractiveArgs {
        path: ".".to_string(),
        all: false,
        gitignore: false,
        git_status: false,
        icons: false,
        size: false,
        permissions: false,
        expand_level: None,
    }
}

fn file(path: &str, depth: usize) -> FileEntry {
    FileEntry {
        path: path.to_string(),
        depth,
        is_dir: false,
        is_expanded: false,
        size: Some(1536),
        permissions: Some("-rw-r--r--".to_string()),
        git_status: Some(FileStatus::Modified),
    }
}

fn dir(path: &str, depth: usize, is_expanded: bool) -> FileEntry {
    FileEntry {
        path: path.to_string(),
        depth,
        is_dir: true,
        is_expanded,
        size: None,
        permissions: None,
        git_status: None,
    }
}

fn piece(text: &str, color: Option<ScreenColor>, bold: bool) -> (String, Option<ScreenColor>, bool, bool) {
    (text.to_string(), color, bold, false)
}

fn pieces(segments: &Vec<Segment<ScreenColor>>) -> Vec<(String, Option<ScreenColor>, bool, bool)> {
    let mut out = Vec::new();
    for s in segments {
        out.push((s.text.clone(), s.color, s.bold, s.dimmed));
    }
    out
}

#[test]
fn bare_file_row() {
    let segments = row(&file("src/main.rs", 2), "main.rs", &None, &args(), 80);
    assert_eq!(
        pieces(&segments),
        vec![piece("    ", None, false), piece("  ", None, false), piece("main.rs", None, false)]
    );
}

#[test]
fn directory_rows_show_their_state() {
    let collapsed = row(&dir("src", 1, false), "src", &None, &args(), 80);
    assert_eq!(
        pieces(&collapsed),
        vec![
            piece("", None, false),
            piece("▶ ", None, false),
            piece("src", Some(ScreenColor::Blue), true)
        ]
    );
    let expanded = row(&dir("src", 1, true), "src", &None, &args(), 80);
    assert_eq!(pieces(&expanded)[1], piece("▼ ", None, false));
}

#[test]
fn indent_is_four_blanks_a_level() {
    let deep = row(&file("a/b/c/d", 4), "d", &None, &args(), 80);
    assert_eq!(deep[0].text, " ".repeat(12));
    let top = row(&file("a", 1), "a", &None, &args(), 80);
    assert_eq!(top[0].text, "");
    let root = row(&file("a", 0), "a", &None, &args(), 80);
    assert_eq!(root[0].text, "");
}

#[test]
fn status_column() {
    let mut a = args();
    a.git_status = true;
    let changed = row(&file("f", 1), "f", &None, &a, 80);
    assert_eq!(pieces(&changed)[0], piece("M ", Some(ScreenColor::Yellow), false));
    let mut clean = file("f", 1);
    clean.git_status = None;
    let unchanged = row(&clean, "f", &None, &a, 80);
    assert_eq!(pieces(&unchanged)[0], piece("  ", Some(ScreenColor::Reset), false));
    let mut conflicted = file("f", 1);
    conflicted.git_status = Some(FileStatus::Conflicted);
    let in_conflict = row(&conflicted, "f", &None, &a, 80);
    assert_eq!(pieces(&in_conflict)[0], piece("C ", Some(ScreenColor::LightRed), false));
    let mut untracked = file("f", 1);
    untracked.git_status = Some(FileStatus::Untracked);
    assert_eq!(
        pieces(&row(&untracked, "f", &None, &a, 80))[0],
        piece("? ", Some(ScreenColor::Magenta), false)
    );
}

#[test]
fn permission_column_shows_dashes_for_what_is_unknown() {
    let mut a = args();
    a.permissions = true;
    let known = row(&file("f", 1), "f", &None, &a, 80);
    assert_eq!(pieces(&known)[0], piece("-rw-r--r-- ", Some(ScreenColor::DarkGray), false));
    let unknown = row(&dir("d", 1, false), "d", &None, &a, 80);
    assert_eq!(pieces(&unknown)[0], piece("---------- ", Some(ScreenColor::DarkGray), false));
}

#[test]
fn icon_column() {
    let mut a = args();
    a.icons = true;
    let icon = Some(Icon { glyph: "*".to_string(), color: Color::BrightBlue });
    let with_icon = row(&file("f", 1), "f", &icon, &a, 80);
    assert_eq!(
        pieces(&with_icon),
        vec![
            piece("", None, false),
            piece("  ", None, false),
            piece("* ", Some(ScreenColor::LightBlue), false),
            piece("f", None, false)
        ]
    );
    // no icon was found
    assert_eq!(row(&file("f", 1), "f", &None, &a, 80).len(), 3);
    // icons are not shown
    assert_eq!(row(&file("f", 1), "f", &icon, &args(), 80).len(), 3);
}

#[test]
fn size_is_pushed_to_the_right_edge() {
    let mut a = args();
    a.size = true;
    let segments = row(&file("src/main.rs", 2), "main.rs", &None, &a, 40);
    // 4 + 2 + 7 cells on the left, 7 for "1.5 KiB"
    assert_eq!(
        pieces(&segments),
        vec![
            piece("    ", None, false),
            piece("  ", None, false),
            piece("main.rs", None, false),
            piece(&" ".repeat(40 - 13 - 7), None, false),
            piece("1.5 KiB", Some(ScreenColor::DarkGray), false)
        ]
    );
}

#[test]
fn size_padding_counts_cells_not_letters() {
    let mut a = args();
    a.size = true;
    // each of the two letters of the name fills two cells
    let segments = row(&file("日本", 1), "日本", &None, &a, 30);
    assert_eq!(segments.len(), 5);
    assert_eq!(segments[3].text, " ".repeat(30 - (0 + 2 + 4) - 7));
    // the mark of a directory fills two cells with its blank
    let mut d = dir("d", 1, true);
    d.size = Some(500);
    let segments = row(&d, "d", &None, &a, 20);
    assert_eq!(segments[3].text, " ".repeat(20 - (0 + 2 + 1) - 5));
    assert_eq!(segments[4].text, "500 B");
}

#[test]
fn size_padding_is_empty_in_a_narrow_frame() {
    let mut a = args();
    a.size = true;
    for width in [0, 5, 13, 19, 20] {
        let segments = row(&file("src/main.rs", 2), "main.rs", &None, &a, width);
        assert_eq!(segments[3].text, "");
        assert_eq!(segments[4].text, "1.5 KiB");
    }
    let segments = row(&file("src/main.rs", 2), "main.rs", &None, &a, 21);
    assert_eq!(segments[3].text, " ");
}

#[test]
fn no_size_for_an_entry_without_one() {
    let mut a = args();
    a.size = true;
    assert_eq!(row(&dir("d", 1, false), "d", &None, &a, 80).len(), 3);
}

#[test]
fn all_columns_in_order() {
    let a = InteractiveArgs {
        path: ".".to_string(),
        all: true,
        gitignore: true,
        git_status: true,
        icons: true,
        size: true,
        permissions: true,
        expand_level: None,
    };
    let icon = Some(Icon { glyph: "#".to_string(), color: Color::TrueColor { r: 9, g: 8, b: 7 } });
    let segments = row(&file("a/b", 2), "b", &icon, &a, 50);
    let left = 2 + 11 + 4 + 2 + 2 + 1;
    assert_eq!(
        pieces(&segments),
        vec![
            piece("M ", Some(ScreenColor::Yellow), false),
            piece("-rw-r--r-- ", Some(ScreenColor::DarkGray), false),
            piece("    ", None, false),
            piece("  ", None, false),
            piece("# ", Some(ScreenColor::Rgb(9, 8, 7)), false),
            piece("b", None, false),
            piece(&" ".repeat(50 - left - 7), None, false),
            piece("1.5 KiB", Some(ScreenColor::DarkGray), false)
        ]
    );
}

#[test]
fn measure_adds_up_cells() {
    let segments = row(&file("日本", 3), "日本", &None, &args(), 80);
    assert_eq!(measure(&segments), 8 + 2 + 4);
    assert_eq!(measure(&Vec::new()), 0);
}

#[test]
fn repeat_text_repeats() {
    assert_eq!(repeat_text("ab", 3), "ababab");
    assert_eq!(repeat_text("ab", 0), "");
    assert_eq!(repeat_text("", 5), "");
}

#[test]
fn padding_is_what_the_frame_has_left() {
    assert_eq!(padding(40, 13, 7), 20);
    assert_eq!(padding(20, 13, 7), 0);
    assert_eq!(padding(21, 13, 7), 1);
    assert_eq!(padding(10, 13, 7), 0);
    assert_eq!(padding(10, 3, 70), 0);
    assert_eq!(padding(0, 0, 0), 0);
    assert_eq!(padding(usize::MAX, 0, 0), usize::MAX);
    assert_eq!(padding(usize::MAX, usize::MAX, usize::MAX), 0);
    assert_eq!(padding(5, usize::MAX, 0), 0);
}
