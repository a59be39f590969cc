use lstr::app::{ColorChoice, ViewArgs};
use lstr::entry::FileStatus;
use lstr::style::{map_color, Color, ScreenColor};

#[test]
fn map_color_keeps_the_plain_colors() {
    assert_eq!(map_color(Color::Black), ScreenColor::Black);
    assert_eq!(map_color(Color::Red), ScreenColor::Red);
    assert_eq!(map_color(Color::Green), ScreenColor::Green);
    assert_eq!(map_color(Color::Yellow), ScreenColor::Yellow);
    assert_eq!(map_color(Color::Blue), ScreenColor::Blue);
    assert_eq!(map_color(Color::Magenta), ScreenColor::Magenta);
    assert_eq!(map_color(Color::Cyan), ScreenColor::Cyan);
    assert_eq!(map_color(Color::White), ScreenColor::White);
}

#[test]
fn map_color_turns_bright_into_light() {
    assert_eq!(map_color(Color::BrightBlack), ScreenColor::Gray);
    assert_eq!(map_color(Color::BrightRed), ScreenColor::LightRed);
    assert_eq!(map_color(Color::BrightGreen), ScreenColor::LightGreen);
    assert_eq!(map_color(Color::BrightYellow), ScreenColor::LightYellow);
    assert_eq!(map_color(Color::BrightBlue), ScreenColor::LightBlue);
    assert_eq!(map_color(Color::BrightMagenta), ScreenColor::LightMagenta);
    assert_eq!(map_color(Color::BrightCyan), ScreenColor::LightCyan);
}

#[test]
fn map_color_has_no_bright_white() {
    assert_eq!(map_color(Color::BrightWhite), ScreenColor::Reset);
}

#[test]
fn map_color_keeps_the_parts_of_a_true_color() {
    assert_eq!(map_color(Color::TrueColor { r: 1, g: 2, b: 3 }), ScreenColor::Rgb(1, 2, 3));
    assert_eq!(map_color(Color::TrueColor { r: 255, g: 0, b: 128 }), ScreenColor::Rgb(255, 0, 128));
}

#[test]
fn status_codes() {
    assert_eq!(FileStatus::New.get_char(), 'A');
    assert_eq!(FileStatus::Modified.get_char(), 'M');
    assert_eq!(FileStatus::Deleted.get_char(), 'D');
    assert_eq!(FileStatus::Renamed.get_char(), 'R');
    assert_eq!(FileStatus::Typechange.get_char(), 'T');
    assert_eq!(FileStatus::Untracked.get_char(), '?');
    assert_eq!(FileStatus::Conflicted.get_char(), 'C');
}

#[test]
fn status_labels_are_the_codes() {
    for status in [
        FileStatus::New,
        FileStatus::Modified,
        FileStatus::Deleted,
        FileStatus::Renamed,
        FileStatus::Typechange,
        FileStatus::Untracked,
        FileStatus::Conflicted,
    ] {
        assert_eq!(status.label(), status.get_char().to_string());
    }
}

#[test]
fn status_colors() {
    assert_eq!(FileStatus::New.color(), Color::Green);
    assert_eq!(FileStatus::Renamed.color(), Color::Green);
    assert_eq!(FileStatus::Modified.color(), Color::Yellow);
    assert_eq!(FileStatus::Typechange.color(), Color::Yellow);
    assert_eq!(FileStatus::Deleted.color(), Color::Red);
    assert_eq!(FileStatus::Conflicted.color(), Color::BrightRed);
    assert_eq!(FileStatus::Untracked.color(), Color::Magenta);
}

#[test]
fn color_choice_names_and_default() {
    assert_eq!(ColorChoice::Always.name(), "always");
    assert_eq!(ColorChoice::Auto.name(), "auto");
    assert_eq!(ColorChoice::Never.name(), "never");
    assert_eq!(ColorChoice::default(), ColorChoice::Auto);
    assert_eq!(ColorChoice::Always.forced(), Some(true));
    assert_eq!(ColorChoice::Never.forced(), Some(false));
    assert_eq!(ColorChoice::Auto.forced(), None);
}

#[test]
fn view_args_default_asks_for_nothing() {
    let args = ViewArgs::default();
    assert_eq!(args.path, "");
    assert_eq!(args.color, ColorChoice::Auto);
    assert_eq!(args.level, None);
    assert!(!args.dirs_only);
    assert!(!args.size);
    assert!(!args.permissions);
    assert!(!args.all);
    assert!(!args.gitignore);
    assert!(!args.git_status);
    assert!(!args.icons);
}
