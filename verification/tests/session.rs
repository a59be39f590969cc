use lstr::entry::FileEntry;
use lstr::events::{Key, PostExitAction};
use lstr::session::{Action, Ending, Event, Phase, Session};
use lstr::tui::AppState;

fn entry(path: &str, depth: usize, is_dir: bool) -> FileEntry {
    FileEntry {
        path: path.to_string(),
        depth,
        is_dir,
        is_expanded: false,
        size: None,
        permissions: None,
        git_status: None,
    }
}

fn session() -> Session {
    Session::new(AppState::new(
        vec![entry("src", 1, true), entry("src/main.rs", 2, false), entry("README.md", 1, false)],
        None,
    ))
}

// Feeds the reports to a fresh session and writes down one letter for each
// answer: E enter, D draw, R read, L leave, F finish.
fn course(reports: &[Event]) -> (String, Session) {
    let mut s = session();
    let mut letters = String::new();
    for report in reports {
        letters.push(match s.step(*report) {
            Action::EnterTerminal => 'E',
            Action::Draw => 'D',
            Action::ReadKey => 'R',
            Action::LeaveTerminal => 'L',
            Action::Finish(_) => 'F',
        });
    }
    (letters, s)
}

#[test]
fn session_starts_by_entering_the_terminal() {
    let mut s = session();
    assert_eq!(s.phase(), Phase::Created);
    assert!(matches!(s.step(Event::Done), Action::EnterTerminal));
    assert_eq!(s.phase(), Phase::Entering);
    // whatever the first report says
    for first in [Event::Failed, Event::Other, Event::Key(Key::Char('q'))] {
        let mut s = session();
        assert!(matches!(s.step(first), Action::EnterTerminal));
    }
}

#[test]
fn session_draws_and_reads_in_turns() {
    let (letters, s) = course(&[
        Event::Done,
        Event::Done,
        Event::Done,
        Event::Key(Key::Down),
        Event::Done,
        Event::Other,
        Event::Done,
    ]);
    assert_eq!(letters, "EDRDRDR");
    assert_eq!(s.phase(), Phase::Reading);
    assert_eq!(s.state().selected(), Some(1));
}

#[test]
fn session_ends_on_quit_after_leaving_the_terminal() {
    let mut s = session();
    s.step(Event::Done);
    s.step(Event::Done);
    s.step(Event::Done);
    assert!(matches!(s.step(Event::Key(Key::Char('q'))), Action::LeaveTerminal));
    assert_eq!(s.phase(), Phase::Leaving);
    assert!(matches!(
        s.step(Event::Done),
        Action::Finish(Ending::Completed(PostExitAction::Nothing))
    ));
    assert_eq!(s.phase(), Phase::Finished);
    // and stays finished
    assert!(matches!(
        s.step(Event::Key(Key::Down)),
        Action::Finish(Ending::Completed(PostExitAction::Nothing))
    ));
    assert_eq!(s.phase(), Phase::Finished);
}

#[test]
fn session_ends_with_the_file_to_open() {
    let mut s = session();
    for report in [
        Event::Done,
        Event::Done,
        Event::Done,
        Event::Key(Key::Down),
        Event::Done,
    ] {
        s.step(report);
    }
    assert!(matches!(s.step(Event::Key(Key::Enter)), Action::LeaveTerminal));
    match s.step(Event::Done) {
        Action::Finish(Ending::Completed(PostExitAction::OpenFile(path))) => {
            assert_eq!(path, "README.md")
        }
        other => panic!("{:?}", other),
    }
}

#[test]
fn session_toggles_a_directory_and_goes_on() {
    let mut s = session();
    for report in [Event::Done, Event::Done, Event::Done] {
        s.step(report);
    }
    assert!(matches!(s.step(Event::Key(Key::Enter)), Action::Draw));
    assert_eq!(s.state().visible_entries().len(), 3);
    assert_eq!(s.phase(), Phase::Drawing);
}

#[test]
fn session_is_aborted_when_the_terminal_cannot_be_entered() {
    let (letters, s) = course(&[Event::Done, Event::Failed, Event::Done, Event::Done]);
    assert_eq!(letters, "EFFF");
    assert_eq!(s.phase(), Phase::Aborted);
    let mut s = session();
    s.step(Event::Done);
    assert!(matches!(s.step(Event::Failed), Action::Finish(Ending::Failed)));
}

#[test]
fn session_leaves_the_terminal_when_drawing_fails() {
    let (letters, s) = course(&[Event::Done, Event::Done, Event::Failed, Event::Done]);
    assert_eq!(letters, "EDLF");
    assert_eq!(s.phase(), Phase::Finished);
    let mut s = session();
    for report in [Event::Done, Event::Done, Event::Failed] {
        s.step(report);
    }
    assert!(matches!(s.step(Event::Done), Action::Finish(Ending::Failed)));
}

#[test]
fn session_leaves_the_terminal_when_reading_fails() {
    let (letters, _) = course(&[
        Event::Done,
        Event::Done,
        Event::Done,
        Event::Failed,
        Event::Done,
        Event::Done,
    ]);
    assert_eq!(letters, "EDRLFF");
}

#[test]
fn session_fails_when_the_terminal_cannot_be_left() {
    let mut s = session();
    for report in [Event::Done, Event::Done, Event::Done, Event::Key(Key::Esc)] {
        s.step(report);
    }
    assert!(matches!(s.step(Event::Failed), Action::Finish(Ending::Failed)));
    assert!(matches!(s.step(Event::Done), Action::Finish(Ending::Failed)));
}

#[test]
fn session_counts_a_report_that_does_not_fit_as_a_failure() {
    // a key where the terminal was to be entered
    let (letters, _) = course(&[Event::Done, Event::Key(Key::Down)]);
    assert_eq!(letters, "EF");
    // a key where the screen was to be drawn
    let (letters, _) = course(&[Event::Done, Event::Done, Event::Other, Event::Done]);
    assert_eq!(letters, "EDLF");
    // nothing where a key was to be read
    let (letters, _) = course(&[Event::Done, Event::Done, Event::Done, Event::Done]);
    assert_eq!(letters, "EDRL");
}

#[test]
fn session_enters_and_leaves_once_whatever_is_reported() {
    let reports = [
        Event::Done,
        Event::Failed,
        Event::Other,
        Event::Key(Key::Down),
        Event::Key(Key::Enter),
        Event::Key(Key::Char('q')),
    ];
    let mut seed: u32 = 7;
    for _ in 0..500 {
        let mut run = Vec::new();
        for _ in 0..12 {
            seed = seed.wrapping_mul(1664525).wrapping_add(1013904223);
            // mostly what a working terminal reports
            let pick = (seed >> 24) as usize % 10;
            run.push(reports[if pick < 5 { 0 } else { pick - 4 }]);
        }
        let (letters, _) = course(&run);
        assert!(letters.starts_with('E'));
        assert_eq!(letters.matches('E').count(), 1);
        let leaves = letters.matches('L').count();
        assert!(leaves <= 1);
        let entered = run[1] == Event::Done;
        if let Some(finish) = letters.find('F') {
            assert_eq!(leaves, if entered { 1 } else { 0 });
            if entered {
                assert!(letters.find('L').unwrap() < finish);
            }
            assert!(letters[finish..].chars().all(|c| c == 'F'));
        }
        for (at, c) in letters.char_indices() {
            if c == 'D' || c == 'R' {
                assert!(entered);
                assert!(letters.find('L').map_or(true, |l| at < l));
            }
        }
    }
}
