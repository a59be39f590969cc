//! The course of one interactive session, from entering the terminal to
//! giving it back.
//!
//! The session does nothing to the terminal itself. It tells its driver what
//! to do next, the driver does it and reports what came of it, and so on
//! until the session says that it has finished. This way it is the session
//! that decides when the terminal is entered and left: once each, and the
//! second whatever goes wrong in between.

use crate::events::{
    lemma_command_keeps_cursor, Key, PostExitAction, Transition, TransitionView,
};
use crate::tui::{AppState, AppView};
use vstd::prelude::*;

verus! {

/// What came of the last thing the driver was told to do.
#[derive(Clone, Copy, Debug, PartialEq, Eq, Structural)]
pub enum Event {
    /// It was done.
    Done,
    /// It could not be done.
    Failed,
    /// A key was read.
    Key(Key),
    /// Something was read that is no key.
    Other,
}

/// Where a session stands.
#[derive(Clone, Copy, Debug, PartialEq, Eq, Structural)]
pub enum Phase {
    /// Nothing has been asked for yet.
    Created,
    /// The driver has been told to enter the terminal.
    Entering,
    /// The terminal is entered, and the driver has been told to draw.
    Drawing,
    /// The terminal is entered, and the driver has been told to read.
    Reading,
    /// The driver has been told to leave the terminal.
    Leaving,
    /// The terminal was entered and has been left.
    Finished,
    /// The terminal could not be entered.
    Aborted,
}

/// How a session has ended.
#[derive(Debug)]
pub enum Ending {
    /// As the user asked, with this left to do.
    Completed(PostExitAction),
    /// Because the terminal failed.
    Failed,
}

/// What the driver is to do next.
#[derive(Debug)]
pub enum Action {
    /// Put the terminal into the mode that the screen needs.
    EnterTerminal,
    /// Draw the rows.
    Draw,
    /// Wait for the next input and report it.
    ReadKey,
    /// Give the terminal back.
    LeaveTerminal,
    /// Stop: the session has ended.
    Finish(Ending),
}

/// What an `Ending` stands for in contracts.
pub enum EndingView {
    Idle,
    ToOpen(Seq<char>),
    Failed,
}

/// What an `Action` stands for in contracts.
pub enum ActionView {
    EnterTerminal,
    Draw,
    ReadKey,
    LeaveTerminal,
    Finish(EndingView),
}

impl View for Ending {
    type V = EndingView;

    open spec fn view(&self) -> EndingView {
        match self {
            Ending::Completed(PostExitAction::Nothing) => EndingView::Idle,
            Ending::Completed(PostExitAction::OpenFile(path)) => EndingView::ToOpen(path@),
            Ending::Failed => EndingView::Failed,
        }
    }
}

impl View for Action {
    type V = ActionView;

    open spec fn view(&self) -> ActionView {
        match self {
            Action::EnterTerminal => ActionView::EnterTerminal,
            Action::Draw => ActionView::Draw,
            Action::ReadKey => ActionView::ReadKey,
            Action::LeaveTerminal => ActionView::LeaveTerminal,
            Action::Finish(ending) => ActionView::Finish(ending@),
        }
    }
}

impl Clone for Ending {
    fn clone(&self) -> (copy: Self)
        ensures
            copy@ == self@,
    {
        match self {
            Ending::Completed(PostExitAction::Nothing) => Ending::Completed(
                PostExitAction::Nothing,
            ),
            Ending::Completed(PostExitAction::OpenFile(path)) => Ending::Completed(
                PostExitAction::OpenFile(path.clone()),
            ),
            Ending::Failed => Ending::Failed,
        }
    }
}

/// What a `Session` stands for in contracts.
pub struct SessionView {
    pub app: AppView,
    pub phase: Phase,
    /// How the session ends, once that is settled: from the phase `Leaving`
    /// on.
    pub ending: EndingView,
}

impl SessionView {
    /// A session on which nothing has been done yet.
    pub open spec fn created(app: AppView) -> SessionView {
        SessionView { app, phase: Phase::Created, ending: EndingView::Failed }
    }

    /// The session after the driver has reported `event`.
    ///
    /// The first report only starts the session. After that each report
    /// answers the action before it. The screen is drawn and read in turns
    /// until a key ends the session or the terminal fails; either way the
    /// terminal is left before the session finishes, unless it could not be
    /// entered at all. A report that does not answer what was asked counts
    /// as a failure.
    pub open spec fn step(self, event: Event) -> SessionView {
        match self.phase {
            Phase::Created => SessionView { phase: Phase::Entering, ..self },
            Phase::Entering => match event {
                Event::Done => SessionView { phase: Phase::Drawing, ..self },
                _ => SessionView { phase: Phase::Aborted, ending: EndingView::Failed, ..self },
            },
            Phase::Drawing => match event {
                Event::Done => SessionView { phase: Phase::Reading, ..self },
                _ => SessionView { phase: Phase::Leaving, ending: EndingView::Failed, ..self },
            },
            Phase::Reading => match event {
                Event::Key(key) => {
                    let app = self.app.after_command(key.command());
                    match self.app.transition_on(key.command()) {
                        TransitionView::Browsing => SessionView {
                            app,
                            phase: Phase::Drawing,
                            ..self
                        },
                        TransitionView::ExitedIdle => SessionView {
                            app,
                            phase: Phase::Leaving,
                            ending: EndingView::Idle,
                        },
                        TransitionView::ExitedToOpen(path) => SessionView {
                            app,
                            phase: Phase::Leaving,
                            ending: EndingView::ToOpen(path),
                        },
                    }
                },
                Event::Other => SessionView { phase: Phase::Drawing, ..self },
                _ => SessionView { phase: Phase::Leaving, ending: EndingView::Failed, ..self },
            },
            Phase::Leaving => match event {
                Event::Done => SessionView { phase: Phase::Finished, ..self },
                _ => SessionView { phase: Phase::Finished, ending: EndingView::Failed, ..self },
            },
            Phase::Finished => self,
            Phase::Aborted => self,
        }
    }

    /// What the driver is told to do on reaching this state.
    pub open spec fn action(self) -> ActionView {
        match self.phase {
            Phase::Created => ActionView::EnterTerminal,
            Phase::Entering => ActionView::EnterTerminal,
            Phase::Drawing => ActionView::Draw,
            Phase::Reading => ActionView::ReadKey,
            Phase::Leaving => ActionView::LeaveTerminal,
            Phase::Finished => ActionView::Finish(self.ending),
            Phase::Aborted => ActionView::Finish(self.ending),
        }
    }

    /// The session after a run of reports, the first of them made first.
    pub open spec fn run(self, events: Seq<Event>) -> SessionView
        decreases events.len(),
    {
        if events.len() == 0 {
            self
        } else {
            self.run(events.drop_last()).step(events.last())
        }
    }

    /// What the driver was told to do in answer to each of a run of reports.
    pub open spec fn actions(self, events: Seq<Event>) -> Seq<ActionView>
        decreases events.len(),
    {
        if events.len() == 0 {
            Seq::empty()
        } else {
            self.actions(events.drop_last()).push(self.run(events).action())
        }
    }
}

/// How often `action` stands in `actions`.
pub open spec fn count(actions: Seq<ActionView>, action: ActionView) -> nat
    decreases actions.len(),
{
    if actions.len() == 0 {
        0
    } else {
        count(actions.drop_last(), action) + if actions.last() == action {
            1nat
        } else {
            0nat
        }
    }
}

/// What holds of a session and of what its driver was told so far.
pub open spec fn orderly(end: SessionView, told: Seq<ActionView>) -> bool {
    // The terminal is entered once, as the first thing.
    &&& end.phase is Created <==> told.len() == 0
    &&& count(told, ActionView::EnterTerminal) == if told.len() == 0 {
        0nat
    } else {
        1nat
    }
    // It has been left, once, when the session is about to finish or has
    // done so, and not before.
    &&& count(told, ActionView::LeaveTerminal) == if end.phase is Leaving || end.phase is Finished {
        1nat
    } else {
        0nat
    }
    // The screen is drawn and read only while the terminal is entered.
    &&& forall|k: int|
        0 <= k < told.len() && (#[trigger] told[k] is Draw || told[k] is ReadKey) ==> {
            &&& count(told.take(k), ActionView::EnterTerminal) == 1
            &&& count(told.take(k), ActionView::LeaveTerminal) == 0
        }
    // The session finishes only after the terminal has been left, or could
    // not be entered; and once it has finished, it stays so.
    &&& forall|k: int|
        0 <= k < told.len() && #[trigger] told[k] is Finish ==> {
            &&& end.phase is Finished || end.phase is Aborted
            &&& count(told.take(k), ActionView::LeaveTerminal) == if end.phase is Finished {
                1nat
            } else {
                0nat
            }
        }
}

/// Whatever the driver reports, a session enters the terminal once, as the
/// first thing it does. It leaves the terminal once if it has entered it, and
/// never if it could not enter it; it draws and reads only in between; and it
/// finishes only when the terminal has been left or could not be entered.
pub proof fn lemma_terminal_is_entered_and_left_once(app: AppView, events: Seq<Event>)
    ensures
        orderly(
            SessionView::created(app).run(events),
            SessionView::created(app).actions(events),
        ),
        SessionView::created(app).actions(events).len() == events.len(),
    decreases events.len(),
{
    let start = SessionView::created(app);
    let end = start.run(events);
    let told = start.actions(events);
    if events.len() > 0 {
        let before = events.drop_last();
        lemma_terminal_is_entered_and_left_once(app, before);
        let was = start.run(before);
        let earlier = start.actions(before);
        assert(end == was.step(events.last()));
        assert(told == earlier.push(end.action()));
        assert(told.drop_last() =~= earlier);
        assert(told.take(earlier.len() as int) =~= earlier);
        assert forall|k: int| 0 <= k < earlier.len() implies told.take(k) == earlier.take(k)
            && told[k] == earlier[k] by {
            assert(told.take(k) =~= earlier.take(k));
        }
        assert forall|k: int|
            0 <= k < told.len() && (#[trigger] told[k] is Draw || told[k] is ReadKey) implies {
            &&& count(told.take(k), ActionView::EnterTerminal) == 1
            &&& count(told.take(k), ActionView::LeaveTerminal) == 0
        } by {
            if k < earlier.len() {
                assert(earlier[k] is Draw || earlier[k] is ReadKey);
            }
        }
        assert forall|k: int| 0 <= k < told.len() && #[trigger] told[k] is Finish implies {
            &&& end.phase is Finished || end.phase is Aborted
            &&& count(told.take(k), ActionView::LeaveTerminal) == if end.phase is Finished {
                1nat
            } else {
                0nat
            }
        } by {
            if k < earlier.len() {
                assert(earlier[k] is Finish);
            }
        }
    }
}

/// Whatever the driver reports, the cursor of a session stays on a row of
/// the visible list, and is on none only while there is no row.
pub proof fn lemma_session_keeps_cursor(app: AppView, events: Seq<Event>)
    requires
        app.wf(),
    ensures
        SessionView::created(app).run(events).app.wf(),
    decreases events.len(),
{
    if events.len() > 0 {
        lemma_session_keeps_cursor(app, events.drop_last());
        let was = SessionView::created(app).run(events.drop_last());
        if let Event::Key(key) = events.last() {
            lemma_command_keeps_cursor(was.app, key.command());
        }
    }
}

/// One interactive session and where it stands.
pub struct Session {
    state: AppState,
    phase: Phase,
    ending: Ending,
}

impl View for Session {
    type V = SessionView;

    closed spec fn view(&self) -> SessionView {
        SessionView { app: self.state@, phase: self.phase, ending: self.ending@ }
    }
}

impl Session {
    /// A session on which nothing has been done yet.
    pub fn new(state: AppState) -> (session: Self)
        ensures
            session@ == SessionView::created(state@),
    {
        Session { state, phase: Phase::Created, ending: Ending::Failed }
    }

    /// The rows and the cursor, for drawing.
    pub fn state(&self) -> (state: &AppState)
        ensures
            state@ == self@.app,
    {
        &self.state
    }

    /// Where the session stands.
    pub fn phase(&self) -> (phase: Phase)
        ensures
            phase == self@.phase,
    {
        self.phase
    }

    /// Takes the report of what came of the last action, and says what to do
    /// next. The first report, before anything was asked for, may be any.
    pub fn step(&mut self, event: Event) -> (action: Action)
        ensures
            final(self)@ == old(self)@.step(event),
            action@ == final(self)@.action(),
    {
        match self.phase {
            Phase::Created => {
                self.phase = Phase::Entering;
                Action::EnterTerminal
            },
            Phase::Entering => match event {
                Event::Done => {
                    self.phase = Phase::Drawing;
                    Action::Draw
                },
                _ => {
                    self.phase = Phase::Aborted;
                    self.ending = Ending::Failed;
                    Action::Finish(Ending::Failed)
                },
            },
            Phase::Drawing => match event {
                Event::Done => {
                    self.phase = Phase::Reading;
                    Action::ReadKey
                },
                _ => {
                    self.phase = Phase::Leaving;
                    self.ending = Ending::Failed;
                    Action::LeaveTerminal
                },
            },
            Phase::Reading => match event {
                Event::Key(key) => match self.state.handle_key(key) {
                    Transition::Browsing => {
                        self.phase = Phase::Drawing;
                        Action::Draw
                    },
                    Transition::Exited(action) => {
                        self.phase = Phase::Leaving;
                        self.ending = Ending::Completed(action);
                        Action::LeaveTerminal
                    },
                },
                Event::Other => {
                    self.phase = Phase::Drawing;
                    Action::Draw
                },
                _ => {
                    self.phase = Phase::Leaving;
                    self.ending = Ending::Failed;
                    Action::LeaveTerminal
                },
            },
            Phase::Leaving => match event {
                Event::Done => {
                    self.phase = Phase::Finished;
                    Action::Finish(self.ending.clone())
                },
                _ => {
                    self.phase = Phase::Finished;
                    self.ending = Ending::Failed;
                    Action::Finish(Ending::Failed)
                },
            },
            Phase::Finished => Action::Finish(self.ending.clone()),
            Phase::Aborted => Action::Finish(self.ending.clone()),
        }
    }
}

} // verus!
