//! In which order a wallpaper is drawn and configured after an event of the compositor.
use vstd::prelude::*;

verus! {

/// Something to do with a wallpaper.
#[derive(Clone, Copy, Debug, PartialEq, Eq, Structural)]
pub enum Action {
    /// Draw it. Drawing says whether the surface has to be configured anew.
    Draw,
    /// Configure its surface and begin its state anew.
    Reconfigure,
    /// Ask the compositor to say when the next frame is due.
    RequestFrame,
}

/// An event of the compositor that is about a wallpaper.
#[derive(Clone, Copy, Debug, PartialEq, Eq, Structural)]
pub enum Event {
    /// A surface is ready for its next frame.
    Frame,
    /// A layer is given its size.
    Configure,
}

/// Where the handling of an event stands. Each name says which event it is and what is next.
#[derive(Clone, Copy, Debug, PartialEq, Eq, Structural)]
pub enum Task {
    FrameDraw,
    FrameReconfigure,
    FrameRequest,
    ConfigureFirst,
    ConfigureRequest,
    ConfigureDraw,
    ConfigureAgain,
    Finished,
}

impl Task {
    /// What is to be done now.
    pub open spec fn due(self) -> Option<Action> {
        match self {
            Task::FrameDraw | Task::ConfigureDraw => Some(Action::Draw),
            Task::FrameReconfigure | Task::ConfigureFirst | Task::ConfigureAgain => Some(
                Action::Reconfigure,
            ),
            Task::FrameRequest | Task::ConfigureRequest => Some(Action::RequestFrame),
            Task::Finished => None,
        }
    }

    /// Where the handling stands when that is done; `needs_reconfigure` is what drawing said.
    pub open spec fn after(self, needs_reconfigure: bool) -> Task {
        match self {
            Task::FrameDraw => if needs_reconfigure {
                Task::FrameReconfigure
            } else {
                Task::FrameRequest
            },
            Task::FrameReconfigure => Task::FrameRequest,
            Task::ConfigureFirst => Task::ConfigureRequest,
            Task::ConfigureRequest => Task::ConfigureDraw,
            Task::ConfigureDraw => if needs_reconfigure {
                Task::ConfigureAgain
            } else {
                Task::Finished
            },
            Task::FrameRequest | Task::ConfigureAgain | Task::Finished => Task::Finished,
        }
    }

    /// How many actions are left at most.
    pub open spec fn left(self) -> nat {
        match self {
            Task::FrameDraw => 3,
            Task::FrameReconfigure => 2,
            Task::FrameRequest => 1,
            Task::ConfigureFirst => 4,
            Task::ConfigureRequest => 3,
            Task::ConfigureDraw => 2,
            Task::ConfigureAgain => 1,
            Task::Finished => 0,
        }
    }

    /// What is to be done now.
    pub fn action(self) -> (res: Option<Action>)
        ensures
            res == self.due(),
    {
        match self {
            Task::FrameDraw | Task::ConfigureDraw => Some(Action::Draw),
            Task::FrameReconfigure | Task::ConfigureFirst | Task::ConfigureAgain => Some(
                Action::Reconfigure,
            ),
            Task::FrameRequest | Task::ConfigureRequest => Some(Action::RequestFrame),
            Task::Finished => None,
        }
    }

    /// Where the handling stands when that is done; `needs_reconfigure` is what drawing said.
    pub fn next(self, needs_reconfigure: bool) -> (res: Task)
        ensures
            res == self.after(needs_reconfigure),
    {
        match self {
            Task::FrameDraw => if needs_reconfigure {
                Task::FrameReconfigure
            } else {
                Task::FrameRequest
            },
            Task::FrameReconfigure => Task::FrameRequest,
            Task::ConfigureFirst => Task::ConfigureRequest,
            Task::ConfigureRequest => Task::ConfigureDraw,
            Task::ConfigureDraw => if needs_reconfigure {
                Task::ConfigureAgain
            } else {
                Task::Finished
            },
            Task::FrameRequest | Task::ConfigureAgain | Task::Finished => Task::Finished,
        }
    }
}

/// Where the handling of an event starts, given the place of the wallpaper that it is about. An
/// event about none has nothing to be done.
pub open spec fn start_of(event: Event, wallpaper: Option<usize>) -> Task {
    match (event, wallpaper) {
        (_, None) => Task::Finished,
        (Event::Frame, Some(_)) => Task::FrameDraw,
        (Event::Configure, Some(_)) => Task::ConfigureFirst,
    }
}

/// Where the handling of an event starts, given the place of the wallpaper that it is about.
pub fn first_task(event: Event, wallpaper: Option<usize>) -> (res: Task)
    ensures
        res == start_of(event, wallpaper),
{
    if wallpaper.is_none() {
        return Task::Finished;
    }
    match event {
        Event::Frame => Task::FrameDraw,
        Event::Configure => Task::ConfigureFirst,
    }
}

/// All that is done from a point on, where drawing says `needs_reconfigure`.
pub open spec fn actions(task: Task, needs_reconfigure: bool) -> Seq<Action>
    decreases task.left(),
{
    match task.due() {
        Some(action) => seq![action] + actions(task.after(needs_reconfigure), needs_reconfigure),
        None => Seq::empty(),
    }
}

/// An event that is about no wallpaper leads to nothing; one that is about a wallpaper leads to
/// drawing it.
pub proof fn law_event_draws_the_wallpaper_it_is_about(
    event: Event,
    wallpaper: Option<usize>,
    needs_reconfigure: bool,
)
    ensures
        wallpaper is None ==> actions(start_of(event, wallpaper), needs_reconfigure).len() == 0,
        wallpaper is Some ==> actions(start_of(event, wallpaper), needs_reconfigure).contains(
            Action::Draw,
        ),
{
    law_frame_order(needs_reconfigure);
    law_configure_order(needs_reconfigure);
    let done = actions(start_of(event, wallpaper), needs_reconfigure);
    if wallpaper is Some {
        match event {
            Event::Frame => {
                assert(done[0] == Action::Draw);
            },
            Event::Configure => {
                assert(done[2] == Action::Draw);
            },
        }
    }
}

/// The next frame of a surface draws once, configures the surface anew where drawing asks for
/// it, and in either case asks for another frame at the end.
pub proof fn law_frame_order(needs_reconfigure: bool)
    ensures
        actions(Task::FrameDraw, needs_reconfigure) == if needs_reconfigure {
            seq![Action::Draw, Action::Reconfigure, Action::RequestFrame]
        } else {
            seq![Action::Draw, Action::RequestFrame]
        },
{
    reveal_with_fuel(actions, 4);
    assert(actions(Task::FrameRequest, needs_reconfigure) =~= seq![Action::RequestFrame]);
    assert(actions(Task::FrameReconfigure, needs_reconfigure) =~= seq![
        Action::Reconfigure,
        Action::RequestFrame,
    ]);
    if needs_reconfigure {
        assert(actions(Task::FrameDraw, needs_reconfigure) =~= seq![
            Action::Draw,
            Action::Reconfigure,
            Action::RequestFrame,
        ]);
    } else {
        assert(actions(Task::FrameDraw, needs_reconfigure) =~= seq![
            Action::Draw,
            Action::RequestFrame,
        ]);
    }
}

/// A surface that is given its size is configured, asks for a frame, and only then is drawn;
/// where drawing asks for it, it is configured once more.
pub proof fn law_configure_order(needs_reconfigure: bool)
    ensures
        actions(Task::ConfigureFirst, needs_reconfigure) == if needs_reconfigure {
            seq![Action::Reconfigure, Action::RequestFrame, Action::Draw, Action::Reconfigure]
        } else {
            seq![Action::Reconfigure, Action::RequestFrame, Action::Draw]
        },
{
    reveal_with_fuel(actions, 5);
    assert(actions(Task::ConfigureAgain, needs_reconfigure) =~= seq![Action::Reconfigure]);
    if needs_reconfigure {
        assert(actions(Task::ConfigureDraw, needs_reconfigure) =~= seq![
            Action::Draw,
            Action::Reconfigure,
        ]);
    } else {
        assert(actions(Task::ConfigureDraw, needs_reconfigure) =~= seq![Action::Draw]);
    }
    assert(actions(Task::ConfigureRequest, needs_reconfigure) =~= seq![Action::RequestFrame]
        + actions(Task::ConfigureDraw, needs_reconfigure));
    if needs_reconfigure {
        assert(actions(Task::ConfigureFirst, needs_reconfigure) =~= seq![
            Action::Reconfigure,
            Action::RequestFrame,
            Action::Draw,
            Action::Reconfigure,
        ]);
    } else {
        assert(actions(Task::ConfigureFirst, needs_reconfigure) =~= seq![
            Action::Reconfigure,
            Action::RequestFrame,
            Action::Draw,
        ]);
    }
}

/// Whether doing what is due, point after point, comes to these actions, where drawing says
/// `needs_reconfigure`: at each point the next one of them is due, and at the end none is.
pub open spec fn comes_to(task: Task, needs_reconfigure: bool, done: Seq<Action>) -> bool
    decreases done.len(),
{
    exists|due: Option<Action>, next: Task|
        {
            &&& #[trigger] call_ensures(Task::action, (task,), due)
            &&& #[trigger] call_ensures(Task::next, (task, needs_reconfigure), next)
            &&& if done.len() == 0 {
                due is None
            } else {
                due == Some(done[0]) && comes_to(next, needs_reconfigure, done.drop_first())
            }
        }
}

/// Doing what is due comes to the actions of a point, and to nothing else.
proof fn lemma_comes_to_actions(task: Task, needs_reconfigure: bool, done: Seq<Action>)
    requires
        comes_to(task, needs_reconfigure, done),
    ensures
        done == actions(task, needs_reconfigure),
    decreases done.len(),
{
    let (due, next) = choose|due: Option<Action>, next: Task|
        {
            &&& #[trigger] call_ensures(Task::action, (task,), due)
            &&& #[trigger] call_ensures(Task::next, (task, needs_reconfigure), next)
            &&& if done.len() == 0 {
                due is None
            } else {
                due == Some(done[0]) && comes_to(next, needs_reconfigure, done.drop_first())
            }
        };
    if done.len() > 0 {
        lemma_comes_to_actions(next, needs_reconfigure, done.drop_first());
        assert(done =~= seq![done[0]] + done.drop_first());
    } else {
        assert(done =~= Seq::empty());
    }
}

/// What is done about an event, from its first task on: a frame is drawn, configured anew where
/// drawing asks for it, and asked for again in any case; a configured surface is set up, asks for a
/// frame, is drawn, and is set up once more where drawing asks for it. An event about no wallpaper
/// leads to nothing.
pub proof fn law_events_are_handled_in_order(
    event: Event,
    wallpaper: Option<usize>,
    needs_reconfigure: bool,
    first: Task,
    done: Seq<Action>,
)
    requires
        call_ensures(first_task, (event, wallpaper), first),
        comes_to(first, needs_reconfigure, done),
    ensures
        wallpaper is None ==> done.len() == 0,
        wallpaper is Some && event == Event::Frame && !needs_reconfigure ==> done == seq![
            Action::Draw,
            Action::RequestFrame,
        ],
        wallpaper is Some && event == Event::Frame && needs_reconfigure ==> done == seq![
            Action::Draw,
            Action::Reconfigure,
            Action::RequestFrame,
        ],
        wallpaper is Some && event == Event::Configure && !needs_reconfigure ==> done == seq![
            Action::Reconfigure,
            Action::RequestFrame,
            Action::Draw,
        ],
        wallpaper is Some && event == Event::Configure && needs_reconfigure ==> done == seq![
            Action::Reconfigure,
            Action::RequestFrame,
            Action::Draw,
            Action::Reconfigure,
        ],
{
    lemma_comes_to_actions(first, needs_reconfigure, done);
    law_frame_order(needs_reconfigure);
    law_configure_order(needs_reconfigure);
}

/// What drawing says matters only where drawing was due.
pub proof fn law_only_drawing_decides(task: Task, due: Option<Action>, one: Task, other: Task)
    requires
        call_ensures(Task::action, (task,), due),
        call_ensures(Task::next, (task, true), one),
        call_ensures(Task::next, (task, false), other),
    ensures
        due != Some(Action::Draw) ==> one == other,
        due is None ==> one == task && other == task,
{
}

} // verus!
