use vstd::prelude::*;
use vstd::string::StringExecFns;
use crate::config::{title_of, TimerSpec};
use crate::error::{Error, ErrorView};
use crate::progress::FrameState;
use crate::span::TimeSpan;
use crate::text::same_text;

verus! {

/// How long one poll of the terminal waits for an event, in milliseconds. A key
/// that cancels is seen within this time, and the bar is drawn anew about as
/// often.
pub const POLL_WINDOW_MILLIS: u64 = 20;

/// Where a run of the timer stands. A run begins as `Running`; the other two
/// are final.
#[derive(Clone, Copy, Debug, PartialEq, Eq, Structural)]
pub enum Phase {
    /// The countdown goes on.
    Running,
    /// The user ended the countdown before its time.
    CancelledByUser,
    /// The countdown reached its end.
    CompletedNormally,
}

/// A key of the keyboard, as far as the timer tells keys apart.
#[derive(Clone, Copy, Debug, PartialEq, Eq, Structural)]
pub enum Key {
    Escape,
    Char(char),
    Other,
}

/// What happened to a key.
#[derive(Clone, Copy, Debug, PartialEq, Eq, Structural)]
pub enum KeyKind {
    Press,
    Repeat,
    Release,
}

/// What one poll of the terminal brought.
#[derive(Clone, Copy, Debug, PartialEq, Eq, Structural)]
pub enum Input {
    /// No event came within the time of the poll.
    Nothing,
    /// An event of the keyboard.
    Key { key: Key, kind: KeyKind },
    /// An event of another sort: the mouse, a new size, a paste.
    Other,
    /// The terminal could not be polled.
    PollFailed,
    /// An event was there and could not be read.
    ReadFailed,
}

/// What the loop has to do after a step.
#[derive(Clone, Debug, PartialEq, Eq)]
pub enum Action {
    /// Draw one frame with these values.
    Draw(FrameState),
    /// Leave the loop, and send this notification first where there is one.
    Leave(Option<String>),
}

/// One step of a run: the phase it leads to and what is to be done.
#[derive(Clone, Debug, PartialEq, Eq)]
pub struct Transition {
    pub phase: Phase,
    pub action: Action,
}

/// An action as plain values.
pub enum ActionView {
    Draw(FrameState),
    Leave(Option<Seq<char>>),
}

/// The result of a step as plain values.
pub enum StepView {
    /// The run is aborted with an error.
    Failed(ErrorView),
    /// The run moves to a phase, with something to do.
    Moved { phase: Phase, action: ActionView },
}

/// A notification as plain values: its text, where one is sent.
pub open spec fn notice_view(notice: Option<String>) -> Option<Seq<char>> {
    match notice {
        Some(text) => Some(text@),
        None => None,
    }
}

impl View for Action {
    type V = ActionView;

    open spec fn view(&self) -> ActionView {
        match *self {
            Action::Draw(frame) => ActionView::Draw(frame),
            Action::Leave(notice) => ActionView::Leave(notice_view(notice)),
        }
    }
}

/// The result of a step as plain values.
pub open spec fn step_view(outcome: Result<Transition, Error>) -> StepView {
    match outcome {
        Ok(transition) => StepView::Moved { phase: transition.phase, action: transition.action@ },
        Err(error) => StepView::Failed(error@),
    }
}

/// Whether an input asks to end the countdown: Escape, `q` or `Q`, pressed or
/// held down.
pub open spec fn cancels(input: Input) -> bool {
    match input {
        Input::Key { key, kind } => kind != KeyKind::Release && (key == Key::Escape || key
            == Key::Char('q') || key == Key::Char('Q')),
        _ => false,
    }
}

/// The notification of the beginning: sent where notifications are on.
pub open spec fn opening_text(spec: TimerSpec) -> Option<Seq<char>> {
    if spec.notify_enabled {
        Some(title_of(spec.display_name) + " has started."@)
    } else {
        None
    }
}

/// The notification of the end: sent where notifications are on.
pub open spec fn closing_text(spec: TimerSpec) -> Option<Seq<char>> {
    if spec.notify_enabled {
        Some(title_of(spec.display_name) + " is over!"@)
    } else {
        None
    }
}

/// The step that a run takes. A run that is over stays where it is. A running
/// one is aborted where the terminal failed; it is cancelled, without a
/// notification, on a key that cancels; it is completed, with the notification
/// of the end, once the whole duration has elapsed; and else it draws the frame
/// of the elapsed time and runs on.
pub open spec fn next_step(spec: TimerSpec, phase: Phase, input: Input, elapsed: TimeSpan)
    -> StepView {
    if phase != Phase::Running {
        StepView::Moved { phase, action: ActionView::Leave(None) }
    } else if input == Input::PollFailed {
        StepView::Failed(ErrorView::Terminal("Unable to poll for events"@))
    } else if input == Input::ReadFailed {
        StepView::Failed(ErrorView::Terminal("Unable to read events"@))
    } else if cancels(input) {
        StepView::Moved { phase: Phase::CancelledByUser, action: ActionView::Leave(None) }
    } else if elapsed.total_nanos() >= spec.total_duration.total_nanos() {
        StepView::Moved {
            phase: Phase::CompletedNormally,
            action: ActionView::Leave(closing_text(spec)),
        }
    } else {
        StepView::Moved {
            phase: Phase::Running,
            action: ActionView::Draw(FrameState::of(spec.total_duration, elapsed)),
        }
    }
}

/// Whether an input asks to end the countdown.
pub fn is_cancel(input: Input) -> (cancel: bool)
    ensures
        cancel == cancels(input),
{
    match input {
        Input::Key { key, kind } => {
            let pressed = match kind {
                KeyKind::Release => false,
                _ => true,
            };
            let named = match key {
                Key::Escape => true,
                Key::Char(c) => c == 'q' || c == 'Q',
                Key::Other => false,
            };
            pressed && named
        },
        _ => false,
    }
}

/// The notification that tells the beginning of the countdown, if one is sent.
pub fn opening_notice(spec: &TimerSpec) -> (notice: Option<String>)
    ensures
        notice_view(notice) == opening_text(*spec),
{
    if spec.notify_enabled {
        Some(spec.title().concat(" has started."))
    } else {
        None
    }
}

/// The notification that tells the end of the countdown, if one is sent.
pub fn closing_notice(spec: &TimerSpec) -> (notice: Option<String>)
    ensures
        notice_view(notice) == closing_text(*spec),
{
    if spec.notify_enabled {
        Some(spec.title().concat(" is over!"))
    } else {
        None
    }
}

/// Takes one step of a run: from the phase, what the poll brought and the
/// time elapsed since the start, to the next phase and what is to be done.
pub fn advance(spec: &TimerSpec, phase: Phase, input: Input, elapsed: TimeSpan) -> (outcome: Result<
    Transition,
    Error,
>)
    requires
        spec.wf(),
        elapsed.wf(),
    ensures
        step_view(outcome) == next_step(*spec, phase, input, elapsed),
{
    match phase {
        Phase::Running => {},
        _ => {
            return Ok(Transition { phase, action: Action::Leave(None) });
        },
    }
    match input {
        Input::PollFailed => {
            return Err(Error::poll_failed());
        },
        Input::ReadFailed => {
            return Err(Error::read_failed());
        },
        _ => {},
    }
    if is_cancel(input) {
        Ok(Transition { phase: Phase::CancelledByUser, action: Action::Leave(None) })
    } else if elapsed.reaches(spec.total_duration) {
        Ok(
            Transition {
                phase: Phase::CompletedNormally,
                action: Action::Leave(closing_notice(spec)),
            },
        )
    } else {
        Ok(
            Transition {
                phase: Phase::Running,
                action: Action::Draw(FrameState::at(spec.total_duration, elapsed)),
            },
        )
    }
}

/// A run that is over stays over: no input and no time moves it, and it asks
/// for nothing more.
pub proof fn lemma_final_phases_stay(spec: TimerSpec, phase: Phase, input: Input, elapsed: TimeSpan)
    requires
        phase != Phase::Running,
    ensures
        next_step(spec, phase, input, elapsed) == (StepView::Moved {
            phase,
            action: ActionView::Leave(None),
        }),
{
}

/// A key that cancels ends a running countdown at once, whatever time has
/// elapsed, and no notification is sent.
pub proof fn lemma_cancel_is_silent(spec: TimerSpec, input: Input, elapsed: TimeSpan)
    requires
        cancels(input),
    ensures
        next_step(spec, Phase::Running, input, elapsed) == (StepView::Moved {
            phase: Phase::CancelledByUser,
            action: ActionView::Leave(None),
        }),
{
}

/// A step completes the countdown only once the whole duration has elapsed,
/// and a step that draws shows less than 100 percent.
pub proof fn lemma_completes_on_time(spec: TimerSpec, input: Input, elapsed: TimeSpan)
    requires
        spec.wf(),
        elapsed.wf(),
    ensures
        next_step(spec, Phase::Running, input, elapsed) matches StepView::Moved {
            phase: Phase::CompletedNormally,
            ..
        } ==> elapsed.total_nanos() >= spec.total_duration.total_nanos(),
        next_step(spec, Phase::Running, input, elapsed) matches StepView::Moved {
            action: ActionView::Draw(frame),
            ..
        } ==> frame.percent < 100 && frame.remaining.total_nanos() > 0,
{
    crate::progress::lemma_frames_advance(spec.total_duration, elapsed, elapsed);
}

/// What a notification of the desktop holds.
#[derive(Clone, Debug, PartialEq, Eq)]
pub struct Notice {
    pub summary: String,
    pub body: String,
    pub icon: String,
    pub sound: String,
}

/// The name of the sound of a notification on an operating system.
pub open spec fn sound_of(os: Seq<char>) -> Seq<char> {
    if os == "macos"@ {
        "Boop"@
    } else {
        "message-new-email"@
    }
}

/// The notification that carries `message` on the operating system `os`.
pub fn notice(message: &str, os: &str) -> (notice: Notice)
    ensures
        notice.summary@ == "Timer"@,
        notice.body@ == message@,
        notice.icon@ == "terminal"@,
        notice.sound@ == sound_of(os@),
{
    let sound = if same_text(os, "macos") {
        "Boop"
    } else {
        "message-new-email"
    };
    Notice {
        summary: String::from_str("Timer"),
        body: String::from_str(message),
        icon: String::from_str("terminal"),
        sound: String::from_str(sound),
    }
}

} // verus!
