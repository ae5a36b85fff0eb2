use vstd::prelude::*;
use crate::error::{Error, ErrorView};
use crate::resolve::{resolve_duration, resolved};
use crate::span::TimeSpan;
use crate::text::same_text;

verus! {

/// What the command line holds, as it was typed.
#[derive(Clone, Debug, PartialEq, Eq)]
pub struct Cli {
    /// The duration of the countdown: a bare number of seconds, or numbers
    /// with units.
    pub duration: String,
    /// A name for the timer.
    pub name: Option<String>,
    /// Whether a notification is sent when the countdown begins and ends.
    pub notify: bool,
    /// How the time of the start is shown: `24h` or `12h`.
    pub format: String,
}

/// How a time of day is shown.
#[derive(Clone, Copy, Debug, PartialEq, Eq, Structural)]
pub enum ClockFormat {
    /// Hours from 00 to 23.
    TwentyFourHour,
    /// Hours from 01 to 12, with AM or PM behind.
    TwelveHour,
}

impl ClockFormat {
    /// The format that a word of the command line asks for: `12h` asks for
    /// twelve hours, and every other word leaves the clock at twenty-four.
    pub open spec fn of_word(word: Seq<char>) -> ClockFormat {
        if word == "12h"@ {
            ClockFormat::TwelveHour
        } else {
            ClockFormat::TwentyFourHour
        }
    }

    /// The format that a word of the command line asks for.
    pub fn from_word(word: &str) -> (format: ClockFormat)
        ensures
            format == ClockFormat::of_word(word@),
    {
        if same_text(word, "12h") {
            ClockFormat::TwelveHour
        } else {
            ClockFormat::TwentyFourHour
        }
    }

    /// Whether hours run to twelve.
    pub fn is_twelve_hour(self) -> (twelve: bool)
        ensures
            twelve == (self == ClockFormat::TwelveHour),
    {
        match self {
            ClockFormat::TwelveHour => true,
            ClockFormat::TwentyFourHour => false,
        }
    }
}

/// What one run of the timer is set to. It is made once and never changed.
#[derive(Clone, Debug, PartialEq, Eq)]
pub struct TimerSpec {
    /// How long the countdown lasts.
    pub total_duration: TimeSpan,
    /// The name shown above the countdown, if it has one.
    pub display_name: Option<String>,
    /// Whether the beginning and the end are told by a notification.
    pub notify_enabled: bool,
    /// How the time of the start is shown.
    pub clock_format: ClockFormat,
}

/// The name of a timer that was given none.
pub open spec fn default_title() -> Seq<char> {
    "Timer"@
}

/// The name shown for a timer: its own, or the default.
pub open spec fn title_of(name: Option<String>) -> Seq<char> {
    match name {
        Some(text) => text@,
        None => default_title(),
    }
}

/// The name shown for a timer: its own, or the default.
pub fn title_text(name: &Option<String>) -> (title: String)
    ensures
        title@ == title_of(*name),
{
    match name {
        Some(text) => text.clone(),
        None => "Timer".to_owned(),
    }
}

impl TimerSpec {
    /// A timer is well formed when its duration is.
    pub open spec fn wf(self) -> bool {
        self.total_duration.wf()
    }

    /// The timer that a command line asks for: its duration resolved, the rest
    /// taken over. An invalid duration is the only way to fail.
    pub fn resolve(cli: &Cli) -> (outcome: Result<TimerSpec, Error>)
        ensures
            match resolved(cli.duration@) {
                Ok(span) => outcome matches Ok(spec) && spec.wf() && spec.total_duration == span
                    && spec.display_name == cli.name && spec.notify_enabled == cli.notify
                    && spec.clock_format == ClockFormat::of_word(cli.format@),
                Err(why) => outcome matches Err(error) && error@ == ErrorView::InvalidDuration(why),
            },
    {
        match resolve_duration(cli.duration.as_str()) {
            Ok(span) => Ok(
                TimerSpec {
                    total_duration: span,
                    display_name: cli.name.clone(),
                    notify_enabled: cli.notify,
                    clock_format: ClockFormat::from_word(cli.format.as_str()),
                },
            ),
            Err(error) => Err(error),
        }
    }

    /// The name shown above the countdown.
    pub fn title(&self) -> (title: String)
        ensures
            title@ == title_of(self.display_name),
    {
        title_text(&self.display_name)
    }
}

} // verus!
