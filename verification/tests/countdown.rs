use timer::config::{ClockFormat, TimerSpec};
use timer::control::{
    advance, closing_notice, is_cancel, notice, opening_notice, Action, Input, Key, KeyKind, Phase,
    Transition, POLL_WINDOW_MILLIS,
};
use timer::error::Error;
use timer::progress::{percent, FrameState};
use timer::span::TimeSpan;

fn span(secs: u64, nanos: u32) -> TimeSpan {
    TimeSpan::from_parts(secs, nanos)
}

fn spec(total: TimeSpan, name: Option<&str>, notify: bool) -> TimerSpec {
    TimerSpec {
        total_duration: total,
        display_name: name.map(|text| text.to_string()),
        notify_enabled: notify,
        clock_format: ClockFormat::TwentyFourHour,
    }
}

fn press(key: Key) -> Input {
    Input::Key { key, kind: KeyKind::Press }
}

#[test]
fn span_arithmetic() {
    assert_eq!(TimeSpan::from_secs(7), span(7, 0));
    assert_eq!(span(1, 5).as_nanos(), 1_000_000_005);
    assert_eq!(span(u64::MAX, 999_999_999).as_nanos(), 18_446_744_073_709_551_615_999_999_999);
    assert!(span(2, 0).reaches(span(2, 0)));
    assert!(span(2, 1).reaches(span(2, 0)));
    assert!(!span(1, 999_999_999).reaches(span(2, 0)));
    assert_eq!(span(10, 0).remaining_after(span(0, 500_000_000)), span(9, 500_000_000));
    assert_eq!(span(10, 250).remaining_after(span(3, 100)), span(7, 150));
    assert_eq!(span(10, 0).remaining_after(span(10, 0)), span(0, 0));
    assert_eq!(span(10, 0).remaining_after(span(11, 0)), span(0, 0));
    assert_eq!(span(0, 1).remaining_after(span(0, 0)), span(0, 1));
}

#[test]
fn percent_is_rounded_down() {
    let total = span(10, 0);
    assert_eq!(percent(span(0, 0), total), 0);
    assert_eq!(percent(span(0, 99_999_999), total), 0);
    assert_eq!(percent(span(0, 100_000_000), total), 1);
    assert_eq!(percent(span(5, 0), total), 50);
    assert_eq!(percent(span(9, 959_999_999), total), 99);
    assert_eq!(percent(span(9, 999_999_999), total), 99);
    assert_eq!(percent(span(10, 0), total), 100);
    assert_eq!(percent(span(500, 0), total), 100);
    assert_eq!(percent(span(1, 0), span(3, 0)), 33);
    assert_eq!(percent(span(2, 0), span(3, 0)), 66);
}

#[test]
fn percent_of_an_empty_countdown_is_full() {
    assert_eq!(percent(span(0, 0), span(0, 0)), 100);
    assert_eq!(percent(span(3, 0), span(0, 0)), 100);
}

#[test]
fn percent_at_the_largest_spans() {
    let total = span(u64::MAX, 999_999_999);
    assert_eq!(percent(span(u64::MAX, 999_999_998), total), 99);
    assert_eq!(percent(total, total), 100);
    assert_eq!(percent(span(u64::MAX / 2, 0), total), 49);
}

#[test]
fn percent_never_goes_down() {
    let total = span(7, 123_456_789);
    let mut last: u16 = 0;
    let mut millis: u64 = 0;
    while millis <= 8000 {
        let elapsed = span(millis / 1000, ((millis % 1000) * 1_000_000) as u32);
        let now = percent(elapsed, total);
        assert!(now >= last);
        assert!(now <= 100);
        assert_eq!(now == 100, elapsed.reaches(total));
        last = now;
        millis += 7;
    }
    assert_eq!(last, 100);
}

#[test]
fn frame_values() {
    let frame = FrameState::at(span(10, 0), span(2, 500_000_000));
    assert_eq!(frame.elapsed, span(2, 500_000_000));
    assert_eq!(frame.remaining, span(7, 500_000_000));
    assert_eq!(frame.percent, 25);
    let late = FrameState::at(span(10, 0), span(12, 0));
    assert_eq!(late.remaining, span(0, 0));
    assert_eq!(late.percent, 100);
}

#[test]
fn cancel_keys() {
    assert!(is_cancel(press(Key::Escape)));
    assert!(is_cancel(press(Key::Char('q'))));
    assert!(is_cancel(press(Key::Char('Q'))));
    assert!(is_cancel(Input::Key { key: Key::Char('q'), kind: KeyKind::Repeat }));
    assert!(!is_cancel(Input::Key { key: Key::Char('q'), kind: KeyKind::Release }));
    assert!(!is_cancel(Input::Key { key: Key::Escape, kind: KeyKind::Release }));
    assert!(!is_cancel(press(Key::Char('x'))));
    assert!(!is_cancel(press(Key::Other)));
    assert!(!is_cancel(Input::Nothing));
    assert!(!is_cancel(Input::Other));
    assert!(!is_cancel(Input::PollFailed));
}

#[test]
fn two_seconds_run_to_the_end() {
    let timer = spec(span(2, 0), None, true);
    assert_eq!(opening_notice(&timer), Some("Timer has started.".to_string()));
    let mut phase = Phase::Running;
    let mut drawn = 0;
    let mut millis: u64 = 0;
    let mut notice = None;
    while phase == Phase::Running {
        millis += POLL_WINDOW_MILLIS;
        let elapsed = span(millis / 1000, ((millis % 1000) * 1_000_000) as u32);
        let step = advance(&timer, phase, Input::Nothing, elapsed).unwrap();
        phase = step.phase;
        match step.action {
            Action::Draw(frame) => {
                assert!(millis < 2000);
                assert_eq!(frame.percent as u64, millis * 100 / 2000);
                assert_eq!(frame.remaining.as_nanos(), ((2000 - millis) * 1_000_000) as u128);
                drawn += 1;
            }
            Action::Leave(text) => notice = text,
        }
    }
    assert_eq!(phase, Phase::CompletedNormally);
    assert_eq!(millis, 2000);
    assert_eq!(drawn, 99);
    assert_eq!(notice, Some("Timer is over!".to_string()));
}

#[test]
fn q_cancels_at_once() {
    let timer = spec(span(10, 0), Some("Tea"), true);
    let step = advance(&timer, Phase::Running, press(Key::Char('q')), span(0, 500_000_000));
    assert_eq!(
        step,
        Ok(Transition { phase: Phase::CancelledByUser, action: Action::Leave(None) })
    );
}

#[test]
fn cancel_wins_over_the_end() {
    let timer = spec(span(10, 0), None, true);
    let step = advance(&timer, Phase::Running, press(Key::Escape), span(11, 0));
    assert_eq!(
        step,
        Ok(Transition { phase: Phase::CancelledByUser, action: Action::Leave(None) })
    );
}

#[test]
fn other_input_does_not_stop_the_countdown() {
    let timer = spec(span(10, 0), None, true);
    for input in [
        Input::Nothing,
        Input::Other,
        press(Key::Char('x')),
        Input::Key { key: Key::Char('q'), kind: KeyKind::Release },
    ] {
        let step = advance(&timer, Phase::Running, input, span(5, 0)).unwrap();
        assert_eq!(step.phase, Phase::Running);
        assert_eq!(
            step.action,
            Action::Draw(FrameState { elapsed: span(5, 0), remaining: span(5, 0), percent: 50 })
        );
    }
}

#[test]
fn end_without_notification() {
    let timer = spec(span(1, 0), None, false);
    assert_eq!(opening_notice(&timer), None);
    assert_eq!(closing_notice(&timer), None);
    let step = advance(&timer, Phase::Running, Input::Nothing, span(1, 0));
    assert_eq!(
        step,
        Ok(Transition { phase: Phase::CompletedNormally, action: Action::Leave(None) })
    );
}

#[test]
fn named_notifications() {
    let timer = spec(span(1, 0), Some("Tea"), true);
    assert_eq!(opening_notice(&timer), Some("Tea has started.".to_string()));
    assert_eq!(closing_notice(&timer), Some("Tea is over!".to_string()));
}

#[test]
fn terminal_failures_abort() {
    let timer = spec(span(10, 0), None, true);
    assert_eq!(
        advance(&timer, Phase::Running, Input::PollFailed, span(1, 0)),
        Err(Error::Terminal("Unable to poll for events".to_string()))
    );
    assert_eq!(
        advance(&timer, Phase::Running, Input::ReadFailed, span(20, 0)),
        Err(Error::Terminal("Unable to read events".to_string()))
    );
}

#[test]
fn final_phases_stay() {
    let timer = spec(span(10, 0), None, true);
    for phase in [Phase::CancelledByUser, Phase::CompletedNormally] {
        for input in [Input::Nothing, press(Key::Char('q')), Input::PollFailed] {
            assert_eq!(
                advance(&timer, phase, input, span(3, 0)),
                Ok(Transition { phase, action: Action::Leave(None) })
            );
        }
    }
}

#[test]
fn empty_countdown_completes_at_once() {
    let timer = spec(span(0, 0), None, true);
    let step = advance(&timer, Phase::Running, Input::Nothing, span(0, 0)).unwrap();
    assert_eq!(step.phase, Phase::CompletedNormally);
    assert_eq!(step.action, Action::Leave(Some("Timer is over!".to_string())));
}

#[test]
fn notification_fields() {
    let mac = notice("Tea is over!", "macos");
    assert_eq!(mac.summary, "Timer");
    assert_eq!(mac.body, "Tea is over!");
    assert_eq!(mac.icon, "terminal");
    assert_eq!(mac.sound, "Boop");
    assert_eq!(notice("x", "linux").sound, "message-new-email");
    assert_eq!(notice("x", "windows").sound, "message-new-email");
    assert_eq!(notice("x", "").sound, "message-new-email");
}
