use vstd::prelude::*;
use vstd::string::StringExecFns;
use crate::config::{title_of, title_text, Cli, ClockFormat};
use crate::gradient::{bar_gradient, bar_ramp, neutral_color, neutral_fill, Rgb};
use crate::span::TimeSpan;
use crate::text::{
    all_digits, decimal_text, is_digit, lemma_decimal_text_value, push_decimal, push_two_digits,
    two_digit_text,
};

verus! {

/// The row of the title.
pub const TITLE_ROW: u16 = 0;

/// The row that says when the countdown began.
pub const STARTED_ROW: u16 = 1;

/// The row that says how much time is left.
pub const REMAINING_ROW: u16 = 2;

/// The row of the progress bar.
pub const BAR_ROW: u16 = 3;

/// A time of day, as a clock on the wall shows it.
#[derive(Clone, Copy, Debug, PartialEq, Eq, Structural)]
pub struct WallClock {
    pub hour: u32,
    pub minute: u32,
    pub second: u32,
}

impl WallClock {
    /// A time of day has hours below 24 and minutes and seconds below 60.
    pub open spec fn wf(self) -> bool {
        self.hour < 24 && self.minute < 60 && self.second < 60
    }
}

/// The hour of a clock that counts to twelve: 12 at midnight and at noon.
pub open spec fn hour_of_twelve(hour: nat) -> nat {
    if hour % 12 == 0 {
        12
    } else {
        hour % 12
    }
}

/// Hours, minutes and seconds in two digits each, with colons between.
pub open spec fn colon_text(hour: nat, minute: nat, second: nat) -> Seq<char> {
    two_digit_text(hour) + seq![':'] + two_digit_text(minute) + seq![':'] + two_digit_text(second)
}

/// A time of day as text: `23:59:59` on a clock of twenty-four hours,
/// `11:59:59 PM` on one of twelve.
pub open spec fn clock_face(time: WallClock, format: ClockFormat) -> Seq<char> {
    match format {
        ClockFormat::TwentyFourHour => colon_text(
            time.hour as nat,
            time.minute as nat,
            time.second as nat,
        ),
        ClockFormat::TwelveHour => colon_text(
            hour_of_twelve(time.hour as nat),
            time.minute as nat,
            time.second as nat,
        ) + seq![' ', if time.hour < 12 { 'A' } else { 'P' }, 'M'],
    }
}

/// The pattern by which a time of day is written in a format.
pub fn clock_pattern(format: ClockFormat) -> (pattern: &'static str)
    ensures
        format == ClockFormat::TwelveHour ==> pattern@ == "%r"@,
        format == ClockFormat::TwentyFourHour ==> pattern@ == "%T"@,
{
    match format {
        ClockFormat::TwelveHour => "%r",
        ClockFormat::TwentyFourHour => "%T",
    }
}

/// `chrono::NaiveTime::from_hms_opt`, then `NaiveTime::format` with one of
/// the patterns `%T` and `%r`, written out as text. `%T` writes hour, minute
/// and second in two digits each with colons between them; `%r` writes the
/// hour of a clock of twelve in their place and adds a space and `AM` or `PM`.
/// The time must be a time of day, or there is no `NaiveTime` to format.
#[verifier::external_body]
fn write_clock(time: WallClock, pattern: &str) -> (text: String)
    requires
        time.wf(),
        pattern@ == "%T"@ || pattern@ == "%r"@,
    ensures
        pattern@ == "%T"@ ==> text@ == clock_face(time, ClockFormat::TwentyFourHour),
        pattern@ == "%r"@ ==> text@ == clock_face(time, ClockFormat::TwelveHour),
{
    match chrono::NaiveTime::from_hms_opt(time.hour, time.minute, time.second) {
        Some(at) => at.format(pattern).to_string(),
        None => String::new(),
    }
}

/// A time of day as text in the given format.
pub fn clock_text(time: WallClock, format: ClockFormat) -> (text: String)
    requires
        time.wf(),
    ensures
        text@ == clock_face(time, format),
{
    write_clock(time, clock_pattern(format))
}

/// A part of a second in hundredths, rounded to the nearest; a part that lies
/// in the middle of two goes to the even one.
pub open spec fn hundredths(nanos: nat) -> nat {
    let whole = nanos / 10_000_000;
    let rest = nanos % 10_000_000;
    if rest > 5_000_000 || (rest == 5_000_000 && whole % 2 == 1) {
        whole + 1
    } else {
        whole
    }
}

/// Less than a second as text, with two places behind the point: `0.37s`.
pub open spec fn fraction_text(nanos: nat) -> Seq<char> {
    let parts = hundredths(nanos);
    decimal_text(parts / 100) + seq!['.'] + two_digit_text(parts % 100) + seq!['s']
}

/// A second or more as text, in hours, minutes and seconds: `01h:30m:00s`.
/// The hours are not turned into days.
pub open spec fn long_text(secs: nat) -> Seq<char> {
    two_digit_text(secs / 3600) + seq!['h', ':'] + two_digit_text(secs / 60 % 60) + seq!['m', ':']
        + two_digit_text(secs % 60) + seq!['s']
}

/// The time that is left as text: in hundredths of a second below one second,
/// in hours, minutes and seconds from one second on.
pub open spec fn remaining_text(nanos: nat) -> Seq<char> {
    if nanos < 1_000_000_000 {
        fraction_text(nanos)
    } else {
        long_text(nanos / 1_000_000_000)
    }
}

/// The time that is left as text.
pub fn format_remaining(left: TimeSpan) -> (text: String)
    requires
        left.wf(),
    ensures
        text@ == remaining_text(left.total_nanos()),
{
    let mut text = String::new();
    if left.secs == 0 {
        let whole: u32 = left.nanos / 10_000_000;
        let rest: u32 = left.nanos % 10_000_000;
        let parts: u32 = if rest > 5_000_000 || (rest == 5_000_000 && whole % 2 == 1) {
            whole + 1
        } else {
            whole
        };
        push_decimal(&mut text, (parts / 100) as u64);
        text.push('.');
        push_two_digits(&mut text, (parts % 100) as u64);
        text.push('s');
    } else {
        let secs = left.secs;
        assert(left.total_nanos() / 1_000_000_000 == secs) by (nonlinear_arith)
            requires
                left.total_nanos() == secs * 1_000_000_000 + left.nanos,
                left.nanos < 1_000_000_000,
        ;
        push_two_digits(&mut text, secs / 3600);
        text.push('h');
        text.push(':');
        push_two_digits(&mut text, secs / 60 % 60);
        text.push('m');
        text.push(':');
        push_two_digits(&mut text, secs % 60);
        text.push('s');
    }
    text
}

/// Two digits at least are digits only.
proof fn lemma_two_digit_text(n: nat)
    ensures
        all_digits(two_digit_text(n)),
        two_digit_text(n).len() >= 2,
{
    if n >= 10 {
        lemma_decimal_text_value(n / 10);
    }
}

/// The text of the time that is left changes its style at one second and
/// nowhere else: below one second, and only there, it holds a point; from one
/// second on, and only there, it holds hours. It never holds a minus sign.
pub proof fn lemma_remaining_text_style(nanos: nat)
    ensures
        nanos < 1_000_000_000 <==> remaining_text(nanos).contains('.'),
        nanos >= 1_000_000_000 <==> remaining_text(nanos).contains('h'),
        !remaining_text(nanos).contains('-'),
{
    let text = remaining_text(nanos);
    if nanos < 1_000_000_000 {
        let parts = hundredths(nanos);
        let whole = decimal_text(parts / 100);
        let cents = two_digit_text(parts % 100);
        lemma_two_digit_text(parts % 100);
        assert(text[whole.len() as int] == '.');
        assert forall|i: int| 0 <= i < text.len() implies is_digit(#[trigger] text[i]) || text[i]
            == '.' || text[i] == 's' by {}
    } else {
        let secs = nanos / 1_000_000_000;
        let hours = two_digit_text(secs / 3600);
        let minutes = two_digit_text(secs / 60 % 60);
        let seconds = two_digit_text(secs % 60);
        lemma_two_digit_text(secs / 3600);
        lemma_two_digit_text(secs / 60 % 60);
        lemma_two_digit_text(secs % 60);
        assert(text[hours.len() as int] == 'h');
        assert forall|i: int| 0 <= i < text.len() implies is_digit(#[trigger] text[i]) || text[i]
            == 'h' || text[i] == 'm' || text[i] == 's' || text[i] == ':' by {}
    }
}

/// A percentage with what lies above 100 cut off.
pub open spec fn clamped(percent: nat) -> nat {
    if percent > 100 {
        100
    } else {
        percent
    }
}

/// How many cells of a bar of `width` cells are filled at `percent`.
pub open spec fn filled_cells(percent: nat, width: nat) -> nat {
    clamped(percent) * width / 100
}

/// The place in a table of `len` colors from which the cell at `cell` of a
/// bar of `width` cells takes its color: the cell's place along the bar,
/// brought to the length of the table.
pub open spec fn color_index(cell: nat, width: nat, len: nat) -> nat
    recommends
        width > 0,
{
    cell * len / width
}

/// The colors of a bar of `width` cells at `percent`: the filled cells take
/// theirs from the table by their place, the others have the neutral fill.
pub open spec fn bar_colors(table: Seq<Rgb>, percent: nat, width: nat) -> Seq<Rgb> {
    Seq::new(
        width,
        |cell: int|
            if cell < filled_cells(percent, width) {
                table[color_index(cell as nat, width, table.len()) as int]
            } else {
                neutral_fill()
            },
    )
}

/// The text of the label at the right end of the bar.
pub open spec fn label_text(percent: nat) -> Seq<char> {
    decimal_text(clamped(percent)) + seq!['%']
}

/// The column at which the label begins, so that it ends with the row; the
/// first column where the row is shorter than the label.
pub open spec fn label_column(percent: nat, width: nat) -> nat {
    if width >= label_text(percent).len() {
        (width - label_text(percent).len()) as nat
    } else {
        0
    }
}

/// No more cells are filled than the bar has, and every filled cell takes its
/// color from inside the table, whatever the percentage and the width.
pub proof fn lemma_fill_in_bounds(cell: nat, percent: nat, width: nat, len: nat)
    requires
        len > 0,
    ensures
        filled_cells(percent, width) <= width,
        width == 0 ==> filled_cells(percent, width) == 0,
        percent >= 100 ==> filled_cells(percent, width) == width,
        cell < filled_cells(percent, width) ==> color_index(cell, width, len) < len,
{
    let part = clamped(percent);
    assert(part * width / 100 <= width) by (nonlinear_arith)
        requires
            part <= 100,
    ;
    if cell < filled_cells(percent, width) {
        assert(cell * len / width < len) by (nonlinear_arith)
            requires
                cell < width,
                len > 0,
        ;
    }
}

/// What one frame of the countdown paints: three rows of text, and the row of
/// the progress bar with its label.
#[derive(Clone, Debug, PartialEq, Eq)]
pub struct Painted {
    /// The title, on `TITLE_ROW`, in bold.
    pub title: String,
    /// When the countdown began, on `STARTED_ROW`.
    pub started_at: String,
    /// How much time is left, on `REMAINING_ROW`.
    pub time_left: String,
    /// The percentage, written on `BAR_ROW` over the end of the bar.
    pub label: String,
    /// The column at which the label begins.
    pub label_column: u16,
    /// The background color of each cell of `BAR_ROW`, from the left.
    pub bar: Vec<Rgb>,
}

/// Whether `painted` is the painting, on a row of `width` cells, of a
/// countdown with these values: each text as it is composed, the label at the
/// right end of the row, and the bar colored from `table`.
pub open spec fn is_painting(
    painted: Painted,
    table: Seq<Rgb>,
    percent: u16,
    left: TimeSpan,
    start: WallClock,
    name: Option<String>,
    format: ClockFormat,
    width: u16,
) -> bool {
    &&& painted.title@ == title_of(name)
    &&& painted.started_at@ == "Started at: "@ + clock_face(start, format)
    &&& painted.time_left@ == "Time left: "@ + remaining_text(left.total_nanos())
    &&& painted.label@ == label_text(percent as nat)
    &&& painted.label_column == label_column(percent as nat, width as nat)
    &&& painted.bar@ == bar_colors(table, percent as nat, width as nat)
}

/// The countdown as it is drawn in one frame.
#[derive(Clone, Debug, PartialEq, Eq)]
pub struct Timer {
    /// The colors along the bar.
    pub gradient: Vec<Rgb>,
    /// The part of the countdown that is done, in percent.
    pub percent: u16,
    /// The time until the countdown is over.
    pub time_left: TimeSpan,
    /// When the countdown began.
    pub start: WallClock,
    /// The name of the timer, if it has one.
    pub name: Option<String>,
    /// Whether the time of the start is shown on a clock of twelve hours.
    pub format_12h: bool,
}

impl Timer {
    /// A timer can be drawn when it has colors for its bar, and its times are
    /// well formed.
    pub open spec fn wf(self) -> bool {
        self.gradient@.len() > 0 && self.time_left.wf() && self.start.wf()
    }

    /// The format in which the time of the start is shown.
    pub open spec fn clock_format(self) -> ClockFormat {
        if self.format_12h {
            ClockFormat::TwelveHour
        } else {
            ClockFormat::TwentyFourHour
        }
    }

    /// Whether `painted` is what this timer paints on a row of `width` cells.
    pub open spec fn paints(self, width: u16, painted: Painted) -> bool {
        is_painting(
            painted,
            self.gradient@,
            self.percent,
            self.time_left,
            self.start,
            self.name,
            self.clock_format(),
            width,
        )
    }

    /// Paints the timer on a row of `width` cells.
    pub fn render(self, width: u16) -> (painted: Painted)
        requires
            self.wf(),
        ensures
            self.paints(width, painted),
    {
        let title = title_text(&self.name);
        let format = if self.format_12h {
            ClockFormat::TwelveHour
        } else {
            ClockFormat::TwentyFourHour
        };
        let clock = clock_text(self.start, format);
        let started_at = String::from_str("Started at: ").concat(clock.as_str());
        let left = format_remaining(self.time_left);
        let time_left = String::from_str("Time left: ").concat(left.as_str());
        let percent: u16 = if self.percent > 100 {
            100
        } else {
            self.percent
        };
        let mut label = String::new();
        push_decimal(&mut label, percent as u64);
        label.push('%');
        let label_len: u16 = if percent < 10 {
            2
        } else if percent < 100 {
            3
        } else {
            4
        };
        proof {
            reveal_with_fuel(decimal_text, 3);
        }
        let column: u16 = if width >= label_len {
            width - label_len
        } else {
            0
        };
        let bar = paint_bar(&self.gradient, percent, width);
        assert(label@ == label_text(self.percent as nat));
        Painted { title, started_at, time_left, label, label_column: column, bar }
    }
}

/// The background colors of a bar of `width` cells at `percent`.
pub fn paint_bar(table: &Vec<Rgb>, percent: u16, width: u16) -> (bar: Vec<Rgb>)
    requires
        table@.len() > 0,
    ensures
        bar@ == bar_colors(table@, percent as nat, width as nat),
{
    let part: u32 = if percent > 100 {
        100
    } else {
        percent as u32
    };
    assert(part * width <= 100 * 65535) by (nonlinear_arith)
        requires
            part <= 100,
            width <= 65535,
    ;
    let filled: u32 = part * (width as u32) / 100;
    let len: usize = table.len();
    let mut bar: Vec<Rgb> = Vec::new();
    let mut cell: u16 = 0;
    while cell < width
        invariant
            cell <= width,
            len == table@.len(),
            len > 0,
            filled == filled_cells(percent as nat, width as nat),
            bar@.len() == cell,
            forall|k: int| 0 <= k < cell ==> #[trigger] bar@[k] == bar_colors(table@, percent as nat, width as nat)[k],
        decreases width - cell,
    {
        let color = if (cell as u32) < filled {
            proof {
                lemma_fill_in_bounds(cell as nat, percent as nat, width as nat, len as nat);
                assert(cell * len <= 65535 * 0x1_0000_0000_0000_0000) by (nonlinear_arith)
                    requires
                        cell <= 65535,
                        len <= 0x1_0000_0000_0000_0000,
                ;
            }
            let place: u128 = cell as u128 * len as u128 / width as u128;
            table[place as usize]
        } else {
            neutral_color()
        };
        bar.push(color);
        cell = cell + 1;
    }
    bar
}

/// Paints one frame of the countdown on a row of `width` cells: the bar runs
/// along the fixed ramp of colors, and name and clock are those of the command
/// line.
pub fn draw_timer(
    width: u16,
    percent: u16,
    time_left: TimeSpan,
    started_at: WallClock,
    cli: &Cli,
) -> (painted: Painted)
    requires
        time_left.wf(),
        started_at.wf(),
    ensures
        is_painting(
            painted,
            bar_ramp(),
            percent,
            time_left,
            started_at,
            cli.name,
            ClockFormat::of_word(cli.format@),
            width,
        ),
{
    let timer = Timer {
        gradient: bar_gradient(),
        percent,
        time_left,
        start: started_at,
        name: cli.name.clone(),
        format_12h: ClockFormat::from_word(cli.format.as_str()).is_twelve_hour(),
    };
    timer.render(width)
}

} // verus!
