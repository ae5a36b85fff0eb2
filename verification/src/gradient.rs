use vstd::prelude::*;

verus! {

/// A color as its red, green and blue parts.
#[derive(Clone, Copy, Debug, PartialEq, Eq, Structural)]
pub struct Rgb {
    pub red: u8,
    pub green: u8,
    pub blue: u8,
}

/// How many colors the ramp of the progress bar holds.
pub const GRADIENT_STEPS: usize = 100;

/// The color at the left end of the progress bar.
pub open spec fn ramp_start() -> Rgb {
    Rgb { red: 102, green: 63, blue: 242 }
}

/// The color that the progress bar runs towards on the right.
pub open spec fn ramp_end() -> Rgb {
    Rgb { red: 245, green: 65, blue: 204 }
}

/// The fill of the cells of the progress bar that are not reached yet.
pub open spec fn neutral_fill() -> Rgb {
    Rgb { red: 45, green: 45, blue: 45 }
}

/// The color at the left end of the progress bar.
pub fn start_color() -> (color: Rgb)
    ensures
        color == ramp_start(),
{
    Rgb { red: 102, green: 63, blue: 242 }
}

/// The color that the progress bar runs towards on the right.
pub fn end_color() -> (color: Rgb)
    ensures
        color == ramp_end(),
{
    Rgb { red: 245, green: 65, blue: 204 }
}

/// The fill of the cells of the progress bar that are not reached yet.
pub fn neutral_color() -> (color: Rgb)
    ensures
        color == neutral_fill(),
{
    Rgb { red: 45, green: 45, blue: 45 }
}

/// One part of a color, `step` parts of `steps` on the way from `from` to
/// `to`, rounded down.
pub open spec fn blend(from: u8, to: u8, step: nat, steps: nat) -> nat
    recommends
        step <= steps,
        steps > 0,
{
    ((from * (steps - step) + to * step) / (steps as int)) as nat
}

/// The color `step` parts of `steps` on the way from `from` to `to`.
pub open spec fn ramp_color(from: Rgb, to: Rgb, step: nat, steps: nat) -> Rgb
    recommends
        step <= steps,
        steps > 0,
{
    Rgb {
        red: blend(from.red, to.red, step, steps) as u8,
        green: blend(from.green, to.green, step, steps) as u8,
        blue: blend(from.blue, to.blue, step, steps) as u8,
    }
}

/// The ramp of `steps` colors from `from` towards `to`: the first color is
/// `from`, and `to` would be the color after the last.
pub open spec fn ramp(from: Rgb, to: Rgb, steps: nat) -> Seq<Rgb> {
    Seq::new(steps, |i: int| ramp_color(from, to, i as nat, steps))
}

/// The ramp of colors of the progress bar.
pub open spec fn bar_ramp() -> Seq<Rgb> {
    ramp(ramp_start(), ramp_end(), GRADIENT_STEPS as nat)
}

/// A blended part lies between the two parts it is blended from.
pub proof fn lemma_blend_between(from: u8, to: u8, step: nat, steps: nat)
    requires
        step <= steps,
        steps > 0,
    ensures
        from <= to ==> from <= blend(from, to, step, steps) <= to,
        to <= from ==> to <= blend(from, to, step, steps) <= from,
        blend(from, to, 0, steps) == from,
        blend(from, to, steps, steps) == to,
{
    let sum = from * (steps - step) + to * step;
    assert(from <= to ==> from * steps <= sum <= to * steps) by (nonlinear_arith)
        requires
            sum == from * (steps - step) + to * step,
            step <= steps,
    ;
    assert(to <= from ==> to * steps <= sum <= from * steps) by (nonlinear_arith)
        requires
            sum == from * (steps - step) + to * step,
            step <= steps,
    ;
    assert(from <= to ==> from <= sum / (steps as int) <= to) by (nonlinear_arith)
        requires
            from <= to ==> from * steps <= sum <= to * steps,
            steps > 0,
    ;
    assert(to <= from ==> to <= sum / (steps as int) <= from) by (nonlinear_arith)
        requires
            to <= from ==> to * steps <= sum <= from * steps,
            steps > 0,
    ;
    assert((from * steps) / (steps as int) == from) by (nonlinear_arith)
        requires
            steps > 0,
    ;
    assert((to * steps) / (steps as int) == to) by (nonlinear_arith)
        requires
            steps > 0,
    ;
}

/// One part of a color on the way from `from` to `to`.
fn blend_part(from: u8, to: u8, step: usize, steps: usize) -> (part: u8)
    requires
        step <= steps,
        steps > 0,
    ensures
        part == blend(from, to, step as nat, steps as nat),
{
    let span: u128 = (steps - step) as u128;
    let done: u128 = step as u128;
    proof {
        lemma_blend_between(from, to, step as nat, steps as nat);
        assert(from * span <= 255 * 0x1_0000_0000_0000_0000) by (nonlinear_arith)
            requires
                from <= 255,
                0 <= span <= 0x1_0000_0000_0000_0000,
        ;
        assert(to * done <= 255 * 0x1_0000_0000_0000_0000) by (nonlinear_arith)
            requires
                to <= 255,
                0 <= done <= 0x1_0000_0000_0000_0000,
        ;
    }
    let near: u128 = from as u128 * span;
    let far: u128 = to as u128 * done;
    ((near + far) / steps as u128) as u8
}

/// The ramp of `steps` colors from `from` towards `to`.
pub fn gradient(from: Rgb, to: Rgb, steps: usize) -> (table: Vec<Rgb>)
    ensures
        table@ == ramp(from, to, steps as nat),
{
    let mut table: Vec<Rgb> = Vec::new();
    let mut i: usize = 0;
    while i < steps
        invariant
            i <= steps,
            table@.len() == i,
            forall|k: int| 0 <= k < i ==> #[trigger] table@[k] == ramp_color(from, to, k as nat, steps as nat),
        decreases steps - i,
    {
        let color = Rgb {
            red: blend_part(from.red, to.red, i, steps),
            green: blend_part(from.green, to.green, i, steps),
            blue: blend_part(from.blue, to.blue, i, steps),
        };
        table.push(color);
        i = i + 1;
    }
    table
}

/// The ramp of the progress bar.
pub fn bar_gradient() -> (table: Vec<Rgb>)
    ensures
        table@ == bar_ramp(),
{
    gradient(start_color(), end_color(), GRADIENT_STEPS)
}

} // verus!
