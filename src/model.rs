use vstd::prelude::*;
use vstd::string::*;
use crate::common::Orientation;
use vstd::math::{max, min};
use crate::decimal::{
    fixed_text, lemma_text_round_trip, parsed, text_of, Decimal, ParseError, UNITS_PER_WHOLE,
};

verus! {

/// Why a slider configuration is refused.
#[derive(Clone, Copy, PartialEq, Eq, Structural, Debug)]
pub enum ConfigError {
    /// `min` is not below `max`.
    EmptyRange,
    /// The step is negative.
    NegativeStep,
}

/// The bounds, step and orientation of a slider. A step of zero means a
/// continuous slider, with no ticks.
#[derive(Clone, PartialEq, Debug)]
pub struct SliderConfig {
    pub min: Decimal,
    pub max: Decimal,
    pub step: Decimal,
    pub orientation: Orientation,
}

/// How many ticks lie at `min`, `min + step`, ... up to `max`: none unless
/// the step is positive.
pub open spec fn tick_count(min: int, max: int, step: int) -> nat {
    if step > 0 && min <= max {
        ((max - min) / step + 1) as nat
    } else {
        0
    }
}

/// The tick positions `min`, `min + step`, `min + 2 * step`, ... that do not pass `max`.
pub open spec fn ticks(min: int, max: int, step: int) -> Seq<int> {
    Seq::new(tick_count(min, max, step), |i: int| min + i * step)
}

impl SliderConfig {
    /// A configuration is usable when its range is not empty and its step
    /// is not negative.
    pub open spec fn wf(&self) -> bool {
        self.min@ < self.max@ && self.step@ >= 0
    }

    /// A configuration, refused when `min` is not below `max` or the step is negative.
    pub fn new(min: Decimal, max: Decimal, step: Decimal, orientation: Orientation) -> (r: Result<
        SliderConfig,
        ConfigError,
    >)
        ensures
            min@ >= max@ ==> r == Err::<SliderConfig, ConfigError>(ConfigError::EmptyRange),
            min@ < max@ && step@ < 0 ==> r == Err::<SliderConfig, ConfigError>(
                ConfigError::NegativeStep,
            ),
            min@ < max@ && step@ >= 0 ==> r == Ok::<SliderConfig, ConfigError>(
                (SliderConfig { min, max, step, orientation }),
            ),
    {
        if min.units >= max.units {
            Err(ConfigError::EmptyRange)
        } else if step.units < 0 {
            Err(ConfigError::NegativeStep)
        } else {
            Ok(SliderConfig { min, max, step, orientation })
        }
    }

    /// Whether the slider moves freely, with no step.
    pub fn is_continuous(&self) -> (r: bool)
        ensures
            r == (self.step@ == 0),
    {
        self.step.units == 0
    }

    /// The tick positions from `min` by `step` up to `max`; none for a
    /// step that is not positive.
    pub fn tick_values(&self) -> (r: Vec<Decimal>)
        ensures
            r@.map_values(|d: Decimal| d@) == ticks(self.min@, self.max@, self.step@),
    {
        let mut out: Vec<Decimal> = Vec::new();
        let lo = self.min.units as i128;
        let hi = self.max.units as i128;
        let step = self.step.units as i128;
        if step > 0 {
            let mut current: i128 = lo;
            while current <= hi
                invariant
                    step > 0,
                    lo == self.min@,
                    hi == self.max@,
                    step == self.step@,
                    current == lo + out@.len() * step,
                    lo <= current,
                    out@.len() > 0 ==> current <= hi + step,
                    out@.len() > 0 ==> lo + (out@.len() - 1) * step <= hi,
                    forall|i: int| 0 <= i < out@.len() ==> #[trigger] out@[i]@ == lo + i * step,
                decreases hi + step - current,
            {
                let ghost before = out@.len() as int;
                out.push(Decimal { units: current as i64 });
                current = current + step;
                assert((before + 1) * step == before * step + step) by (nonlinear_arith);
            }
            let ghost len = out@.len() as int;
            proof {
                if lo <= hi {
                    let span: int = hi - lo;
                    let st: int = step as int;
                    assert(len >= 1);
                    assert((len - 1) * st <= span < len * st);
                    assert(span / st == len - 1) by (nonlinear_arith)
                        requires
                            (len - 1) * st <= span,
                            span < len * st,
                            st > 0,
                            span >= 0,
                    ;
                } else {
                    assert(len == 0);
                }
            }
        }
        assert(out@.map_values(|d: Decimal| d@) =~= ticks(self.min@, self.max@, self.step@));
        out
    }

    /// The labels of the steps: each tick position rounded to a whole
    /// number, on a tie to even.
    pub fn step_labels(&self) -> (r: Vec<String>)
        ensures
            r@.len() == ticks(self.min@, self.max@, self.step@).len(),
            forall|i: int|
                0 <= i < r@.len() ==> #[trigger] r@[i]@ == fixed_text(
                    ticks(self.min@, self.max@, self.step@)[i],
                    0,
                ),
    {
        let positions = self.tick_values();
        let ghost t = ticks(self.min@, self.max@, self.step@);
        assert(positions@.len() == t.len()) by {
            assert(positions@.map_values(|d: Decimal| d@).len() == positions@.len());
        }
        let mut labels: Vec<String> = Vec::new();
        let mut i: usize = 0;
        while i < positions.len()
            invariant
                i <= positions@.len(),
                positions@.len() == t.len(),
                positions@.map_values(|d: Decimal| d@) == t,
                labels@.len() == i,
                forall|j: int| 0 <= j < i ==> #[trigger] labels@[j]@ == fixed_text(t[j], 0),
            decreases positions@.len() - i,
        {
            assert(positions@[i as int]@ == t[i as int]) by {
                assert(positions@.map_values(|d: Decimal| d@)[i as int] == positions@[i as int]@);
            }
            labels.push(positions[i].to_fixed(0));
            i = i + 1;
        }
        labels
    }

    /// The value of the range input's `step` attribute: `any` for a
    /// continuous slider, else the step's text.
    pub fn step_attribute(&self) -> (r: String)
        ensures
            r@ == (if self.step@ == 0 {
                "any"@
            } else {
                text_of(self.step@)
            }),
    {
        if self.step.units == 0 {
            String::from_str("any")
        } else {
            self.step.to_text()
        }
    }
}

/// The values of one or two handles.
#[derive(Clone, Copy, PartialEq, Eq, Structural, Debug)]
pub enum SliderState {
    /// One handle.
    Single { value: Decimal },
    /// Two handles: the start and the end of a range.
    Double { primary: Decimal, secondary: Decimal },
}

/// What a committed change tells the slider's owner.
#[derive(Clone, Copy, PartialEq, Eq, Structural, Debug)]
pub enum Notification {
    /// The range `(primary, secondary)` of a two-handle slider.
    RangeChanged(Decimal, Decimal),
    /// The new value of the handle that moved.
    ValueChanged(Decimal),
}

/// The state when the slider is first shown: the first handle at `value`,
/// else at the start of `range`, else at `min`; the second handle, if
/// any, at the end of `range`, else at `max`.
pub open spec fn initial_state(
    config: SliderConfig,
    double: bool,
    value: Option<Decimal>,
    range: Option<(Decimal, Decimal)>,
) -> SliderState {
    let bounds = match range {
        Some(r) => r,
        None => (config.min, config.max),
    };
    let first = match value {
        Some(v) => v,
        None => bounds.0,
    };
    if double {
        SliderState::Double { primary: first, secondary: bounds.1 }
    } else {
        SliderState::Single { value: first }
    }
}

/// The state after the first handle is moved to `x`: taken as it is on a
/// one-handle slider, kept from passing the second handle on a two-handle one.
pub open spec fn primary_committed(state: SliderState, x: Decimal) -> SliderState {
    match state {
        SliderState::Single { .. } => SliderState::Single { value: x },
        SliderState::Double { primary, secondary } => SliderState::Double {
            primary: if x@ <= secondary@ {
                x
            } else {
                secondary
            },
            secondary,
        },
    }
}

/// The state after the second handle is moved to `x`: kept from passing
/// the first handle; a one-handle slider has no second handle and stays.
pub open spec fn secondary_committed(state: SliderState, x: Decimal) -> SliderState {
    match state {
        SliderState::Single { .. } => state,
        SliderState::Double { primary, secondary } => SliderState::Double {
            primary,
            secondary: if x@ >= primary@ {
                x
            } else {
                primary
            },
        },
    }
}

/// The notifications after the first handle was committed, given the new state.
pub open spec fn primary_notices(after: SliderState) -> Seq<Notification> {
    match after {
        SliderState::Single { value } => seq![Notification::ValueChanged(value)],
        SliderState::Double { primary, secondary } => seq![
            Notification::RangeChanged(primary, secondary),
            Notification::ValueChanged(primary),
        ],
    }
}

/// The notifications after the second handle was committed, given the new state.
pub open spec fn secondary_notices(after: SliderState) -> Seq<Notification> {
    match after {
        SliderState::Single { .. } => Seq::empty(),
        SliderState::Double { primary, secondary } => seq![
            Notification::RangeChanged(primary, secondary),
            Notification::ValueChanged(secondary),
        ],
    }
}

impl SliderState {
    /// The state when the slider is first shown.
    pub fn new(
        config: &SliderConfig,
        double: bool,
        value: Option<Decimal>,
        range: Option<(Decimal, Decimal)>,
    ) -> (r: SliderState)
        ensures
            r == initial_state(*config, double, value, range),
    {
        let bounds = match range {
            Some(r) => r,
            None => (config.min, config.max),
        };
        let first = match value {
            Some(v) => v,
            None => bounds.0,
        };
        if double {
            SliderState::Double { primary: first, secondary: bounds.1 }
        } else {
            SliderState::Single { value: first }
        }
    }

    /// Whether the slider has two handles.
    pub fn is_double(&self) -> (r: bool)
        ensures
            r == (*self is Double),
    {
        match self {
            SliderState::Single { .. } => false,
            SliderState::Double { .. } => true,
        }
    }

    /// The value of the first handle.
    pub fn primary(&self) -> (r: Decimal)
        ensures
            r == (match *self {
                SliderState::Single { value } => value,
                SliderState::Double { primary, .. } => primary,
            }),
    {
        match self {
            SliderState::Single { value } => *value,
            SliderState::Double { primary, .. } => *primary,
        }
    }

    /// The value of the second handle, on a two-handle slider.
    pub fn secondary(&self) -> (r: Option<Decimal>)
        ensures
            r == (match *self {
                SliderState::Single { .. } => None,
                SliderState::Double { secondary, .. } => Some(secondary),
            }),
    {
        match self {
            SliderState::Single { .. } => None,
            SliderState::Double { secondary, .. } => Some(*secondary),
        }
    }

    /// Moves the first handle to `x` and returns what to notify.
    pub fn commit_primary(&mut self, x: Decimal) -> (r: Vec<Notification>)
        ensures
            *final(self) == primary_committed(*old(self), x),
            r@ == primary_notices(*final(self)),
    {
        let after = match *self {
            SliderState::Single { .. } => SliderState::Single { value: x },
            SliderState::Double { primary, secondary } => SliderState::Double {
                primary: if x.units <= secondary.units {
                    x
                } else {
                    secondary
                },
                secondary,
            },
        };
        *self = after;
        let mut out: Vec<Notification> = Vec::new();
        match after {
            SliderState::Single { value } => {
                out.push(Notification::ValueChanged(value));
            },
            SliderState::Double { primary, secondary } => {
                out.push(Notification::RangeChanged(primary, secondary));
                out.push(Notification::ValueChanged(primary));
            },
        }
        assert(out@ =~= primary_notices(after));
        out
    }

    /// Moves the second handle to `x` and returns what to notify.
    pub fn commit_secondary(&mut self, x: Decimal) -> (r: Vec<Notification>)
        ensures
            *final(self) == secondary_committed(*old(self), x),
            r@ == secondary_notices(*final(self)),
    {
        let after = match *self {
            SliderState::Single { value } => SliderState::Single { value },
            SliderState::Double { primary, secondary } => SliderState::Double {
                primary,
                secondary: if x.units >= primary.units {
                    x
                } else {
                    primary
                },
            },
        };
        *self = after;
        let mut out: Vec<Notification> = Vec::new();
        match after {
            SliderState::Single { .. } => {},
            SliderState::Double { primary, secondary } => {
                out.push(Notification::RangeChanged(primary, secondary));
                out.push(Notification::ValueChanged(secondary));
            },
        }
        assert(out@ =~= secondary_notices(after));
        out
    }

    /// Handles a raw input value for the first handle. Text that is no
    /// decimal number changes nothing and notifies nothing.
    pub fn set_primary(&mut self, raw: &str) -> (r: Result<Vec<Notification>, ParseError>)
        ensures
            match parsed(raw@) {
                Ok(x) => *final(self) == primary_committed(*old(self), x) && r is Ok && r->Ok_0@
                    == primary_notices(*final(self)),
                Err(e) => *final(self) == *old(self) && r == Err::<Vec<Notification>, ParseError>(e),
            },
    {
        match Decimal::parse(raw) {
            Ok(x) => Ok(self.commit_primary(x)),
            Err(e) => Err(e),
        }
    }

    /// Handles a raw input value for the second handle. Text that is no
    /// decimal number changes nothing and notifies nothing.
    pub fn set_secondary(&mut self, raw: &str) -> (r: Result<Vec<Notification>, ParseError>)
        ensures
            match parsed(raw@) {
                Ok(x) => *final(self) == secondary_committed(*old(self), x) && r is Ok && r->Ok_0@
                    == secondary_notices(*final(self)),
                Err(e) => *final(self) == *old(self) && r == Err::<Vec<Notification>, ParseError>(e),
            },
    {
        match Decimal::parse(raw) {
            Ok(x) => Ok(self.commit_secondary(x)),
            Err(e) => Err(e),
        }
    }
}

/// Which way a keyboard step moves a handle.
#[derive(Clone, Copy, PartialEq, Eq, Structural, Debug)]
pub enum Direction {
    Increase,
    Decrease,
}

/// The direction that a key name asks for: the left and down arrows
/// decrease, the right and up arrows increase, other keys ask for none.
pub open spec fn key_direction(key: Seq<char>) -> Option<Direction> {
    if key == "ArrowLeft"@ || key == "ArrowDown"@ {
        Some(Direction::Decrease)
    } else if key == "ArrowRight"@ || key == "ArrowUp"@ {
        Some(Direction::Increase)
    } else {
        None
    }
}

/// `v` brought into `[lo, hi]`.
pub open spec fn clamp(v: int, lo: int, hi: int) -> int {
    if v < lo {
        lo
    } else if v > hi {
        hi
    } else {
        v
    }
}

/// `current` moved one `step` in `direction`.
pub open spec fn stepped(current: int, direction: Direction, step: int) -> int {
    match direction {
        Direction::Increase => current + step,
        Direction::Decrease => current - step,
    }
}

/// Where a key press moves a handle whose input reads `raw`: text that is
/// no decimal number counts as zero, a key that is no arrow moves nothing,
/// and the result is kept in `[min, max]`.
pub open spec fn keyboard_target(raw: Seq<char>, key: Seq<char>, step: int, min: int, max: int) -> int {
    let current = match parsed(raw) {
        Ok(x) => x@,
        Err(_) => 0,
    };
    match key_direction(key) {
        Some(d) => clamp(stepped(current, d, step), min, max),
        None => clamp(current, min, max),
    }
}

/// The fill of the track, in units of a percent: how far `value` lies from
/// `min` towards `max`, times a hundred, rounded toward zero.
pub open spec fn fill_units(value: int, min: int, max: int) -> int {
    let num = (value - min) * 100 * UNITS_PER_WHOLE;
    let den = max - min;
    if num >= 0 {
        num / den
    } else {
        -((-num) / den)
    }
}

fn same_text(a: &str, b: &str) -> (r: bool)
    ensures
        r == (a@ == b@),
{
    String::from_str(a) == String::from_str(b)
}

impl Direction {
    /// The direction that a key name asks for, if any.
    pub fn from_key(key: &str) -> (r: Option<Direction>)
        ensures
            r == key_direction(key@),
    {
        if same_text(key, "ArrowLeft") || same_text(key, "ArrowDown") {
            Some(Direction::Decrease)
        } else if same_text(key, "ArrowRight") || same_text(key, "ArrowUp") {
            Some(Direction::Increase)
        } else {
            None
        }
    }
}

/// `v` brought into `[lo, hi]`.
fn clamp_units(v: i128, lo: i64, hi: i64) -> (r: i64)
    requires
        lo <= hi,
    ensures
        r == clamp(v as int, lo as int, hi as int),
{
    if v < lo as i128 {
        lo
    } else if v > hi as i128 {
        hi
    } else {
        v as i64
    }
}

/// One keyboard step from `current` in `direction`, kept in `[min, max]`.
pub fn apply_keyboard_step(
    current: Decimal,
    direction: Direction,
    step: Decimal,
    min: Decimal,
    max: Decimal,
) -> (r: Decimal)
    requires
        min@ <= max@,
    ensures
        r@ == clamp(stepped(current@, direction, step@), min@, max@),
{
    let moved: i128 = match direction {
        Direction::Increase => current.units as i128 + step.units as i128,
        Direction::Decrease => current.units as i128 - step.units as i128,
    };
    Decimal { units: clamp_units(moved, min.units, max.units) }
}

/// Where a key press moves a handle whose input reads `raw`.
pub fn keyboard_value(raw: &str, key: &str, step: Decimal, min: Decimal, max: Decimal) -> (r:
    Decimal)
    requires
        min@ <= max@,
    ensures
        r@ == keyboard_target(raw@, key@, step@, min@, max@),
{
    let current = match Decimal::parse(raw) {
        Ok(x) => x,
        Err(_) => Decimal { units: 0 },
    };
    match Direction::from_key(key) {
        Some(d) => apply_keyboard_step(current, d, step, min, max),
        None => Decimal { units: clamp_units(current.units as i128, min.units, max.units) },
    }
}

/// How much of the track is filled for `value`, in percent; `None` when
/// the percentage is too large in magnitude to hold.
pub fn fill_percent(value: Decimal, min: Decimal, max: Decimal) -> (r: Option<Decimal>)
    requires
        min@ < max@,
    ensures
        i64::MIN <= fill_units(value@, min@, max@) <= i64::MAX ==> r == Some(
            Decimal { units: fill_units(value@, min@, max@) as i64 },
        ),
        !(i64::MIN <= fill_units(value@, min@, max@) <= i64::MAX) ==> r is None,
{
    let diff: i128 = value.units as i128 - min.units as i128;
    assert(-0x1_0000_0000_0000_0000 <= diff <= 0x1_0000_0000_0000_0000);
    let num: i128 = diff * 100_000_000;
    assert(num == (value@ - min@) * 100 * UNITS_PER_WHOLE);
    let den: i128 = max.units as i128 - min.units as i128;
    let q: i128 = if num >= 0 {
        (num as u128 / den as u128) as i128
    } else {
        0 - ((0 - num) as u128 / den as u128) as i128
    };
    if i64::MIN as i128 <= q && q <= i64::MAX as i128 {
        Some(Decimal { units: q as i64 })
    } else {
        None
    }
}

/// A value's own text, read back, is that value.
pub proof fn lemma_text_parses_back(v: Decimal)
    ensures
        parsed(text_of(v@)) == Ok::<Decimal, ParseError>(v),
{
    lemma_text_round_trip(v@);
}

/// On a one-handle slider, setting the handle from the text of any value
/// `v` makes the handle `v` and notifies the value `v` exactly once.
pub proof fn lemma_single_set_from_text(value: Decimal, v: Decimal)
    ensures
        parsed(text_of(v@)) == Ok::<Decimal, ParseError>(v),
        primary_committed(SliderState::Single { value }, v) == (SliderState::Single { value: v }),
        primary_notices(primary_committed(SliderState::Single { value }, v)) == seq![
            Notification::ValueChanged(v),
        ],
{
    lemma_text_parses_back(v);
}

/// On a two-handle slider, setting the first handle from the text of `x`
/// puts it at the smaller of `x` and the second handle, which stays.
pub proof fn lemma_double_primary_from_text(primary: Decimal, secondary: Decimal, x: Decimal)
    ensures
        parsed(text_of(x@)) == Ok::<Decimal, ParseError>(x),
        primary_committed(SliderState::Double { primary, secondary }, x) matches SliderState::Double {
            primary: p,
            secondary: s,
        } && p@ == min(x@, secondary@) && s == secondary,
{
    lemma_text_parses_back(x);
}

/// On a two-handle slider, setting the second handle from the text of `x`
/// puts it at the larger of `x` and the first handle, which stays.
pub proof fn lemma_double_secondary_from_text(primary: Decimal, secondary: Decimal, x: Decimal)
    ensures
        parsed(text_of(x@)) == Ok::<Decimal, ParseError>(x),
        secondary_committed(SliderState::Double { primary, secondary }, x) matches SliderState::Double {
            primary: p,
            secondary: s,
        } && s@ == max(x@, primary@) && p == primary,
{
    lemma_text_parses_back(x);
}

/// Setting the first handle twice to the same value notifies twice, with
/// the same notifications each time, and the second time changes nothing.
pub proof fn lemma_primary_repeat(state: SliderState, x: Decimal)
    ensures
        primary_committed(primary_committed(state, x), x) == primary_committed(state, x),
        primary_notices(primary_committed(primary_committed(state, x), x)) == primary_notices(
            primary_committed(state, x),
        ),
        primary_notices(primary_committed(state, x)).len() >= 1,
{
}

/// Setting the second handle twice to the same value notifies twice, with
/// the same notifications each time, and the second time changes nothing.
pub proof fn lemma_secondary_repeat(state: SliderState, x: Decimal)
    ensures
        secondary_committed(secondary_committed(state, x), x) == secondary_committed(state, x),
        secondary_notices(secondary_committed(secondary_committed(state, x), x))
            == secondary_notices(secondary_committed(state, x)),
{
}

/// Whether the handles of a state are in order: the first not past the second.
pub open spec fn is_ordered(state: SliderState) -> bool {
    match state {
        SliderState::Single { .. } => true,
        SliderState::Double { primary, secondary } => primary@ <= secondary@,
    }
}

/// After a move of either handle, the first handle is not past the second,
/// whatever the handles were before.
pub proof fn lemma_moves_keep_order(state: SliderState, x: Decimal)
    ensures
        is_ordered(primary_committed(state, x)),
        is_ordered(secondary_committed(state, x)),
{
}

} // verus!
