//! Planning of timed display effects: window shifts, blinks and split-flap reveals.
//! The planners decide what is shown and when; the caller drives the display.

use vstd::prelude::*;

verus! {

/// Direction in which the display window moves by one column.
#[derive(PartialEq, Eq, Structural, Clone, Copy, Debug)]
pub enum ShiftDir {
    Left,
    Right,
}

/// Columns from `from` to `to` when moving right around a circular line of `len` columns.
pub open spec fn right_gap(from: int, to: int, len: int) -> int {
    if to >= from {
        to - from
    } else {
        len - (from - to)
    }
}

/// Where `steps` moves in direction `dir` lead from `from` on a circular line of `len` columns.
pub open spec fn arrive(from: int, dir: ShiftDir, steps: int, len: int) -> int {
    match dir {
        ShiftDir::Right => (from + steps) % len,
        ShiftDir::Left => (from - steps) % len,
    }
}

/// The shortest way to move the display window from offset `from` to offset `to`
/// on a circular line of `line_len` columns: a direction and a number of
/// one-column steps. When both ways are equally long the window moves right.
pub fn plan_shift(from: u8, to: u8, line_len: u8) -> (r: (ShiftDir, u8))
    requires
        from < line_len,
        to < line_len,
    ensures
        ({
            let g = right_gap(from as int, to as int, line_len as int);
            if g <= line_len - g {
                r == (ShiftDir::Right, g as u8)
            } else {
                r == (ShiftDir::Left, (line_len - g) as u8)
            }
        }),
        r.1 <= line_len - r.1,
        arrive(from as int, r.0, r.1 as int, line_len as int) == to,
{
    let g: u8 = if to >= from {
        to - from
    } else {
        line_len - (from - to)
    };
    let back: u8 = line_len - g;
    let ghost len = line_len as int;
    if g <= back {
        assert((from as int + g as int) % len == to as int) by {
            if to >= from {
                vstd::arithmetic::div_mod::lemma_small_mod(to as nat, len as nat);
            } else {
                vstd::arithmetic::div_mod::lemma_mod_add_multiples_vanish(to as int, len);
                vstd::arithmetic::div_mod::lemma_small_mod(to as nat, len as nat);
            }
        }
        (ShiftDir::Right, g)
    } else {
        assert((from as int - back as int) % len == to as int) by {
            if to >= from {
                vstd::arithmetic::div_mod::lemma_mod_sub_multiples_vanish(to as int, len);
                vstd::arithmetic::div_mod::lemma_small_mod(to as nat, len as nat);
            } else {
                vstd::arithmetic::div_mod::lemma_small_mod(to as nat, len as nat);
            }
        }
        (ShiftDir::Left, back)
    }
}

/// One step of a blink: wait `delay_us`, then show (`visible`) or hide the display.
#[derive(PartialEq, Eq, Structural, Clone, Copy, Debug)]
pub struct BlinkStep {
    pub delay_us: u32,
    pub visible: bool,
}

/// Visibility after each step of `count` blink cycles that start from a visible
/// display: hidden after the first step, then alternating.
pub open spec fn blink_schedule(count: nat) -> Seq<bool> {
    Seq::new(2 * count, |k: int| k % 2 == 1)
}

/// A run of blink cycles, handed out one step at a time.
pub struct BlinkRun {
    total: u64,
    taken: u64,
    interval_us: u32,
}

impl BlinkRun {
    /// Number of blink cycles of the run.
    pub closed spec fn count(&self) -> nat {
        (self.total / 2) as nat
    }

    /// Steps already handed out.
    pub closed spec fn taken(&self) -> nat {
        self.taken as nat
    }

    /// Wait before each step.
    pub closed spec fn interval(&self) -> u32 {
        self.interval_us
    }

    pub closed spec fn wf(&self) -> bool {
        &&& self.total % 2 == 0
        &&& self.taken <= self.total
    }

    /// `count` blink cycles over a `period_us` each: two steps per cycle, half a period apart.
    pub fn new(count: u32, period_us: u32) -> (r: BlinkRun)
        ensures
            r.wf(),
            r.count() == count,
            r.taken() == 0,
            r.interval() == period_us / 2,
    {
        BlinkRun { total: 2 * (count as u64), taken: 0, interval_us: period_us / 2 }
    }

    /// The next step of the run, or `None` once all `2 * count` steps were handed out.
    pub fn next_step(&mut self) -> (r: Option<BlinkStep>)
        requires
            old(self).wf(),
        ensures
            final(self).wf(),
            final(self).count() == old(self).count(),
            final(self).interval() == old(self).interval(),
            old(self).taken() == 2 * old(self).count() ==> r.is_none() && final(self).taken()
                == old(self).taken(),
            old(self).taken() < 2 * old(self).count() ==> r == Some(
                BlinkStep {
                    delay_us: old(self).interval(),
                    visible: blink_schedule(old(self).count())[old(self).taken() as int],
                },
            ) && final(self).taken() == old(self).taken() + 1,
    {
        if self.taken == self.total {
            None
        } else {
            let visible = self.taken % 2 == 1;
            self.taken = self.taken + 1;
            Some(BlinkStep { delay_us: self.interval_us, visible })
        }
    }
}

/// A run of `count` blink cycles has `2 * count` steps; each step flips the
/// display, the first hides it, and the last leaves it visible.
pub proof fn lemma_blink_ends_visible(count: nat)
    requires
        count > 0,
    ensures
        blink_schedule(count).len() == 2 * count,
        blink_schedule(count)[0] == false,
        blink_schedule(count)[2 * count - 1] == true,
        forall|k: int|
            0 <= k < 2 * count - 1 ==> blink_schedule(count)[k] != #[trigger] blink_schedule(
                count,
            )[k + 1],
{
}

/// How a split-flap reveal advances its positions.
#[derive(PartialEq, Eq, Structural, Clone, Copy, Debug)]
pub enum FlipStyle {
    /// Each position begins a fixed number of ticks after the one before it.
    Sequential,
    /// All positions advance together and settle on the same tick.
    Simultaneous,
}

/// First glyph of the flap ramp (space).
pub const RAMP_FIRST: u8 = 0x20;

/// Last glyph of the flap ramp.
pub const RAMP_LAST: u8 = 0x7D;

/// Whether `c` lies on the flap ramp; other glyphs are written directly.
pub open spec fn in_ramp(c: u8) -> bool {
    RAMP_FIRST <= c <= RAMP_LAST
}

/// Ramp steps from the first ramp glyph to `c` (none for a glyph off the ramp).
pub open spec fn travel(c: u8) -> nat {
    if in_ramp(c) {
        (c - RAMP_FIRST) as nat
    } else {
        0
    }
}

/// Largest travel among the first `n` glyphs of `text`.
pub open spec fn max_travel(text: Seq<u8>, n: nat) -> nat
    decreases n,
{
    if n == 0 {
        0
    } else {
        let m = max_travel(text, (n - 1) as nat);
        let t = travel(text[n - 1]);
        if t > m {
            t
        } else {
            m
        }
    }
}

/// Tick on which position `i` begins to advance.
pub open spec fn start_tick(style: FlipStyle, stagger: nat, i: int) -> int {
    match style {
        FlipStyle::Sequential => i * stagger,
        FlipStyle::Simultaneous => 0,
    }
}

/// Tick from which position `i` shows its target glyph.
pub open spec fn settle_tick(text: Seq<u8>, style: FlipStyle, stagger: nat, i: int) -> int {
    match style {
        FlipStyle::Sequential => i * stagger + travel(text[i]),
        FlipStyle::Simultaneous => max_travel(text, text.len()) as int,
    }
}

/// Glyph shown by position `i` on tick `t`; `None` while the position has not begun.
pub open spec fn flap_glyph(text: Seq<u8>, style: FlipStyle, stagger: nat, i: int, t: int) -> Option<
    u8,
> {
    let c = text[i];
    let back = settle_tick(text, style, stagger, i) - t;
    if t < start_tick(style, stagger, i) {
        None
    } else if back <= 0 || !in_ramp(c) {
        Some(c)
    } else if back <= travel(c) {
        Some((c - back) as u8)
    } else {
        Some(RAMP_FIRST)
    }
}

/// Latest settle tick among the first `n` positions.
pub open spec fn last_settle(text: Seq<u8>, style: FlipStyle, stagger: nat, n: nat) -> int
    decreases n,
{
    if n == 0 {
        0
    } else {
        let m = last_settle(text, style, stagger, (n - 1) as nat);
        let s = settle_tick(text, style, stagger, n - 1);
        if s > m {
            s
        } else {
            m
        }
    }
}

/// Number of ticks of a reveal: through the tick on which the last position settles.
pub open spec fn flap_tick_count(text: Seq<u8>, style: FlipStyle, stagger: nat) -> int {
    if text.len() == 0 {
        0
    } else {
        last_settle(text, style, stagger, text.len()) + 1
    }
}

fn travel_of(c: u8) -> (r: u8)
    ensures
        r == travel(c),
{
    if RAMP_FIRST <= c && c <= RAMP_LAST {
        c - RAMP_FIRST
    } else {
        0
    }
}

fn max_travel_of(text: &Vec<u8>) -> (r: u8)
    ensures
        r == max_travel(text@, text@.len()),
        r <= RAMP_LAST - RAMP_FIRST,
{
    let mut m: u8 = 0;
    let mut i: usize = 0;
    while i < text.len()
        invariant
            i <= text@.len(),
            m == max_travel(text@, i as nat),
            m <= RAMP_LAST - RAMP_FIRST,
        decreases text@.len() - i,
    {
        let t = travel_of(text[i]);
        if t > m {
            m = t;
        }
        i = i + 1;
    }
    m
}

/// Tick on which position `i` settles, computed.
fn settle_of(text: &Vec<u8>, style: FlipStyle, stagger: u8, longest: u8, i: usize) -> (r: u64)
    requires
        i < text@.len() <= u32::MAX,
        longest == max_travel(text@, text@.len()),
    ensures
        r == settle_tick(text@, style, stagger as nat, i as int),
{
    match style {
        FlipStyle::Sequential => {
            assert(i as int * stagger as int <= u32::MAX as int * 255) by (nonlinear_arith)
                requires
                    i < u32::MAX,
                    stagger <= 255,
            ;
            i as u64 * stagger as u64 + travel_of(text[i]) as u64
        },
        FlipStyle::Simultaneous => longest as u64,
    }
}

/// Number of ticks a split-flap reveal of `text` takes: through the tick on
/// which its last position settles (none for empty text).
pub fn flap_ticks(text: &Vec<u8>, style: FlipStyle, stagger: u8) -> (r: u64)
    requires
        text@.len() <= u32::MAX,
    ensures
        r == flap_tick_count(text@, style, stagger as nat),
{
    let longest = max_travel_of(text);
    let mut m: u64 = 0;
    let mut i: usize = 0;
    while i < text.len()
        invariant
            i <= text@.len() <= u32::MAX,
            longest == max_travel(text@, text@.len()),
            longest <= RAMP_LAST - RAMP_FIRST,
            m == last_settle(text@, style, stagger as nat, i as nat),
            m <= u32::MAX as int * 256,
        decreases text@.len() - i,
    {
        let s = settle_of(text, style, stagger, longest, i);
        assert(s <= u32::MAX as int * 256) by (nonlinear_arith)
            requires
                style == FlipStyle::Sequential ==> s == i as int * stagger as int + travel(text@[i as int]),
                style == FlipStyle::Simultaneous ==> s == longest,
                longest <= RAMP_LAST - RAMP_FIRST,
                travel(text@[i as int]) <= 255,
                i < u32::MAX,
                stagger <= 255,
        ;
        if s > m {
            m = s;
        }
        i = i + 1;
    }
    if text.len() == 0 {
        0
    } else {
        m + 1
    }
}

/// What every position of a split-flap reveal of `text` shows on tick `tick`.
pub fn flap_frame(text: &Vec<u8>, style: FlipStyle, stagger: u8, tick: u64) -> (r: Vec<Option<u8>>)
    requires
        text@.len() <= u32::MAX,
    ensures
        r@.len() == text@.len(),
        forall|i: int|
            0 <= i < text@.len() ==> #[trigger] r@[i] == flap_glyph(
                text@,
                style,
                stagger as nat,
                i,
                tick as int,
            ),
{
    let longest = max_travel_of(text);
    let mut r: Vec<Option<u8>> = Vec::new();
    let mut i: usize = 0;
    while i < text.len()
        invariant
            i <= text@.len() <= u32::MAX,
            longest == max_travel(text@, text@.len()),
            r@.len() == i,
            forall|j: int|
                0 <= j < i ==> #[trigger] r@[j] == flap_glyph(
                    text@,
                    style,
                    stagger as nat,
                    j,
                    tick as int,
                ),
        decreases text@.len() - i,
    {
        let c = text[i];
        let start: u64 = match style {
            FlipStyle::Sequential => {
                assert(i as int * stagger as int <= u32::MAX as int * 255) by (nonlinear_arith)
                    requires
                        i < u32::MAX,
                        stagger <= 255,
                ;
                i as u64 * stagger as u64
            },
            FlipStyle::Simultaneous => 0,
        };
        let settle = settle_of(text, style, stagger, longest, i);
        let t = travel_of(c);
        let g: Option<u8> = if tick < start {
            None
        } else if settle <= tick || !(RAMP_FIRST <= c && c <= RAMP_LAST) {
            Some(c)
        } else {
            let back: u64 = settle - tick;
            if back <= t as u64 {
                Some(c - back as u8)
            } else {
                Some(RAMP_FIRST)
            }
        };
        r.push(g);
        i = i + 1;
    }
    r
}

/// Timing of a split-flap reveal: how many ticks, the wait before each tick,
/// and the wait after the last one.
#[derive(PartialEq, Eq, Structural, Clone, Copy, Debug)]
pub struct FlapTiming {
    pub ticks: u64,
    pub step_delay_us: u32,
    pub settle_delay_us: u32,
}

/// Plans a split-flap reveal of `text`: with no stagger every position begins
/// at once, and with no settle delay the reveal ends with its last tick.
pub fn plan_flap(
    text: &Vec<u8>,
    style: FlipStyle,
    stagger: Option<u8>,
    step_delay_us: u32,
    settle_delay_us: Option<u32>,
) -> (r: FlapTiming)
    requires
        text@.len() <= u32::MAX,
    ensures
        r.ticks == flap_tick_count(
            text@,
            style,
            match stagger {
                Some(s) => s as nat,
                None => 0,
            },
        ),
        r.step_delay_us == step_delay_us,
        r.settle_delay_us == match settle_delay_us {
            Some(d) => d,
            None => 0,
        },
{
    let s: u8 = match stagger {
        Some(s) => s,
        None => 0,
    };
    let d: u32 = match settle_delay_us {
        Some(d) => d,
        None => 0,
    };
    FlapTiming { ticks: flap_ticks(text, style, s), step_delay_us, settle_delay_us: d }
}

proof fn lemma_last_settle_covers(text: Seq<u8>, style: FlipStyle, stagger: nat, n: nat, i: int)
    requires
        0 <= i < n,
    ensures
        settle_tick(text, style, stagger, i) <= last_settle(text, style, stagger, n),
    decreases n,
{
    if i < n - 1 {
        lemma_last_settle_covers(text, style, stagger, (n - 1) as nat, i);
    }
}

/// Settling of a split-flap reveal. Every position settles within the reveal
/// and shows its target from its settle tick on; a position on the ramp shows
/// its target no earlier. In the simultaneous style all positions settle on the
/// same tick; in the sequential style position `i + 1` settles no earlier than
/// `stagger` ticks after position `i` begins.
pub proof fn lemma_flap_settling(text: Seq<u8>, style: FlipStyle, stagger: nat)
    ensures
        forall|i: int|
            0 <= i < text.len() ==> start_tick(style, stagger, i) <= #[trigger] settle_tick(
                text,
                style,
                stagger,
                i,
            ) < flap_tick_count(text, style, stagger),
        forall|i: int, t: int|
            0 <= i < text.len() && settle_tick(text, style, stagger, i) <= t ==> #[trigger] flap_glyph(
                text,
                style,
                stagger,
                i,
                t,
            ) == Some(text[i]),
        forall|i: int, t: int|
            0 <= i < text.len() && in_ramp(text[i]) && travel(text[i]) > 0 && t < settle_tick(
                text,
                style,
                stagger,
                i,
            ) ==> #[trigger] flap_glyph(text, style, stagger, i, t) != Some(text[i]),
        style == FlipStyle::Simultaneous ==> forall|i: int, j: int|
            0 <= i < text.len() && 0 <= j < text.len() ==> #[trigger] settle_tick(
                text,
                style,
                stagger,
                i,
            ) == #[trigger] settle_tick(text, style, stagger, j),
        style == FlipStyle::Sequential ==> forall|i: int|
            0 <= i < text.len() - 1 ==> #[trigger] settle_tick(text, style, stagger, i + 1)
                >= start_tick(style, stagger, i) + stagger,
{
    assert forall|i: int|
        0 <= i < text.len() implies start_tick(style, stagger, i) <= #[trigger] settle_tick(
            text,
            style,
            stagger,
            i,
        ) < flap_tick_count(text, style, stagger) by {
        lemma_last_settle_covers(text, style, stagger, text.len(), i);
        if style == FlipStyle::Sequential {
            assert(i * stagger >= 0) by (nonlinear_arith)
                requires
                    i >= 0,
            ;
        }
    }
    if style == FlipStyle::Sequential {
        assert forall|i: int| 0 <= i < text.len() - 1 implies #[trigger] settle_tick(
            text,
            style,
            stagger,
            i + 1,
        ) >= start_tick(style, stagger, i) + stagger by {
            assert((i + 1) * stagger == i * stagger + stagger) by (nonlinear_arith);
        }
    }
}

} // verus!
