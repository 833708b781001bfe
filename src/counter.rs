//! The press counter of the interactive mode and its on-screen field.

use vstd::prelude::*;

verus! {

/// Column of the counter field on the display.
pub const COUNTER_COL: u8 = 10;

/// Row of the counter field on the display.
pub const COUNTER_ROW: u8 = 0;

/// Milliseconds between two polls of the button.
pub const POLL_INTERVAL_MS: u32 = 100;

/// Width of the counter field: the widest count, a space and the unit.
pub const RATE_FIELD_WIDTH: usize = 13;

/// The ASCII decimal digits of `n`, most significant first, without leading zeros.
pub open spec fn decimal_digits(n: nat) -> Seq<u8>
    decreases n,
{
    if n < 10 {
        seq![(n + 48) as u8]
    } else {
        decimal_digits(n / 10).push((n % 10 + 48) as u8)
    }
}

/// Relies on heapless's `TryFrom<u32>` for `String<10>`, which writes the
/// number with core's `Display` (its decimal digits); ten bytes hold any `u32`.
#[verifier::external_body]
fn decimal_text(n: u32) -> (r: Vec<u8>)
    ensures
        r@ == decimal_digits(n as nat),
{
    let s: heapless::String<10> = heapless::String::try_from(n).unwrap_or_default();
    s.as_bytes().to_vec()
}

/// `s` followed by spaces up to `width` bytes.
pub open spec fn pad_to(s: Seq<u8>, width: nat) -> Seq<u8> {
    if s.len() < width {
        s + Seq::new((width - s.len()) as nat, |i: int| 0x20u8)
    } else {
        s
    }
}

/// The counter field for `n`: its digits, a space and `Hz`, padded with spaces
/// to the field's width so that it covers any earlier, longer value.
pub open spec fn rate_field_spec(n: nat) -> Seq<u8> {
    pad_to(decimal_digits(n) + seq![0x20u8, 0x48u8, 0x7Au8], RATE_FIELD_WIDTH as nat)
}

/// Renders the counter field for `n`.
pub fn rate_field(n: u32) -> (r: Vec<u8>)
    ensures
        r@ == rate_field_spec(n as nat),
{
    let mut v = decimal_text(n);
    let ghost d = v@;
    v.push(0x20u8);
    v.push(0x48u8);
    v.push(0x7Au8);
    let ghost s = v@;
    assert(s =~= d + seq![0x20u8, 0x48u8, 0x7Au8]);
    while v.len() < RATE_FIELD_WIDTH
        invariant
            s.len() <= v@.len() <= RATE_FIELD_WIDTH || v@ == s,
            v@.subrange(0, s.len() as int) == s,
            forall|i: int| s.len() <= i < v@.len() ==> #[trigger] v@[i] == 0x20u8,
        decreases RATE_FIELD_WIDTH - v@.len(),
    {
        v.push(0x20u8);
    }
    assert(v@ =~= pad_to(s, RATE_FIELD_WIDTH as nat));
    v
}

/// Below ten to the `k`-th power a number has at most `k` digits.
proof fn lemma_digits_len_below(n: nat, k: nat)
    requires
        k >= 1,
        n < pow10(k),
    ensures
        decimal_digits(n).len() <= k,
    decreases k,
{
    if n >= 10 {
        assert(k >= 2) by {
            if k == 1 {
                assert(pow10(1) == 10) by {
                    reveal_with_fuel(pow10, 2);
                }
            }
        }
        assert(n / 10 < pow10((k - 1) as nat));
        lemma_digits_len_below(n / 10, (k - 1) as nat);
    }
}

spec fn pow10(k: nat) -> nat
    decreases k,
{
    if k == 0 {
        1
    } else {
        10 * pow10((k - 1) as nat)
    }
}

/// Every counter field has the same width, so each render covers the last.
pub proof fn lemma_rate_field_width(n: u32)
    ensures
        rate_field_spec(n as nat).len() == RATE_FIELD_WIDTH,
{
    assert(pow10(10) == 10_000_000_000) by {
        reveal_with_fuel(pow10, 11);
    }
    lemma_digits_len_below(n as nat, 10);
}

/// What the poll loop does after one poll of the button.
#[derive(PartialEq, Eq, Debug)]
pub enum TickAction {
    /// Light the indicator and write this field at the counter position.
    Show(Vec<u8>),
    /// Turn the indicator off.
    Idle,
}

/// The press counter shown by the interactive mode.
pub struct RateCounter {
    count: u32,
}

impl RateCounter {
    /// The current count.
    pub closed spec fn value(&self) -> nat {
        self.count as nat
    }

    /// A counter at its starting value, one.
    pub fn new() -> (r: RateCounter)
        ensures
            r.value() == 1,
    {
        RateCounter { count: 1 }
    }

    /// The current count.
    pub fn count(&self) -> (r: u32)
        ensures
            r == self.value(),
    {
        self.count
    }

    /// One poll: a pressed button advances the count (it stops at the largest
    /// `u32`) and shows it; a released one leaves the count and idles.
    pub fn tick(&mut self, pressed: bool) -> (r: TickAction)
        ensures
            pressed ==> final(self).value() == (if old(self).value() < u32::MAX {
                old(self).value() + 1
            } else {
                old(self).value()
            }),
            pressed ==> (r matches TickAction::Show(f) && f@ == rate_field_spec(final(self).value())),
            !pressed ==> final(self).value() == old(self).value() && r == TickAction::Idle,
    {
        if pressed {
            if self.count < u32::MAX {
                self.count = self.count + 1;
            }
            TickAction::Show(rate_field(self.count))
        } else {
            TickAction::Idle
        }
    }
}

} // verus!
