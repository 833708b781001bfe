//! The button input line as the interrupt handler and the poll loop see it.
//! The button pulls the line low when pressed; a falling edge latches the
//! interrupt-pending flag until the handler clears it.

use vstd::prelude::*;

verus! {

/// Which line raised an edge interrupt.
#[derive(PartialEq, Eq, Structural, Clone, Copy, Debug)]
pub enum EdgeSource {
    /// The monitored button line.
    Button,
    /// Another line sharing the interrupt.
    Other,
}

/// What the monitor knows of its line: the logic level and the pending flag.
#[derive(PartialEq, Eq, Structural, Clone, Copy, Debug)]
pub struct LineState {
    /// The line is held low (button pressed).
    pub level_low: bool,
    /// The edge interrupt of this line is pending.
    pub interrupt_pending: bool,
}

/// The line after its handler ran: the flag cleared, the level untouched.
pub open spec fn serviced(s: LineState) -> LineState {
    LineState { level_low: s.level_low, interrupt_pending: false }
}

/// The line after `edges` falling edges, the last of which left it at `level_low`.
pub open spec fn after_edges(s: LineState, edges: nat, level_low: bool) -> LineState {
    LineState {
        level_low,
        interrupt_pending: if edges > 0 {
            true
        } else {
            s.interrupt_pending
        },
    }
}

/// Classifies an edge interrupt by whether this line's flag is set.
pub fn classify_edge(interrupt_set: bool) -> (r: EdgeSource)
    ensures
        r == (if interrupt_set {
            EdgeSource::Button
        } else {
            EdgeSource::Other
        }),
{
    if interrupt_set {
        EdgeSource::Button
    } else {
        EdgeSource::Other
    }
}

/// The diagnostic line reported for an edge interrupt.
pub fn edge_report(source: EdgeSource) -> (r: &'static str)
    ensures
        source == EdgeSource::Button ==> r@ == "Button was the source of the interrupt"@,
        source == EdgeSource::Other ==> r@ == "Button was not the source of the interrupt"@,
{
    match source {
        EdgeSource::Button => "Button was the source of the interrupt",
        EdgeSource::Other => "Button was not the source of the interrupt",
    }
}

impl LineState {
    /// A released line with no interrupt pending.
    pub fn released() -> (r: LineState)
        ensures
            !r.level_low,
            !r.interrupt_pending,
    {
        LineState { level_low: false, interrupt_pending: false }
    }

    /// Whether the button is held down now: the level of the line, not the
    /// number of edges seen since the last poll.
    pub fn is_pressed(&self) -> (r: bool)
        ensures
            r == self.level_low,
    {
        self.level_low
    }

    /// A falling edge: the line goes low and latches its pending flag.
    pub fn falling_edge(&mut self)
        ensures
            *final(self) == after_edges(*old(self), 1, true),
    {
        self.level_low = true;
        self.interrupt_pending = true;
    }

    /// The line is released and goes high again; a latched flag stays latched.
    pub fn release(&mut self)
        ensures
            final(self).interrupt_pending == old(self).interrupt_pending,
            !final(self).level_low,
    {
        self.level_low = false;
    }

    /// Services an edge interrupt: reports whether this line raised it and
    /// clears its pending flag whatever the answer.
    pub fn on_edge(&mut self) -> (r: EdgeSource)
        ensures
            r == classify_edge_spec(old(self).interrupt_pending),
            *final(self) == serviced(*old(self)),
    {
        let r = classify_edge(self.interrupt_pending);
        self.interrupt_pending = false;
        r
    }
}

/// Source of an edge interrupt given this line's flag.
pub open spec fn classify_edge_spec(interrupt_set: bool) -> EdgeSource {
    if interrupt_set {
        EdgeSource::Button
    } else {
        EdgeSource::Other
    }
}

/// A poll sees the level of the line whatever number of edges fired since the
/// last poll.
pub proof fn lemma_level_not_edge_count(s: LineState, edges: nat, level_low: bool)
    ensures
        after_edges(s, edges, level_low).level_low == level_low,
        after_edges(s, edges, level_low).level_low == after_edges(s, 0, level_low).level_low,
{
}

/// Servicing never leaves the flag set, and servicing again changes nothing;
/// when this line raised the interrupt it is reported as the source.
pub proof fn lemma_service_clears(s: LineState)
    ensures
        !serviced(s).interrupt_pending,
        serviced(serviced(s)) == serviced(s),
        serviced(s).level_low == s.level_low,
        s.interrupt_pending ==> classify_edge_spec(s.interrupt_pending) == EdgeSource::Button,
{
}

} // verus!
