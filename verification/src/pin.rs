//! A single-owner digital output line, modeled as a recorder of timed level
//! segments. Raw pin timing cannot be observed in software, so the line keeps
//! the logical record the protocol defines: each stretch of time at one level,
//! with its duration in nanoseconds.

use vstd::prelude::*;

verus! {

/// One stretch of time during which the output line held a single level.
#[derive(Copy, Clone, Debug, PartialEq, Eq, Structural)]
pub struct Segment {
    /// True when the line was high for this stretch.
    pub high: bool,
    /// How long the line stayed at that level, in nanoseconds.
    pub ns: u64,
}

/// A digital output line with exactly the capabilities the protocol engine
/// needs: drive high, drive low, and let a fixed time pass. The line records
/// everything that was driven onto it, so the pulse stream a writer produces
/// can be inspected without hardware.
pub struct OutputPin {
    level: bool,
    elapsed_ns: u64,
    segments: Vec<Segment>,
}

impl OutputPin {
    /// The level the line is held at now.
    pub closed spec fn spec_level(self) -> bool {
        self.level
    }

    /// Time spent at the current level since it was last driven, in nanoseconds.
    pub closed spec fn spec_elapsed(self) -> u64 {
        self.elapsed_ns
    }

    /// The finished segments, oldest first. A segment finishes when the line
    /// is driven again.
    pub closed spec fn closed_segments(self) -> Seq<Segment> {
        self.segments@
    }

    /// The whole recorded history: every finished segment, followed by the
    /// still-open stretch at the current level.
    pub open spec fn history(self) -> Seq<Segment> {
        self.closed_segments().push((Segment { high: self.spec_level(), ns: self.spec_elapsed() }))
    }

    /// A fresh line: low, with nothing recorded yet.
    pub fn new() -> (p: OutputPin)
        ensures
            p.spec_level() == false,
            p.spec_elapsed() == 0,
            p.closed_segments() == Seq::<Segment>::empty(),
    {
        OutputPin { level: false, elapsed_ns: 0, segments: Vec::new() }
    }

    /// Drive the line high: the current stretch ends and a fresh high one begins.
    pub fn set_high(&mut self)
        ensures
            final(self).spec_level() == true,
            final(self).spec_elapsed() == 0,
            final(self).closed_segments() == old(self).closed_segments().push(
                (Segment { high: old(self).spec_level(), ns: old(self).spec_elapsed() }),
            ),
            final(self).history() == old(self).history().push((Segment { high: true, ns: 0 })),
    {
        let seg = Segment { high: self.level, ns: self.elapsed_ns };
        self.segments.push(seg);
        self.level = true;
        self.elapsed_ns = 0;
    }

    /// Drive the line low: the current stretch ends and a fresh low one begins.
    pub fn set_low(&mut self)
        ensures
            final(self).spec_level() == false,
            final(self).spec_elapsed() == 0,
            final(self).closed_segments() == old(self).closed_segments().push(
                (Segment { high: old(self).spec_level(), ns: old(self).spec_elapsed() }),
            ),
            final(self).history() == old(self).history().push((Segment { high: false, ns: 0 })),
    {
        let seg = Segment { high: self.level, ns: self.elapsed_ns };
        self.segments.push(seg);
        self.level = false;
        self.elapsed_ns = 0;
    }

    /// Let `ns` nanoseconds pass with the line at its current level.
    pub fn hold(&mut self, ns: u64)
        requires
            old(self).spec_elapsed() + ns <= u64::MAX,
        ensures
            final(self).spec_level() == old(self).spec_level(),
            final(self).spec_elapsed() == old(self).spec_elapsed() + ns,
            final(self).closed_segments() == old(self).closed_segments(),
    {
        self.elapsed_ns = self.elapsed_ns + ns;
    }

    /// The level the line is held at now.
    pub fn level(&self) -> (b: bool)
        ensures
            b == self.spec_level(),
    {
        self.level
    }

    /// Time spent at the current level since it was last driven, in nanoseconds.
    pub fn elapsed_ns(&self) -> (n: u64)
        ensures
            n == self.spec_elapsed(),
    {
        self.elapsed_ns
    }

    /// Borrow the finished segments, oldest first.
    pub fn segments(&self) -> (s: &Vec<Segment>)
        ensures
            s@ == self.closed_segments(),
    {
        &self.segments
    }
}

} // verus!
