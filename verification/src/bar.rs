use vstd::prelude::*;

use crate::target::ProgressDrawTarget;

verus! {

/// Whether a bar is still running, or has been finished or abandoned.
#[derive(Debug, Clone, Copy, PartialEq, Eq, Structural)]
pub enum BarStatus {
    InProgress,
    Finished,
    Abandoned,
}

/// A progress bar: a position out of a length, and the target it draws to.
///
/// A bar handed to a multi progress gets a `Remote` target that names its
/// slot in that multi progress.
#[derive(Debug, Clone)]
pub struct ProgressBar {
    length: u64,
    position: u64,
    draw_delta: u64,
    status: BarStatus,
    target: ProgressDrawTarget,
}

/// `b` is `a` handed to slot `idx` of the multi progress identified by
/// `owner`: only its target differs, and it is a remote target naming that
/// multi progress and that slot.
pub open spec fn moved_to_slot(a: BarView, b: BarView, owner: usize, idx: usize) -> bool {
    &&& b.length == a.length
    &&& b.position == a.position
    &&& b.draw_delta == a.draw_delta
    &&& b.status == a.status
    &&& crate::target::spec_remote_to(b.target) == Some((owner, idx))
}

/// What a progress bar holds.
pub struct BarView {
    pub length: u64,
    pub position: u64,
    pub draw_delta: u64,
    pub status: BarStatus,
    pub target: ProgressDrawTarget,
}

impl View for ProgressBar {
    type V = BarView;

    closed spec fn view(&self) -> BarView {
        BarView {
            length: self.length,
            position: self.position,
            draw_delta: self.draw_delta,
            status: self.status,
            target: self.target,
        }
    }
}

impl ProgressBar {
    /// A new bar of the given length, at position 0, drawing to standard error.
    pub fn new(length: u64) -> (pb: Self)
        ensures
            pb@ == (BarView {
                length,
                position: 0,
                draw_delta: 0,
                status: BarStatus::InProgress,
                target: ProgressDrawTarget::Term { refresh_rate: crate::target::DEFAULT_REFRESH_RATE },
            }),
    {
        ProgressBar {
            length,
            position: 0,
            draw_delta: 0,
            status: BarStatus::InProgress,
            target: ProgressDrawTarget::stderr(),
        }
    }

    /// The length of the bar.
    pub fn length(&self) -> (n: u64)
        ensures
            n == self@.length,
    {
        self.length
    }

    /// The current position of the bar.
    pub fn position(&self) -> (n: u64)
        ensures
            n == self@.position,
    {
        self.position
    }

    /// Whether the bar is running, finished or abandoned.
    pub fn status(&self) -> (s: BarStatus)
        ensures
            s == self@.status,
    {
        self.status
    }

    /// The target the bar draws to.
    pub fn draw_target(&self) -> (t: &ProgressDrawTarget)
        ensures
            *t == self@.target,
    {
        &self.target
    }

    /// Replaces the target the bar draws to; nothing else changes.
    pub fn set_draw_target(&mut self, target: ProgressDrawTarget)
        ensures
            final(self)@ == (BarView { target, ..old(self)@ }),
    {
        self.target = target;
    }

    /// Sets how far the position must advance before the bar redraws.
    pub fn set_draw_delta(&mut self, delta: u64)
        ensures
            final(self)@ == (BarView { draw_delta: delta, ..old(self)@ }),
    {
        self.draw_delta = delta;
    }

    /// Finishes the bar: the position jumps to the length.
    pub fn finish(&mut self)
        ensures
            final(self)@ == (BarView {
                position: old(self)@.length,
                status: BarStatus::Finished,
                ..old(self)@
            }),
    {
        self.position = self.length;
        self.status = BarStatus::Finished;
    }

    /// Abandons the bar: it stops where it is.
    pub fn abandon(&mut self)
        ensures
            final(self)@ == (BarView { status: BarStatus::Abandoned, ..old(self)@ }),
    {
        self.status = BarStatus::Abandoned;
    }
}

} // verus!
