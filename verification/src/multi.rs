use vstd::prelude::*;

use crate::alignment::MultiProgressAlignment;
use crate::bar::{moved_to_slot, ProgressBar};
use crate::frame::ProgressDrawState;
use crate::model::{
    all_below, drawable, frame_lines, index_in, is_clear_frame, is_draw_frame, lemma_index_in,
    lemma_index_in_unique, lemma_insert_keeps_wf, lemma_insert_pos_in_range, lemma_remove_keeps_wf,
    live_count, location_ok, next_slot, no_dups, slot_lines, spec_after_draw, spec_insert,
    spec_remove, visible_lines, wf, InsertLocation, MultiView,
};
use crate::target::{spec_remote, spec_remote_to, MultiOwner, ProgressDrawTarget, DEFAULT_REFRESH_RATE};

verus! {

/// The bookkeeping of a multi progress: one draw-state slot per bar ever
/// added, the slots of removed bars kept for reuse, and the visual order of the
/// bars that are shown.
#[derive(Debug)]
pub struct MultiProgressState {
    /// What each bar last drew; `None` for bars not yet drawn or removed.
    draw_states: Vec<Option<ProgressDrawState>>,
    /// Slots of removed bars, the last one to be reused first.
    free_set: Vec<usize>,
    /// Slots of the shown bars, from the top line down.
    ordering: Vec<usize>,
    /// Where the multi progress draws.
    draw_target: ProgressDrawTarget,
    /// Whether to move the cursor up instead of clearing lines.
    move_cursor: bool,
    /// How the bars are aligned when some are removed.
    alignment: MultiProgressAlignment,
    /// Lines of bars that are gone, drawn once more at the top and forgotten.
    orphan_lines: Vec<String>,
}

impl View for MultiProgressState {
    type V = MultiView;

    closed spec fn view(&self) -> MultiView {
        MultiView {
            slots: self.draw_states@,
            free: self.free_set@,
            ordering: self.ordering@,
            target: self.draw_target,
            move_cursor: self.move_cursor,
            alignment: self.alignment,
            orphans: self.orphan_lines@,
        }
    }
}

/// The state of a new multi progress: no bars, no orphaned lines.
pub open spec fn initial_view(target: ProgressDrawTarget) -> MultiView {
    MultiView {
        slots: Seq::empty(),
        free: Seq::empty(),
        ordering: Seq::empty(),
        target,
        move_cursor: false,
        alignment: MultiProgressAlignment::Top,
        orphans: Seq::empty(),
    }
}

/// Whether `x` occurs in `v`.
fn vec_contains(v: &Vec<usize>, x: usize) -> (r: bool)
    ensures
        r == v@.contains(x),
{
    let mut i: usize = 0;
    while i < v.len()
        invariant
            i <= v.len(),
            forall|j: int| 0 <= j < i ==> v@[j] != x,
        decreases v.len() - i,
    {
        if v[i] == x {
            return true;
        }
        i += 1;
    }
    false
}

/// The position of `x` in `v`, which holds it once.
fn position_of(v: &Vec<usize>, x: usize) -> (r: usize)
    requires
        no_dups(v@),
        v@.contains(x),
    ensures
        r == index_in(v@, x),
        r < v.len(),
        v@[r as int] == x,
{
    let mut i: usize = 0;
    while i < v.len()
        invariant
            i <= v.len(),
            v@.contains(x),
            no_dups(v@),
            forall|j: int| 0 <= j < i ==> v@[j] != x,
        decreases v.len() - i,
    {
        if v[i] == x {
            proof {
                lemma_index_in_unique(v@, x, i as int);
            }
            return i;
        }
        i += 1;
    }
    proof {
        lemma_index_in(v@, x);
    }
    0
}

/// Appends to `lines` the lines of the slots listed in `ordering`, in order.
fn append_visible_lines(
    draw_states: &Vec<Option<ProgressDrawState>>,
    ordering: &Vec<usize>,
    lines: &mut Vec<String>,
)
    requires
        all_below(ordering@, draw_states@.len()),
    ensures
        final(lines)@ == old(lines)@ + visible_lines(draw_states@, ordering@),
{
    let ghost start = lines@;
    let mut i: usize = 0;
    while i < ordering.len()
        invariant
            i <= ordering.len(),
            all_below(ordering@, draw_states@.len()),
            lines@ == start + visible_lines(draw_states@, ordering@.take(i as int)),
        decreases ordering.len() - i,
    {
        let index = ordering[i];
        let ghost before = lines@;
        match &draw_states[index] {
            Some(state) => {
                let mut j: usize = 0;
                while j < state.lines.len()
                    invariant
                        j <= state.lines.len(),
                        lines@ == before + state.lines@.take(j as int),
                    decreases state.lines.len() - j,
                {
                    lines.push(state.lines[j].clone());
                    proof {
                        assert(state.lines@.take(j + 1) =~= state.lines@.take(j as int).push(
                            state.lines@[j as int],
                        ));
                    }
                    j += 1;
                }
                proof {
                    assert(state.lines@.take(j as int) =~= state.lines@);
                }
            },
            None => {},
        }
        proof {
            let pre = ordering@.take(i + 1);
            assert(pre.drop_last() =~= ordering@.take(i as int));
            assert(pre.last() == index);
            assert(lines@ =~= before + slot_lines(draw_states@[index as int]));
        }
        i += 1;
    }
    proof {
        assert(ordering@.take(i as int) =~= ordering@);
    }
}

impl MultiProgressState {
    /// A state with no bars that draws to `draw_target`.
    pub(crate) fn new(draw_target: ProgressDrawTarget) -> (s: Self)
        ensures
            s@ == initial_view(draw_target),
            wf(s@),
    {
        let s = MultiProgressState {
            draw_states: Vec::new(),
            free_set: Vec::new(),
            ordering: Vec::new(),
            draw_target,
            move_cursor: false,
            alignment: MultiProgressAlignment::Top,
            orphan_lines: Vec::new(),
        };
        proof {
            assert(s@ =~= initial_view(draw_target));
        }
        s
    }

    /// Gives a new bar a slot, reusing the last freed one if there is one, and
    /// shows it at `location`; returns the slot.
    pub(crate) fn insert(&mut self, location: InsertLocation) -> (idx: usize)
        requires
            wf(old(self)@),
            location_ok(old(self)@, location),
        ensures
            idx == next_slot(old(self)@),
            final(self)@ == spec_insert(old(self)@, location),
            wf(final(self)@),
            live_count(final(self)@) == final(self)@.ordering.len(),
    {
        let ghost v = self@;
        let idx = match self.free_set.pop() {
            Some(idx) => {
                proof {
                    assert(v.free[v.free.len() - 1] == idx);
                }
                self.draw_states.set(idx, None);
                idx
            },
            None => {
                self.draw_states.push(None);
                self.draw_states.len() - 1
            },
        };
        proof {
            lemma_insert_pos_in_range(v, location);
        }
        let len = self.ordering.len();
        match location {
            InsertLocation::End => {
                self.ordering.push(idx);
                proof {
                    assert(v.ordering.push(idx) =~= v.ordering.insert(len as int, idx));
                }
            },
            InsertLocation::Index(pos) => {
                let pos = if pos < len {
                    pos
                } else {
                    len
                };
                self.ordering.insert(pos, idx);
            },
            InsertLocation::IndexFromBack(pos) => {
                let pos = len.saturating_sub(pos);
                self.ordering.insert(pos, idx);
            },
            InsertLocation::After(after_idx) => {
                let pos = position_of(&self.ordering, after_idx);
                self.ordering.insert(pos + 1, idx);
            },
            InsertLocation::Before(before_idx) => {
                let pos = position_of(&self.ordering, before_idx);
                self.ordering.insert(pos, idx);
            },
        }
        proof {
            assert(self@.free =~= spec_insert(v, location).free);
            assert(self@.slots =~= spec_insert(v, location).slots);
            assert(self@ =~= spec_insert(v, location));
            lemma_insert_keeps_wf(v, location);
        }
        idx
    }

    /// Takes the bar in slot `idx` off the screen and frees its slot; does
    /// nothing if the slot is already free.
    pub(crate) fn remove_idx(&mut self, idx: usize)
        requires
            wf(old(self)@),
            idx < old(self)@.slots.len(),
        ensures
            final(self)@ == spec_remove(old(self)@, idx),
            wf(final(self)@),
            live_count(final(self)@) == final(self)@.ordering.len(),
    {
        let ghost v = self@;
        proof {
            lemma_remove_keeps_wf(v, idx);
        }
        if vec_contains(&self.free_set, idx) {
            return;
        }
        proof {
            assert(v.free.contains(idx) || v.ordering.contains(idx));
        }
        self.draw_states.set(idx, None);
        self.free_set.push(idx);
        let pos = position_of(&self.ordering, idx);
        self.ordering.remove(pos);
        proof {
            assert(self@ =~= spec_remove(v, idx));
        }
    }

    /// The number of shown bars: slots that are not free.
    pub fn len(&self) -> (n: usize)
        requires
            wf(self@),
        ensures
            n == live_count(self@),
            n == self@.ordering.len(),
    {
        self.draw_states.len() - self.free_set.len()
    }

    /// Builds the frame of a draw: the orphaned lines, then the lines of every
    /// shown bar from the top down. The orphaned lines are handed over and
    /// forgotten. A hidden target gets no frame and nothing changes.
    pub(crate) fn draw(&mut self, force_draw: bool) -> (frame: Option<ProgressDrawState>)
        requires
            wf(old(self)@),
        ensures
            final(self)@ == spec_after_draw(old(self)@),
            frame is Some <==> drawable(old(self)@),
            frame matches Some(f) ==> is_draw_frame(old(self)@, force_draw, f),
    {
        if self.draw_target.is_hidden() {
            return None;
        }
        let ghost v = self@;
        let orphan_lines_count = self.orphan_lines.len();
        let mut lines: Vec<String> = Vec::new();
        lines.append(&mut self.orphan_lines);
        append_visible_lines(&self.draw_states, &self.ordering, &mut lines);
        proof {
            assert(lines@ =~= frame_lines(v));
            assert(self@ =~= spec_after_draw(v));
        }
        Some(
            ProgressDrawState {
                lines,
                orphan_lines: orphan_lines_count,
                force_draw: force_draw || orphan_lines_count > 0,
                move_cursor: self.move_cursor,
                alignment: self.alignment,
            },
        )
    }

    /// Builds the frame that clears what the multi progress drew: no lines,
    /// drawn at once. A hidden target gets no frame.
    pub(crate) fn clear(&self) -> (frame: Option<ProgressDrawState>)
        ensures
            frame is Some <==> drawable(self@),
            frame matches Some(f) ==> is_clear_frame(self@, f),
    {
        if self.draw_target.is_hidden() {
            return None;
        }
        Some(
            ProgressDrawState {
                lines: Vec::new(),
                orphan_lines: 0,
                force_draw: true,
                move_cursor: self.move_cursor,
                alignment: self.alignment,
            },
        )
    }

    /// Records what the bar in slot `idx` drew, as its remote target does
    /// before asking for a draw.
    pub(crate) fn set_draw_state(&mut self, idx: usize, state: ProgressDrawState)
        requires
            idx < old(self)@.slots.len(),
        ensures
            final(self)@ == (MultiView { slots: old(self)@.slots.update(idx as int, Some(state)), ..old(self)@ }),
    {
        self.draw_states.set(idx, Some(state));
        proof {
            assert(self@ =~= (MultiView { slots: old(self)@.slots.update(idx as int, Some(state)), ..old(self)@ }));
        }
    }

    /// Keeps the last lines of a bar that is gone, to be drawn once more.
    pub(crate) fn push_orphan_lines(&mut self, lines: Vec<String>)
        ensures
            final(self)@ == (MultiView { orphans: old(self)@.orphans + lines@, ..old(self)@ }),
    {
        let ghost added = lines@;
        let mut lines = lines;
        self.orphan_lines.append(&mut lines);
        proof {
            assert(self@ =~= (MultiView { orphans: old(self)@.orphans + added, ..old(self)@ }));
        }
    }

    /// What each bar last drew, by slot.
    pub fn draw_states(&self) -> (r: &[Option<ProgressDrawState>])
        ensures
            r@ == self@.slots,
    {
        self.draw_states.as_slice()
    }

    /// The slots of removed bars; the last one is reused first.
    pub fn free_set(&self) -> (r: &[usize])
        ensures
            r@ == self@.free,
    {
        self.free_set.as_slice()
    }

    /// The slots of the shown bars, from the top line down.
    pub fn ordering(&self) -> (r: &[usize])
        ensures
            r@ == self@.ordering,
    {
        self.ordering.as_slice()
    }

    /// The lines of bars that are gone, waiting for the next draw.
    pub fn orphan_lines(&self) -> (r: &[String])
        ensures
            r@ == self@.orphans,
    {
        self.orphan_lines.as_slice()
    }

    /// Where the multi progress draws.
    pub fn draw_target(&self) -> (t: &ProgressDrawTarget)
        ensures
            *t == self@.target,
    {
        &self.draw_target
    }

    /// Whether the cursor is moved up instead of lines being cleared.
    pub fn move_cursor(&self) -> (b: bool)
        ensures
            b == self@.move_cursor,
    {
        self.move_cursor
    }

    /// How the bars are aligned when some are removed.
    pub fn alignment(&self) -> (a: MultiProgressAlignment)
        ensures
            a == self@.alignment,
    {
        self.alignment
    }
}


/// Manages several progress bars drawn together, one below the other.
#[derive(Debug)]
pub struct MultiProgress {
    state: MultiProgressState,
    /// The identity that the remote targets of this multi progress's bars carry.
    owner: MultiOwner,
}

impl View for MultiProgress {
    type V = MultiView;

    closed spec fn view(&self) -> MultiView {
        self.state@
    }
}

impl Default for MultiProgress {
    fn default() -> (mp: MultiProgress)
        ensures
            mp@ == initial_view(ProgressDrawTarget::Term { refresh_rate: DEFAULT_REFRESH_RATE }),
    {
        MultiProgress::with_draw_target(ProgressDrawTarget::stderr())
    }
}

impl MultiProgress {
    /// The slots always split between the free list and the ordering.
    #[verifier::type_invariant]
    closed spec fn well_formed(self) -> bool {
        wf(self.state@)
    }

    /// The identity that the remote targets of this multi progress's bars
    /// carry.
    pub closed spec fn owner_id(&self) -> usize {
        self.owner.id()
    }

    /// A multi progress that draws to standard error, refreshing at most 15
    /// times a second.
    pub fn new() -> (mp: MultiProgress)
        ensures
            mp@ == initial_view(ProgressDrawTarget::Term { refresh_rate: DEFAULT_REFRESH_RATE }),
    {
        MultiProgress::default()
    }

    /// A multi progress that draws to the given target.
    pub fn with_draw_target(draw_target: ProgressDrawTarget) -> (mp: MultiProgress)
        ensures
            mp@ == initial_view(draw_target),
    {
        MultiProgress { state: MultiProgressState::new(draw_target), owner: MultiOwner::new() }
    }

    /// The bookkeeping behind the multi progress.
    pub fn state(&self) -> (s: &MultiProgressState)
        ensures
            s@ == self@,
            wf(s@),
    {
        proof {
            use_type_invariant(self);
        }
        &self.state
    }

    /// Draws to a different target from now on; nothing else changes.
    ///
    /// The target it replaces is handed back, to be disconnected by whoever
    /// holds the multi progress it forwarded to: a terminal or hidden target
    /// needs nothing more.
    pub fn set_draw_target(&mut self, target: ProgressDrawTarget) -> (previous: ProgressDrawTarget)
        ensures
            final(self).owner_id() == old(self).owner_id(),
            previous == old(self)@.target,
            final(self)@ == (MultiView { target, ..old(self)@ }),
    {
        proof {
            use_type_invariant(&*self);
        }
        let mut target = target;
        std::mem::swap(&mut target, &mut self.state.draw_target);
        target
    }

    /// Whether to move the cursor up instead of clearing lines.
    ///
    /// This can reduce flickering, but should stay off if the number of bars
    /// is going to change.
    pub fn set_move_cursor(&mut self, move_cursor: bool)
        ensures
            final(self).owner_id() == old(self).owner_id(),
            final(self)@ == (MultiView { move_cursor, ..old(self)@ }),
    {
        proof {
            use_type_invariant(&*self);
        }
        self.state.move_cursor = move_cursor;
    }

    /// Sets how the bars are aligned when some are removed.
    pub fn set_alignment(&mut self, alignment: MultiProgressAlignment)
        ensures
            final(self).owner_id() == old(self).owner_id(),
            final(self)@ == (MultiView { alignment, ..old(self)@ }),
    {
        proof {
            use_type_invariant(&*self);
        }
        self.state.alignment = alignment;
    }

    fn insert_bar(&mut self, location: InsertLocation, pb: ProgressBar) -> (r: ProgressBar)
        requires
            location_ok(old(self)@, location),
        ensures
            final(self).owner_id() == old(self).owner_id(),
            final(self)@ == spec_insert(old(self)@, location),
            moved_to_slot(pb@, r@, old(self).owner_id(), next_slot(old(self)@)),
    {
        proof {
            use_type_invariant(&*self);
        }
        // The type invariant must hold at every step, so the state is updated
        // out of place and put back whole.
        let mut state = MultiProgressState::new(ProgressDrawTarget::Hidden);
        std::mem::swap(&mut state, &mut self.state);
        let idx = state.insert(location);
        self.state = state;
        let mut pb = pb;
        pb.set_draw_target(ProgressDrawTarget::new_remote(self.owner.clone(), idx));
        pb
    }

    /// Adds a bar below the others. The bar gets a remote target that names
    /// its slot, replacing whatever target it had.
    pub fn add(&mut self, pb: ProgressBar) -> (r: ProgressBar)
        ensures
            final(self).owner_id() == old(self).owner_id(),
            final(self)@ == spec_insert(old(self)@, InsertLocation::End),
            moved_to_slot(pb@, r@, old(self).owner_id(), next_slot(old(self)@)),
    {
        self.insert_bar(InsertLocation::End, pb)
    }

    /// Inserts a bar at position `index` of the visual order, or below the
    /// others if `index` is past the last one.
    pub fn insert(&mut self, index: usize, pb: ProgressBar) -> (r: ProgressBar)
        ensures
            final(self).owner_id() == old(self).owner_id(),
            final(self)@ == spec_insert(old(self)@, InsertLocation::Index(index)),
            moved_to_slot(pb@, r@, old(self).owner_id(), next_slot(old(self)@)),
    {
        self.insert_bar(InsertLocation::Index(index), pb)
    }

    /// Inserts a bar with `index` bars below it, or above all the others if
    /// there are not that many.
    pub fn insert_from_back(&mut self, index: usize, pb: ProgressBar) -> (r: ProgressBar)
        ensures
            final(self).owner_id() == old(self).owner_id(),
            final(self)@ == spec_insert(old(self)@, InsertLocation::IndexFromBack(index)),
            moved_to_slot(pb@, r@, old(self).owner_id(), next_slot(old(self)@)),
    {
        self.insert_bar(InsertLocation::IndexFromBack(index), pb)
    }

    /// Inserts a bar just above `before`, which must be shown by this multi
    /// progress.
    pub fn insert_before(&mut self, before: &ProgressBar, pb: ProgressBar) -> (r: ProgressBar)
        requires
            spec_remote(before@.target) matches Some(b) && old(self)@.ordering.contains(b),
        ensures
            final(self).owner_id() == old(self).owner_id(),
            final(self)@ == spec_insert(
                old(self)@,
                InsertLocation::Before(spec_remote(before@.target).unwrap()),
            ),
            moved_to_slot(pb@, r@, old(self).owner_id(), next_slot(old(self)@)),
    {
        let before_idx = before.draw_target().remote().unwrap();
        self.insert_bar(InsertLocation::Before(before_idx), pb)
    }

    /// Inserts a bar just below `after`, which must be shown by this multi
    /// progress.
    pub fn insert_after(&mut self, after: &ProgressBar, pb: ProgressBar) -> (r: ProgressBar)
        requires
            spec_remote(after@.target) matches Some(a) && old(self)@.ordering.contains(a),
        ensures
            final(self).owner_id() == old(self).owner_id(),
            final(self)@ == spec_insert(
                old(self)@,
                InsertLocation::After(spec_remote(after@.target).unwrap()),
            ),
            moved_to_slot(pb@, r@, old(self).owner_id(), next_slot(old(self)@)),
    {
        let after_idx = after.draw_target().remote().unwrap();
        self.insert_bar(InsertLocation::After(after_idx), pb)
    }

    /// The slot of `pb`, if `pb` draws to this multi progress.
    pub fn slot_of(&self, pb: &ProgressBar) -> (r: Option<usize>)
        ensures
            r == match spec_remote_to(pb@.target) {
                Some((o, i)) => if o == self.owner_id() {
                    Some(i)
                } else {
                    None
                },
                None => None,
            },
    {
        match pb.draw_target() {
            ProgressDrawTarget::Remote { owner, idx } => {
                if self.owner.same(owner) {
                    Some(*idx)
                } else {
                    None
                }
            },
            _ => None,
        }
    }

    /// Removes a bar, if it was added to or inserted into this multi
    /// progress; any other bar (one that does not draw to a multi progress, or
    /// draws to another one) leaves everything as it was, and so does a bar
    /// whose slot is already free.
    pub fn remove(&mut self, pb: &ProgressBar)
        ensures
            final(self).owner_id() == old(self).owner_id(),
            final(self)@ == match spec_remote_to(pb@.target) {
                Some((o, i)) => if o == old(self).owner_id() && i < old(self)@.slots.len() {
                    spec_remove(old(self)@, i)
                } else {
                    old(self)@
                },
                None => old(self)@,
            },
    {
        let idx = match self.slot_of(pb) {
            Some(idx) => idx,
            None => return,
        };
        if idx >= self.state.draw_states.len() {
            return;
        }
        self.remove_idx(idx);
    }

    /// Removes the bar in slot `idx`: it leaves the visual order, its draw
    /// state is dropped and its slot is freed for reuse. A free slot stays as
    /// it is.
    pub fn remove_idx(&mut self, idx: usize)
        requires
            idx < old(self)@.slots.len(),
        ensures
            final(self).owner_id() == old(self).owner_id(),
            final(self)@ == spec_remove(old(self)@, idx),
    {
        proof {
            use_type_invariant(&*self);
        }
        let mut state = MultiProgressState::new(ProgressDrawTarget::Hidden);
        std::mem::swap(&mut state, &mut self.state);
        state.remove_idx(idx);
        self.state = state;
    }

    /// The frame that wipes what the multi progress drew; `None` for a
    /// hidden target. Nothing changes.
    pub fn clear(&self) -> (frame: Option<ProgressDrawState>)
        ensures
            frame is Some <==> drawable(self@),
            frame matches Some(f) ==> is_clear_frame(self@, f),
    {
        self.state.clear()
    }

    /// The frame of a draw: orphaned lines first, then each shown bar's lines
    /// from the top down; `None` for a hidden target. The orphaned lines are
    /// handed over and forgotten.
    pub fn draw(&mut self, force_draw: bool) -> (frame: Option<ProgressDrawState>)
        ensures
            final(self).owner_id() == old(self).owner_id(),
            final(self)@ == spec_after_draw(old(self)@),
            frame is Some <==> drawable(old(self)@),
            frame matches Some(f) ==> is_draw_frame(old(self)@, force_draw, f),
    {
        proof {
            use_type_invariant(&*self);
        }
        let mut state = MultiProgressState::new(ProgressDrawTarget::Hidden);
        std::mem::swap(&mut state, &mut self.state);
        let frame = state.draw(force_draw);
        self.state = state;
        frame
    }

    /// Records what the bar in slot `idx` drew, as the bar's remote target
    /// does before asking for a draw.
    pub fn set_draw_state(&mut self, idx: usize, state: ProgressDrawState)
        requires
            idx < old(self)@.slots.len(),
        ensures
            final(self).owner_id() == old(self).owner_id(),
            final(self)@ == (MultiView { slots: old(self)@.slots.update(idx as int, Some(state)), ..old(self)@ }),
    {
        proof {
            use_type_invariant(&*self);
        }
        let mut st = MultiProgressState::new(ProgressDrawTarget::Hidden);
        std::mem::swap(&mut st, &mut self.state);
        st.set_draw_state(idx, state);
        self.state = st;
    }

    /// Keeps the last lines of a bar that is gone, to be drawn once more at
    /// the top of the next draw.
    pub fn push_orphan_lines(&mut self, lines: Vec<String>)
        ensures
            final(self).owner_id() == old(self).owner_id(),
            final(self)@ == (MultiView { orphans: old(self)@.orphans + lines@, ..old(self)@ }),
    {
        proof {
            use_type_invariant(&*self);
        }
        let mut state = MultiProgressState::new(ProgressDrawTarget::Hidden);
        std::mem::swap(&mut state, &mut self.state);
        state.push_orphan_lines(lines);
        self.state = state;
    }
}

} // verus!
