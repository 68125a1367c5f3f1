use vstd::prelude::*;

use crate::alignment::MultiProgressAlignment;
use crate::frame::ProgressDrawState;
use crate::target::ProgressDrawTarget;

verus! {

/// The state of a multi progress, as the contracts speak of it.
///
/// `slots[i]` is what bar `i` last drew (`None` before its first draw and after
/// its removal); `free` lists the slots of removed bars, the last one to be
/// reused first; `ordering` lists the live slots from the top line down.
pub struct MultiView {
    pub slots: Seq<Option<ProgressDrawState>>,
    pub free: Seq<usize>,
    pub ordering: Seq<usize>,
    pub target: ProgressDrawTarget,
    pub move_cursor: bool,
    pub alignment: MultiProgressAlignment,
    pub orphans: Seq<String>,
}

/// Where a new bar goes in the visual order.
///
/// `After(b)` and `Before(b)` name the slot of a bar that is already shown.
#[derive(Debug, Clone, Copy, PartialEq, Eq, Structural)]
pub enum InsertLocation {
    End,
    Index(usize),
    IndexFromBack(usize),
    After(usize),
    Before(usize),
}

/// No value occurs twice in `s`.
pub open spec fn no_dups(s: Seq<usize>) -> bool {
    forall|i: int, j: int| 0 <= i < j < s.len() ==> s[i] != s[j]
}

/// Every value of `s` is below `n`.
pub open spec fn all_below(s: Seq<usize>, n: nat) -> bool {
    forall|i: int| 0 <= i < s.len() ==> s[i] < n
}

/// The free slots and the shown slots split the slots between them: each slot
/// is in exactly one of the two lists, once.
pub open spec fn wf(v: MultiView) -> bool {
    let n = v.slots.len();
    &&& all_below(v.free, n)
    &&& all_below(v.ordering, n)
    &&& no_dups(v.free)
    &&& no_dups(v.ordering)
    &&& forall|i: int, j: int|
        0 <= i < v.free.len() && 0 <= j < v.ordering.len() ==> v.free[i] != v.ordering[j]
    &&& forall|k: usize|
        #![trigger v.free.contains(k)]
        #![trigger v.ordering.contains(k)]
        k < n ==> v.free.contains(k) || v.ordering.contains(k)
    &&& v.free.len() + v.ordering.len() == n
}

/// The number of bars shown: slots that are not free.
pub open spec fn live_count(v: MultiView) -> int {
    v.slots.len() - v.free.len()
}

/// The position of `x` in `s` (the only one, where `s` holds no duplicates).
pub open spec fn index_in(s: Seq<usize>, x: usize) -> int {
    choose|i: int| 0 <= i < s.len() && s[i] == x
}

/// The slot the next inserted bar gets: the last freed one, else a new one.
pub open spec fn next_slot(v: MultiView) -> usize {
    if v.free.len() > 0 {
        v.free.last()
    } else {
        v.slots.len() as usize
    }
}

/// An insert location is usable when a bar it is relative to is shown.
pub open spec fn location_ok(v: MultiView, loc: InsertLocation) -> bool {
    match loc {
        InsertLocation::After(b) => v.ordering.contains(b),
        InsertLocation::Before(b) => v.ordering.contains(b),
        _ => true,
    }
}

/// The position in `ordering` at which a bar inserted at `loc` lands.
pub open spec fn insert_pos(ordering: Seq<usize>, loc: InsertLocation) -> int {
    match loc {
        InsertLocation::End => ordering.len() as int,
        InsertLocation::Index(p) => if p < ordering.len() {
            p as int
        } else {
            ordering.len() as int
        },
        InsertLocation::IndexFromBack(p) => if p < ordering.len() {
            ordering.len() - p
        } else {
            0
        },
        InsertLocation::After(b) => index_in(ordering, b) + 1,
        InsertLocation::Before(b) => index_in(ordering, b),
    }
}

/// The state after a bar is inserted at `loc`: it takes `next_slot(v)`, whose
/// draw state is cleared, and is shown at `insert_pos(v.ordering, loc)`.
pub open spec fn spec_insert(v: MultiView, loc: InsertLocation) -> MultiView {
    let idx = next_slot(v);
    MultiView {
        slots: if v.free.len() > 0 {
            v.slots.update(idx as int, None)
        } else {
            v.slots.push(None)
        },
        free: if v.free.len() > 0 {
            v.free.drop_last()
        } else {
            v.free
        },
        ordering: v.ordering.insert(insert_pos(v.ordering, loc), idx),
        ..v
    }
}

/// The state after the bar in slot `idx` is removed: nothing changes if the
/// slot is already free; else its draw state is dropped, the slot goes to the
/// end of the free list and out of the ordering.
pub open spec fn spec_remove(v: MultiView, idx: usize) -> MultiView {
    if v.free.contains(idx) {
        v
    } else {
        MultiView {
            slots: v.slots.update(idx as int, None),
            free: v.free.push(idx),
            ordering: v.ordering.remove(index_in(v.ordering, idx)),
            ..v
        }
    }
}

/// The lines of one slot: what it last drew, or nothing.
pub open spec fn slot_lines(slot: Option<ProgressDrawState>) -> Seq<String> {
    match slot {
        Some(ds) => ds.lines@,
        None => Seq::empty(),
    }
}

/// The lines of the slots listed in `ordering`, one slot after the other.
pub open spec fn visible_lines(slots: Seq<Option<ProgressDrawState>>, ordering: Seq<usize>) -> Seq<
    String,
>
    decreases ordering.len(),
{
    if ordering.len() == 0 {
        Seq::empty()
    } else {
        visible_lines(slots, ordering.drop_last()) + slot_lines(slots[ordering.last() as int])
    }
}

/// The lines of a draw: the orphaned lines first, then every shown bar's
/// lines in visual order.
pub open spec fn frame_lines(v: MultiView) -> Seq<String> {
    v.orphans + visible_lines(v.slots, v.ordering)
}

/// Whether the multi progress has anywhere to draw.
pub open spec fn drawable(v: MultiView) -> bool {
    !(v.target is Hidden)
}

/// The state after a draw: the orphaned lines, drawn once, are forgotten.
pub open spec fn spec_after_draw(v: MultiView) -> MultiView {
    if drawable(v) {
        MultiView { orphans: Seq::empty(), ..v }
    } else {
        v
    }
}

/// The frame a draw hands to the terminal.
pub open spec fn is_draw_frame(v: MultiView, force_draw: bool, f: ProgressDrawState) -> bool {
    &&& f.lines@ == frame_lines(v)
    &&& f.orphan_lines == v.orphans.len()
    &&& f.force_draw == (force_draw || v.orphans.len() > 0)
    &&& f.move_cursor == v.move_cursor
    &&& f.alignment == v.alignment
}

/// The frame a clear hands to the terminal: no lines, drawn at once.
pub open spec fn is_clear_frame(v: MultiView, f: ProgressDrawState) -> bool {
    &&& f.lines@ == Seq::<String>::empty()
    &&& f.orphan_lines == 0
    &&& f.force_draw
    &&& f.move_cursor == v.move_cursor
    &&& f.alignment == v.alignment
}

// ---------------------------------------------------------------------------
// Facts about sequences that the proofs below use.

pub proof fn lemma_index_in(s: Seq<usize>, x: usize)
    requires
        s.contains(x),
    ensures
        0 <= index_in(s, x) < s.len(),
        s[index_in(s, x)] == x,
{
}

pub proof fn lemma_index_in_unique(s: Seq<usize>, x: usize, i: int)
    requires
        no_dups(s),
        0 <= i < s.len(),
        s[i] == x,
    ensures
        index_in(s, x) == i,
{
    lemma_index_in(s, x);
}

pub proof fn lemma_insert_contains(s: Seq<usize>, pos: int, x: usize)
    requires
        0 <= pos <= s.len(),
    ensures
        forall|y: usize| #[trigger] s.insert(pos, x).contains(y) <==> (y == x || s.contains(y)),
{
    let t = s.insert(pos, x);
    assert forall|y: usize| #[trigger] t.contains(y) <==> (y == x || s.contains(y)) by {
        if t.contains(y) {
            let i = choose|i: int| 0 <= i < t.len() && t[i] == y;
            if i < pos {
                assert(s[i] == y);
            } else if i > pos {
                assert(s[i - 1] == y);
            }
        }
        if y == x {
            assert(t[pos] == x);
        } else if s.contains(y) {
            let i = choose|i: int| 0 <= i < s.len() && s[i] == y;
            if i < pos {
                assert(t[i] == y);
            } else {
                assert(t[i + 1] == y);
            }
        }
    }
}

pub proof fn lemma_remove_contains(s: Seq<usize>, p: int)
    requires
        no_dups(s),
        0 <= p < s.len(),
    ensures
        no_dups(s.remove(p)),
        forall|y: usize| #[trigger] s.remove(p).contains(y) <==> (y != s[p] && s.contains(y)),
{
    let t = s.remove(p);
    assert forall|i: int, j: int| 0 <= i < j < t.len() implies t[i] != t[j] by {
        let si = if i < p { i } else { i + 1 };
        let sj = if j < p { j } else { j + 1 };
        assert(t[i] == s[si] && t[j] == s[sj]);
    }
    assert forall|y: usize| #[trigger] t.contains(y) <==> (y != s[p] && s.contains(y)) by {
        if t.contains(y) {
            let i = choose|i: int| 0 <= i < t.len() && t[i] == y;
            let si = if i < p { i } else { i + 1 };
            assert(s[si] == y);
        }
        if y != s[p] && s.contains(y) {
            let i = choose|i: int| 0 <= i < s.len() && s[i] == y;
            if i < p {
                assert(t[i] == y);
            } else {
                assert(t[i - 1] == y);
            }
        }
    }
}

pub proof fn lemma_insert_no_dups(s: Seq<usize>, pos: int, x: usize)
    requires
        no_dups(s),
        !s.contains(x),
        0 <= pos <= s.len(),
    ensures
        no_dups(s.insert(pos, x)),
{
    let t = s.insert(pos, x);
    assert forall|i: int, j: int| 0 <= i < j < t.len() implies t[i] != t[j] by {
        if i == pos {
            let sj = j - 1;
            assert(t[j] == s[sj]);
        } else if j == pos {
            assert(t[i] == s[i]);
        } else {
            let si = if i < pos { i } else { i - 1 };
            let sj = if j < pos { j } else { j - 1 };
            assert(t[i] == s[si] && t[j] == s[sj]);
        }
    }
}


/// The position a bar lands at lies within the ordering, ends included.
pub proof fn lemma_insert_pos_in_range(v: MultiView, loc: InsertLocation)
    requires
        location_ok(v, loc),
    ensures
        0 <= insert_pos(v.ordering, loc) <= v.ordering.len(),
{
    match loc {
        InsertLocation::After(b) => lemma_index_in(v.ordering, b),
        InsertLocation::Before(b) => lemma_index_in(v.ordering, b),
        _ => {},
    }
}

// ---------------------------------------------------------------------------
// Laws.

/// Inserting a bar keeps the slots split between the free list and the
/// ordering: every slot is either free or shown, exactly once.
pub proof fn lemma_insert_keeps_wf(v: MultiView, loc: InsertLocation)
    requires
        wf(v),
        location_ok(v, loc),
        v.free.len() > 0 || v.slots.len() < usize::MAX,
    ensures
        wf(spec_insert(v, loc)),
        live_count(spec_insert(v, loc)) == spec_insert(v, loc).ordering.len(),
{
    let idx = next_slot(v);
    let pos = insert_pos(v.ordering, loc);
    let w = spec_insert(v, loc);
    lemma_insert_pos_in_range(v, loc);
    lemma_insert_contains(v.ordering, pos, idx);
    let n = w.slots.len();
    if v.free.len() > 0 {
        let last = v.free.len() - 1;
        assert(v.free[last] == idx);
        assert(!v.ordering.contains(idx));
        lemma_insert_no_dups(v.ordering, pos, idx);
        assert forall|i: int| 0 <= i < w.free.len() implies w.free[i] != idx by {
            assert(w.free[i] == v.free[i]);
        }
        assert forall|k: usize| k < n implies w.free.contains(k) || w.ordering.contains(k) by {
            if v.free.contains(k) && k != idx {
                let i = choose|i: int| 0 <= i < v.free.len() && v.free[i] == k;
                assert(i != last);
                assert(w.free[i] == k);
            }
            assert(w.ordering.contains(k) <==> (k == idx || v.ordering.contains(k)));
        }
        assert forall|i: int, j: int|
            0 <= i < w.free.len() && 0 <= j < w.ordering.len() implies w.free[i] != w.ordering[j] by {
            assert(w.free[i] == v.free[i]);
            assert(w.ordering.contains(w.ordering[j]));
            if w.ordering[j] != idx {
                assert(v.ordering.contains(w.ordering[j]));
                let jj = choose|jj: int| 0 <= jj < v.ordering.len() && v.ordering[jj] == w.ordering[j];
                assert(v.free[i] != v.ordering[jj]);
            }
        }
        assert forall|i: int| 0 <= i < w.ordering.len() implies w.ordering[i] < n by {
            assert(w.ordering.contains(w.ordering[i]));
            if w.ordering[i] != idx {
                let jj = choose|jj: int|
                    0 <= jj < v.ordering.len() && v.ordering[jj] == w.ordering[i];
            }
        }
    } else {
        assert(idx == v.slots.len());
        assert(!v.ordering.contains(idx)) by {
            if v.ordering.contains(idx) {
                let jj = choose|jj: int| 0 <= jj < v.ordering.len() && v.ordering[jj] == idx;
            }
        }
        lemma_insert_no_dups(v.ordering, pos, idx);
        assert forall|k: usize| k < n implies w.free.contains(k) || w.ordering.contains(k) by {
            assert(w.ordering.contains(k) <==> (k == idx || v.ordering.contains(k)));
        }
        assert forall|i: int| 0 <= i < w.ordering.len() implies w.ordering[i] < n by {
            assert(w.ordering.contains(w.ordering[i]));
            if w.ordering[i] != idx {
                let jj = choose|jj: int|
                    0 <= jj < v.ordering.len() && v.ordering[jj] == w.ordering[i];
            }
        }
    }
}

/// Removing a bar keeps the slots split between the free list and the
/// ordering.
pub proof fn lemma_remove_keeps_wf(v: MultiView, idx: usize)
    requires
        wf(v),
        idx < v.slots.len(),
    ensures
        wf(spec_remove(v, idx)),
        live_count(spec_remove(v, idx)) == spec_remove(v, idx).ordering.len(),
{
    if !v.free.contains(idx) {
        let w = spec_remove(v, idx);
        assert(v.ordering.contains(idx));
        let p = index_in(v.ordering, idx);
        lemma_index_in(v.ordering, idx);
        lemma_remove_contains(v.ordering, p);
        let n = v.slots.len();
        assert forall|i: int, j: int| 0 <= i < j < w.free.len() implies w.free[i] != w.free[j] by {
            if j == v.free.len() {
                assert(w.free[i] == v.free[i]);
            }
        }
        assert forall|i: int| 0 <= i < w.ordering.len() implies w.ordering[i] < n by {
            let si = if i < p { i } else { i + 1 };
            assert(w.ordering[i] == v.ordering[si]);
        }
        assert forall|i: int, j: int|
            0 <= i < w.free.len() && 0 <= j < w.ordering.len() implies w.free[i] != w.ordering[j] by {
            let sj = if j < p { j } else { j + 1 };
            assert(w.ordering[j] == v.ordering[sj]);
            if i < v.free.len() {
                assert(w.free[i] == v.free[i]);
            } else {
                assert(sj != p);
            }
        }
        assert forall|k: usize| k < n implies w.free.contains(k) || w.ordering.contains(k) by {
            if k == idx {
                assert(w.free[v.free.len() as int] == idx);
            } else if v.free.contains(k) {
                let i = choose|i: int| 0 <= i < v.free.len() && v.free[i] == k;
                assert(w.free[i] == k);
            }
        }
    }
}

} // verus!
