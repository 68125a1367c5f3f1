use vstd::prelude::*;

use crate::frame::ProgressDrawState;
use crate::alignment::MultiProgressAlignment;
use crate::multi::initial_view;
use crate::target::ProgressDrawTarget;
use crate::model::{
    drawable, frame_lines, index_in, is_clear_frame, insert_pos, is_draw_frame, lemma_index_in, lemma_index_in_unique,
    lemma_insert_keeps_wf, lemma_insert_pos_in_range, lemma_remove_keeps_wf, location_ok,
    next_slot, spec_after_draw, spec_insert, spec_remove, visible_lines, wf, InsertLocation,
    MultiView,
};

verus! {

/// Removing the bar that was just inserted gives back the visual order as it
/// was, and, when the insert reused a freed slot, the free list as it was.
pub proof fn law_remove_undoes_insert(v: MultiView, loc: InsertLocation)
    requires
        wf(v),
        location_ok(v, loc),
        v.free.len() > 0 || v.slots.len() < usize::MAX,
    ensures
        spec_remove(spec_insert(v, loc), next_slot(v)).ordering == v.ordering,
        v.free.len() > 0 ==> spec_remove(spec_insert(v, loc), next_slot(v)).free == v.free,
{
    let idx = next_slot(v);
    let w = spec_insert(v, loc);
    let p = insert_pos(v.ordering, loc);
    lemma_insert_keeps_wf(v, loc);
    lemma_insert_pos_in_range(v, loc);
    assert(w.ordering[p] == idx);
    assert(w.ordering.contains(idx));
    assert(!w.free.contains(idx)) by {
        if w.free.contains(idx) {
            let i = choose|i: int| 0 <= i < w.free.len() && w.free[i] == idx;
            assert(w.free[i] != w.ordering[p]);
        }
    }
    lemma_index_in_unique(w.ordering, idx, p);
    assert(w.ordering.remove(p) =~= v.ordering);
    if v.free.len() > 0 {
        assert(w.free.push(idx) =~= v.free);
    }
}

/// The next bar inserted after a removal takes the slot that was just freed.
pub proof fn law_removed_slot_is_reused(v: MultiView, idx: usize)
    requires
        wf(v),
        idx < v.slots.len(),
        !v.free.contains(idx),
    ensures
        next_slot(spec_remove(v, idx)) == idx,
{
}

/// Removing a bar a second time changes nothing.
pub proof fn law_remove_is_idempotent(v: MultiView, idx: usize)
    ensures
        spec_remove(spec_remove(v, idx), idx) == spec_remove(v, idx),
{
    let w = spec_remove(v, idx);
    if !v.free.contains(idx) {
        assert(w.free[w.free.len() - 1] == idx);
    }
}

/// A removed bar is no longer shown and its slot draws nothing.
pub proof fn law_removed_bar_is_gone(v: MultiView, idx: usize)
    requires
        wf(v),
        idx < v.slots.len(),
    ensures
        !spec_remove(v, idx).ordering.contains(idx),
        spec_remove(v, idx).free.contains(idx),
        !v.free.contains(idx) ==> spec_remove(v, idx).slots[idx as int] is None,
{
    lemma_remove_keeps_wf(v, idx);
    let w = spec_remove(v, idx);
    if v.free.contains(idx) {
        let i = choose|i: int| 0 <= i < v.free.len() && v.free[i] == idx;
        if w.ordering.contains(idx) {
            let j = choose|j: int| 0 <= j < w.ordering.len() && w.ordering[j] == idx;
            assert(w.free[i] != w.ordering[j]);
        }
    } else {
        let k = w.free.len() - 1;
        assert(w.free[k] == idx);
        if w.ordering.contains(idx) {
            let j = choose|j: int| 0 <= j < w.ordering.len() && w.ordering[j] == idx;
            assert(w.free[k] != w.ordering[j]);
        }
    }
}

/// An insert puts the new bar at `insert_pos` and keeps the other bars in
/// their order; the slots of the other bars, and what they drew, stay as
/// they were.
pub proof fn law_insert_keeps_others(v: MultiView, loc: InsertLocation)
    requires
        wf(v),
        location_ok(v, loc),
    ensures
        spec_insert(v, loc).ordering[insert_pos(v.ordering, loc)] == next_slot(v),
        spec_insert(v, loc).ordering.remove(insert_pos(v.ordering, loc)) == v.ordering,
        spec_insert(v, loc).ordering.len() == v.ordering.len() + 1,
        forall|k: int|
            0 <= k < v.slots.len() && k != next_slot(v) ==> spec_insert(v, loc).slots[k]
                == v.slots[k],
{
    lemma_insert_pos_in_range(v, loc);
    let p = insert_pos(v.ordering, loc);
    assert(spec_insert(v, loc).ordering.remove(p) =~= v.ordering);
}

/// Where each insert location puts the new bar: `End` below all others;
/// `Index(i)` at position `i`, or below all others when `i` is past the end;
/// `IndexFromBack(k)` with `k` bars below it, or above all others when there
/// are fewer; `Before(b)` just above `b`; `After(a)` just below `a`.
pub proof fn law_insert_position(v: MultiView, loc: InsertLocation)
    requires
        wf(v),
        location_ok(v, loc),
    ensures
        ({
            let w = spec_insert(v, loc).ordering;
            let p = insert_pos(v.ordering, loc);
            let n = v.ordering.len();
            &&& w[p] == next_slot(v)
            &&& match loc {
                InsertLocation::End => p == n,
                InsertLocation::Index(i) => if i <= n {
                    p == i
                } else {
                    p == n
                },
                InsertLocation::IndexFromBack(k) => if k <= n {
                    w.len() - 1 - p == k
                } else {
                    p == 0
                },
                InsertLocation::Before(b) => w[p + 1] == b,
                InsertLocation::After(a) => p >= 1 && w[p - 1] == a,
            }
        }),
{
    lemma_insert_pos_in_range(v, loc);
    match loc {
        InsertLocation::Before(b) => {
            lemma_index_in(v.ordering, b);
        },
        InsertLocation::After(a) => {
            lemma_index_in(v.ordering, a);
        },
        _ => {},
    }
}

/// Orphaned lines are drawn once: a draw right after a draw has no orphaned
/// lines, is forced only if asked to be, and shows just the bars' lines.
pub proof fn law_orphans_drawn_once(
    v: MultiView,
    force_draw: bool,
    f: ProgressDrawState,
)
    requires
        drawable(v),
        is_draw_frame(spec_after_draw(v), force_draw, f),
    ensures
        f.orphan_lines == 0,
        f.force_draw == force_draw,
        f.lines@ == visible_lines(v.slots, v.ordering),
{
    assert(spec_after_draw(v).orphans + visible_lines(v.slots, v.ordering) =~= visible_lines(
        v.slots,
        v.ordering,
    ));
}


/// Removing a shown bar takes exactly that bar out of the visual order: put
/// back at the position it had, the order is what it was before, so every
/// other bar keeps its place relative to the rest. This holds whatever the
/// bar last drew. The removed slot goes to the end of the free list and its
/// draw state is dropped; every other slot keeps what it drew.
pub proof fn law_remove_keeps_order_of_the_rest(v: MultiView, idx: usize, p: int)
    requires
        wf(v),
        0 <= p < v.ordering.len(),
        v.ordering[p] == idx,
    ensures
        spec_remove(v, idx).ordering.len() + 1 == v.ordering.len(),
        spec_remove(v, idx).ordering.insert(p, idx) == v.ordering,
        forall|i: int| 0 <= i < p ==> spec_remove(v, idx).ordering[i] == v.ordering[i],
        forall|i: int|
            p <= i < v.ordering.len() - 1 ==> spec_remove(v, idx).ordering[i] == v.ordering[i
                + 1],
        spec_remove(v, idx).free == v.free.push(idx),
        spec_remove(v, idx).slots.len() == v.slots.len(),
        spec_remove(v, idx).slots[idx as int] is None,
        forall|k: int|
            0 <= k < v.slots.len() && k != idx ==> spec_remove(v, idx).slots[k] == v.slots[k],
        spec_remove(v, idx).orphans == v.orphans,
        spec_remove(v, idx).target == v.target,
        spec_remove(v, idx).move_cursor == v.move_cursor,
        spec_remove(v, idx).alignment == v.alignment,
{
    assert(!v.free.contains(idx)) by {
        if v.free.contains(idx) {
            let i = choose|i: int| 0 <= i < v.free.len() && v.free[i] == idx;
            assert(v.free[i] != v.ordering[p]);
        }
    }
    lemma_index_in_unique(v.ordering, idx, p);
    assert(index_in(v.ordering, idx) == p);
    let w = spec_remove(v, idx);
    assert(w.ordering =~= v.ordering.remove(p));
    assert(w.ordering.insert(p, idx) =~= v.ordering);
}

/// The lines of one shown bar are exactly what it last drew, and nothing if
/// it has not drawn.
pub proof fn law_visible_lines_of_one_bar(slots: Seq<Option<ProgressDrawState>>, i: usize)
    ensures
        visible_lines(slots, seq![i]) == match slots[i as int] {
            Some(ds) => ds.lines@,
            None => Seq::<String>::empty(),
        },
{
    assert(seq![i].drop_last() =~= Seq::<usize>::empty());
    assert(visible_lines(slots, Seq::<usize>::empty()) =~= Seq::<String>::empty());
    assert(visible_lines(slots, seq![i]) =~= visible_lines(slots, seq![i].drop_last())
        + crate::model::slot_lines(slots[i as int]));
}

/// The bars' lines of two runs of bars, one above the other, are the lines of
/// the upper run followed by those of the lower run: each bar adds its own
/// lines and nothing else, whatever the others drew.
pub proof fn law_visible_lines_concat(
    slots: Seq<Option<ProgressDrawState>>,
    upper: Seq<usize>,
    lower: Seq<usize>,
)
    ensures
        visible_lines(slots, upper + lower) == visible_lines(slots, upper) + visible_lines(
            slots,
            lower,
        ),
    decreases lower.len(),
{
    if lower.len() == 0 {
        assert(upper + lower =~= upper);
        assert(visible_lines(slots, upper) + visible_lines(slots, lower) =~= visible_lines(
            slots,
            upper,
        ));
    } else {
        let o = upper + lower;
        assert(o.drop_last() =~= upper + lower.drop_last());
        assert(o.last() == lower.last());
        law_visible_lines_concat(slots, upper, lower.drop_last());
        assert(visible_lines(slots, o) =~= visible_lines(slots, upper) + visible_lines(
            slots,
            lower,
        ));
    }
}

/// A draw shows the orphaned lines first, in the order they were kept, then
/// the bars' lines.
pub proof fn law_frame_orphans_first(v: MultiView)
    ensures
        frame_lines(v).take(v.orphans.len() as int) == v.orphans,
        frame_lines(v).skip(v.orphans.len() as int) == visible_lines(v.slots, v.ordering),
        frame_lines(v).len() == v.orphans.len() + visible_lines(v.slots, v.ordering).len(),
{
    assert(frame_lines(v).take(v.orphans.len() as int) =~= v.orphans);
    assert(frame_lines(v).skip(v.orphans.len() as int) =~= visible_lines(v.slots, v.ordering));
}

/// A draw frame carries its flags: it counts the orphaned lines at its top,
/// is forced when asked or when there are orphaned lines, and takes
/// `move_cursor` and the alignment from the multi progress.
pub proof fn law_draw_frame_flags(v: MultiView, force_draw: bool, f: ProgressDrawState)
    requires
        is_draw_frame(v, force_draw, f),
    ensures
        f.lines@.take(f.orphan_lines as int) == v.orphans,
        f.orphan_lines == v.orphans.len(),
        f.force_draw <==> (force_draw || v.orphans.len() > 0),
        f.move_cursor == v.move_cursor,
        f.alignment == v.alignment,
{
    law_frame_orphans_first(v);
}

/// A draw leaves everything but the orphaned lines as it was; a drawable
/// multi progress forgets them, a hidden one keeps them.
pub proof fn law_draw_forgets_only_orphans(v: MultiView)
    ensures
        spec_after_draw(v).slots == v.slots,
        spec_after_draw(v).free == v.free,
        spec_after_draw(v).ordering == v.ordering,
        spec_after_draw(v).target == v.target,
        spec_after_draw(v).move_cursor == v.move_cursor,
        spec_after_draw(v).alignment == v.alignment,
        !(v.target is Hidden) ==> spec_after_draw(v).orphans.len() == 0,
        v.target is Hidden ==> spec_after_draw(v).orphans == v.orphans,
{
}

/// Only a hidden target has nowhere to draw.
pub proof fn law_drawable_unless_hidden(v: MultiView)
    ensures
        drawable(v) <==> !(v.target is Hidden),
{
}

/// A clear frame is empty and always forced, whatever the flags of the
/// multi progress; it takes `move_cursor` and the alignment from it.
pub proof fn law_clear_frame_is_empty_and_forced(v: MultiView, f: ProgressDrawState)
    requires
        is_clear_frame(v, f),
    ensures
        f.lines@.len() == 0,
        f.orphan_lines == 0,
        f.force_draw,
        f.move_cursor == v.move_cursor,
        f.alignment == v.alignment,
{
}

/// A new multi progress draws to exactly the target it was built with, and
/// has no bars, no free slots and no orphaned lines.
pub proof fn law_new_keeps_its_target(t: ProgressDrawTarget)
    ensures
        initial_view(t).target == t,
        initial_view(t).slots.len() == 0,
        initial_view(t).free.len() == 0,
        initial_view(t).ordering.len() == 0,
        initial_view(t).orphans.len() == 0,
        !initial_view(t).move_cursor,
        initial_view(t).alignment == MultiProgressAlignment::Top,
        wf(initial_view(t)),
{
}

/// A new bar takes the most recently freed slot, or a slot past all existing
/// ones when none is free; either way a slot that no shown bar holds. Its
/// slot starts with no draw state, and the free list loses just that slot.
pub proof fn law_insert_slot(v: MultiView, loc: InsertLocation)
    requires
        wf(v),
        location_ok(v, loc),
        v.free.len() > 0 || v.slots.len() < usize::MAX,
    ensures
        !v.ordering.contains(next_slot(v)),
        v.free.len() > 0 ==> next_slot(v) == v.free[v.free.len() - 1] && spec_insert(
            v,
            loc,
        ).free == v.free.take(v.free.len() - 1) && spec_insert(v, loc).slots.len()
            == v.slots.len(),
        v.free.len() == 0 ==> next_slot(v) == v.slots.len() && spec_insert(v, loc).free
            == v.free && spec_insert(v, loc).slots.len() == v.slots.len() + 1,
        spec_insert(v, loc).slots[next_slot(v) as int] is None,
        spec_insert(v, loc).orphans == v.orphans,
        spec_insert(v, loc).target == v.target,
        spec_insert(v, loc).move_cursor == v.move_cursor,
        spec_insert(v, loc).alignment == v.alignment,
{
    if v.ordering.contains(next_slot(v)) {
        let j = choose|j: int| 0 <= j < v.ordering.len() && v.ordering[j] == next_slot(v);
        if v.free.len() > 0 {
            assert(v.free[v.free.len() - 1] != v.ordering[j]);
        } else {
            assert(v.ordering[j] < v.slots.len());
        }
    }
}

} // verus!
