use lib::alignment::MultiProgressAlignment;
use lib::bar::{BarStatus, ProgressBar};
use lib::frame::ProgressDrawState;
use lib::multi::MultiProgress;
use lib::target::ProgressDrawTarget;

fn index_of(pb: &ProgressBar) -> usize {
    pb.draw_target().remote().unwrap()
}

fn frame_of(lines: &[&str]) -> ProgressDrawState {
    ProgressDrawState {
        lines: lines.iter().map(|s| s.to_string()).collect(),
        orphan_lines: 0,
        force_draw: false,
        move_cursor: false,
        alignment: MultiProgressAlignment::Top,
    }
}

#[test]
fn remove_undoes_insert() {
    let mut mp = MultiProgress::new();
    let _a = mp.add(ProgressBar::new(1));
    let b = mp.add(ProgressBar::new(1));
    let _c = mp.add(ProgressBar::new(1));
    mp.remove(&b);
    let before_order = mp.state().ordering().to_vec();
    let before_free = mp.state().free_set().to_vec();
    let d = mp.insert(1, ProgressBar::new(1));
    assert_eq!(mp.state().ordering(), vec![0, 1, 2]);
    mp.remove(&d);
    assert_eq!(mp.state().ordering().to_vec(), before_order);
    assert_eq!(mp.state().free_set().to_vec(), before_free);
}

#[test]
fn removed_slot_is_reused_last_first() {
    let mut mp = MultiProgress::new();
    let a = mp.add(ProgressBar::new(1));
    let b = mp.add(ProgressBar::new(1));
    let _c = mp.add(ProgressBar::new(1));
    mp.remove(&a);
    mp.remove(&b);
    let d = mp.add(ProgressBar::new(1));
    assert_eq!(index_of(&d), 1);
    let e = mp.add(ProgressBar::new(1));
    assert_eq!(index_of(&e), 0);
    let f = mp.add(ProgressBar::new(1));
    assert_eq!(index_of(&f), 3);
    assert_eq!(mp.state().ordering(), vec![2, 1, 0, 3]);
    assert_eq!(mp.state().draw_states().len(), 4);
    assert!(mp.state().free_set().is_empty());
}

#[test]
fn remove_twice_changes_nothing() {
    let mut mp = MultiProgress::new();
    let a = mp.add(ProgressBar::new(1));
    let _b = mp.add(ProgressBar::new(1));
    mp.remove(&a);
    let order = mp.state().ordering().to_vec();
    let free = mp.state().free_set().to_vec();
    mp.remove(&a);
    assert_eq!(mp.state().ordering().to_vec(), order);
    assert_eq!(mp.state().free_set().to_vec(), free);
    assert_eq!(mp.state().len(), 1);
}

#[test]
fn removed_bar_is_gone_and_cleared() {
    let mut mp = MultiProgress::new();
    let a = mp.add(ProgressBar::new(1));
    let b = mp.add(ProgressBar::new(1));
    mp.set_draw_state(index_of(&a), frame_of(&["a"]));
    mp.remove(&a);
    assert!(mp.state().draw_states()[0].is_none());
    assert!(!mp.state().ordering().contains(&index_of(&a)));
    assert_eq!(mp.state().ordering(), vec![index_of(&b)]);
}

#[test]
fn remove_of_a_bar_not_in_a_multi_progress_does_nothing() {
    let mut mp = MultiProgress::new();
    let _a = mp.add(ProgressBar::new(1));
    let lone = ProgressBar::new(5);
    mp.remove(&lone);
    assert_eq!(mp.state().ordering(), vec![0]);
    assert!(mp.state().free_set().is_empty());
}

#[test]
fn insert_positions() {
    let mut mp = MultiProgress::new();
    let a = mp.add(ProgressBar::new(1));
    let _b = mp.add(ProgressBar::new(1));
    // past the end: below all others
    let c = mp.insert(7, ProgressBar::new(1));
    assert_eq!(mp.state().ordering(), vec![0, 1, 2]);
    // at the top
    let _d = mp.insert(0, ProgressBar::new(1));
    assert_eq!(mp.state().ordering(), vec![3, 0, 1, 2]);
    // nothing below it
    let _e = mp.insert_from_back(0, ProgressBar::new(1));
    assert_eq!(mp.state().ordering(), vec![3, 0, 1, 2, 4]);
    // exactly as many as there are: at the top
    let _f = mp.insert_from_back(5, ProgressBar::new(1));
    assert_eq!(mp.state().ordering(), vec![5, 3, 0, 1, 2, 4]);
    let _g = mp.insert_after(&c, ProgressBar::new(1));
    assert_eq!(mp.state().ordering(), vec![5, 3, 0, 1, 2, 6, 4]);
    let _h = mp.insert_before(&a, ProgressBar::new(1));
    assert_eq!(mp.state().ordering(), vec![5, 3, 7, 0, 1, 2, 6, 4]);
    assert_eq!(mp.state().len(), 8);
}

#[test]
fn insert_clears_a_reused_slot() {
    let mut mp = MultiProgress::new();
    let a = mp.add(ProgressBar::new(1));
    mp.remove(&a);
    mp.set_draw_state(0, frame_of(&["stale"]));
    let b = mp.add(ProgressBar::new(1));
    assert_eq!(index_of(&b), 0);
    assert!(mp.state().draw_states()[0].is_none());
}

#[test]
fn added_bar_keeps_its_progress() {
    let mut mp = MultiProgress::new();
    let mut pb = ProgressBar::new(40);
    pb.set_draw_delta(3);
    let pb = mp.add(pb);
    assert_eq!(pb.length(), 40);
    assert_eq!(pb.position(), 0);
    assert_eq!(pb.draw_target().remote(), Some(0));
}

#[test]
fn finish_and_abandon() {
    let mut a = ProgressBar::new(9);
    a.finish();
    assert_eq!(a.position(), 9);
    assert_eq!(a.status(), BarStatus::Finished);
    let mut b = ProgressBar::new(9);
    b.abandon();
    assert_eq!(b.position(), 0);
    assert_eq!(b.status(), BarStatus::Abandoned);
}

#[test]
fn draw_puts_orphans_first_then_bars_in_order() {
    let mut mp = MultiProgress::new();
    let a = mp.add(ProgressBar::new(1));
    let b = mp.insert(0, ProgressBar::new(1));
    let _c = mp.add(ProgressBar::new(1));
    mp.set_draw_state(index_of(&a), frame_of(&["a1", "a2"]));
    mp.set_draw_state(index_of(&b), frame_of(&["b1"]));
    mp.push_orphan_lines(vec!["gone".to_string()]);
    mp.set_move_cursor(true);
    mp.set_alignment(MultiProgressAlignment::Bottom);

    let f = mp.draw(false).unwrap();
    assert_eq!(f.lines, vec!["gone", "b1", "a1", "a2"]);
    assert_eq!(f.orphan_lines, 1);
    assert!(f.force_draw);
    assert!(f.move_cursor);
    assert_eq!(f.alignment, MultiProgressAlignment::Bottom);
    assert!(mp.state().orphan_lines().is_empty());

    // orphans are drawn once
    let g = mp.draw(false).unwrap();
    assert_eq!(g.lines, vec!["b1", "a1", "a2"]);
    assert_eq!(g.orphan_lines, 0);
    assert!(!g.force_draw);
    let h = mp.draw(true).unwrap();
    assert!(h.force_draw);
}

#[test]
fn hidden_target_draws_nothing() {
    let mut mp = MultiProgress::with_draw_target(ProgressDrawTarget::hidden());
    let a = mp.add(ProgressBar::new(1));
    mp.set_draw_state(index_of(&a), frame_of(&["a"]));
    mp.push_orphan_lines(vec!["gone".to_string()]);
    assert!(mp.draw(true).is_none());
    assert!(mp.clear().is_none());
    assert_eq!(mp.state().orphan_lines().len(), 1);
    mp.set_draw_target(ProgressDrawTarget::stderr());
    let f = mp.draw(false).unwrap();
    assert_eq!(f.lines, vec!["gone", "a"]);
}

#[test]
fn clear_frame_is_empty_and_forced() {
    let mut mp = MultiProgress::new();
    let a = mp.add(ProgressBar::new(1));
    mp.set_draw_state(index_of(&a), frame_of(&["a"]));
    mp.set_move_cursor(true);
    let f = mp.clear().unwrap();
    assert!(f.lines.is_empty());
    assert_eq!(f.orphan_lines, 0);
    assert!(f.force_draw);
    assert!(f.move_cursor);
    assert_eq!(f.alignment, MultiProgressAlignment::Top);
}

#[test]
fn new_multi_progress_defaults() {
    let mp = MultiProgress::new();
    assert_eq!(mp.state().draw_target().refresh_rate(), Some(15));
    assert!(!mp.state().draw_target().is_hidden());
    assert!(!mp.state().move_cursor());
    assert_eq!(mp.state().alignment(), MultiProgressAlignment::Top);
    assert_eq!(MultiProgressAlignment::default(), MultiProgressAlignment::Top);
    assert_eq!(mp.state().len(), 0);
    let d = MultiProgress::default();
    assert!(d.state().ordering().is_empty());
}

#[test]
fn remove_of_a_bar_of_another_multi_progress_does_nothing() {
    let mut mine = MultiProgress::new();
    let mut other = MultiProgress::new();
    let _a = mine.add(ProgressBar::new(1));
    let _b = mine.add(ProgressBar::new(1));
    let foreign = other.add(ProgressBar::new(1));
    assert_eq!(foreign.draw_target().remote(), Some(0));
    mine.remove(&foreign);
    assert_eq!(mine.state().ordering(), vec![0, 1]);
    assert!(mine.state().free_set().is_empty());
    // the bar still belongs to the other one
    other.remove(&foreign);
    assert!(other.state().ordering().is_empty());
    assert_eq!(other.state().free_set(), vec![0]);
}

#[test]
fn remove_idx_frees_the_slot() {
    let mut mp = MultiProgress::new();
    let _a = mp.add(ProgressBar::new(1));
    let _b = mp.add(ProgressBar::new(1));
    let _c = mp.add(ProgressBar::new(1));
    mp.remove_idx(1);
    assert_eq!(mp.state().ordering(), vec![0, 2]);
    assert_eq!(mp.state().free_set(), vec![1]);
    mp.remove_idx(1);
    assert_eq!(mp.state().ordering(), vec![0, 2]);
    assert_eq!(mp.state().free_set(), vec![1]);
}

#[test]
fn a_clone_of_a_bar_belongs_to_the_same_multi_progress() {
    let mut mp = MultiProgress::new();
    let a = mp.add(ProgressBar::new(1));
    let copy = a.clone();
    mp.remove(&copy);
    assert!(mp.state().ordering().is_empty());
}

#[test]
fn slot_of_names_only_bars_of_this_multi_progress() {
    let mut mp = MultiProgress::new();
    let mut other = MultiProgress::new();
    let _a = mp.add(ProgressBar::new(1));
    let b = mp.add(ProgressBar::new(1));
    let foreign = other.add(ProgressBar::new(1));
    assert_eq!(mp.slot_of(&b), Some(1));
    assert_eq!(mp.slot_of(&foreign), None);
    assert_eq!(other.slot_of(&foreign), Some(0));
    assert_eq!(mp.slot_of(&ProgressBar::new(3)), None);
}

#[test]
fn set_draw_target_hands_back_the_previous_one() {
    let mut mp = MultiProgress::new();
    let _a = mp.add(ProgressBar::new(1));
    let previous = mp.set_draw_target(ProgressDrawTarget::hidden());
    assert_eq!(previous.refresh_rate(), Some(15));
    assert!(mp.state().draw_target().is_hidden());
    assert_eq!(mp.state().ordering(), vec![0]);
    let previous = mp.set_draw_target(ProgressDrawTarget::stderr());
    assert!(previous.is_hidden());
}
