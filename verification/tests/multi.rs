use lib::bar::ProgressBar;
use lib::multi::MultiProgress;
use lib::target::ProgressDrawTarget;

fn extract_index(pb: &ProgressBar) -> usize {
    pb.draw_target().remote().unwrap()
}

#[test]
fn test_draw_delta_deadlock() {
    // see issue #187
    let mut mpb = MultiProgress::new();
    let mut pb = mpb.add(ProgressBar::new(1));
    pb.set_draw_delta(2);
    drop(pb);
}

#[test]
fn test_abandon_deadlock() {
    let mut mpb = MultiProgress::new();
    let mut pb = mpb.add(ProgressBar::new(1));
    pb.set_draw_delta(2);
    pb.abandon();
    drop(pb);
}

#[test]
fn late_pb_drop() {
    let pb = ProgressBar::new(10);
    let mut mpb = MultiProgress::new();
    #[allow(clippy::redundant_clone)]
    mpb.add(pb.clone());
}

#[test]
fn progress_bar_sync_send() {
    let _: Box<dyn Sync> = Box::new(ProgressBar::new(1));
    let _: Box<dyn Send> = Box::new(ProgressBar::new(1));
    let _: Box<dyn Sync> = Box::new(MultiProgress::new());
    let _: Box<dyn Send> = Box::new(MultiProgress::new());
}

#[test]
fn multi_progress_hidden() {
    let mut mpb = MultiProgress::with_draw_target(ProgressDrawTarget::hidden());
    let mut pb = mpb.add(ProgressBar::new(123));
    pb.finish();
}

#[test]
fn multi_progress_modifications() {
    let mut mp = MultiProgress::new();
    let p0 = mp.add(ProgressBar::new(1));
    let p1 = mp.add(ProgressBar::new(1));
    let p2 = mp.add(ProgressBar::new(1));
    let p3 = mp.add(ProgressBar::new(1));
    mp.remove(&p2);
    mp.remove(&p1);
    let p4 = mp.insert(1, ProgressBar::new(1));

    let state = mp.state();
    // the removed place for p1 is reused
    assert_eq!(state.draw_states().len(), 4);
    assert_eq!(state.len(), 3);

    // free_set may contain 1 or 2
    match state.free_set().last() {
        Some(1) => {
            assert_eq!(state.ordering(), vec![0, 2, 3]);
            assert!(state.draw_states()[1].is_none());
            assert_eq!(extract_index(&p4), 2);
        }
        Some(2) => {
            assert_eq!(state.ordering(), vec![0, 1, 3]);
            assert!(state.draw_states()[2].is_none());
            assert_eq!(extract_index(&p4), 1);
        }
        _ => unreachable!(),
    }

    assert_eq!(extract_index(&p0), 0);
    assert_eq!(extract_index(&p1), 1);
    assert_eq!(extract_index(&p2), 2);
    assert_eq!(extract_index(&p3), 3);
}

#[test]
fn multi_progress_insert_from_back() {
    let mut mp = MultiProgress::new();
    let p0 = mp.add(ProgressBar::new(1));
    let p1 = mp.add(ProgressBar::new(1));
    let p2 = mp.add(ProgressBar::new(1));
    let p3 = mp.insert_from_back(1, ProgressBar::new(1));
    let p4 = mp.insert_from_back(10, ProgressBar::new(1));

    let state = mp.state();
    assert_eq!(state.ordering(), vec![4, 0, 1, 3, 2]);
    assert_eq!(extract_index(&p0), 0);
    assert_eq!(extract_index(&p1), 1);
    assert_eq!(extract_index(&p2), 2);
    assert_eq!(extract_index(&p3), 3);
    assert_eq!(extract_index(&p4), 4);
}

#[test]
fn multi_progress_insert_after() {
    let mut mp = MultiProgress::new();
    let p0 = mp.add(ProgressBar::new(1));
    let p1 = mp.add(ProgressBar::new(1));
    let p2 = mp.add(ProgressBar::new(1));
    let p3 = mp.insert_after(&p2, ProgressBar::new(1));
    let p4 = mp.insert_after(&p0, ProgressBar::new(1));

    let state = mp.state();
    assert_eq!(state.ordering(), vec![0, 4, 1, 2, 3]);
    assert_eq!(extract_index(&p0), 0);
    assert_eq!(extract_index(&p1), 1);
    assert_eq!(extract_index(&p2), 2);
    assert_eq!(extract_index(&p3), 3);
    assert_eq!(extract_index(&p4), 4);
}

#[test]
fn multi_progress_insert_before() {
    let mut mp = MultiProgress::new();
    let p0 = mp.add(ProgressBar::new(1));
    let p1 = mp.add(ProgressBar::new(1));
    let p2 = mp.add(ProgressBar::new(1));
    let p3 = mp.insert_before(&p0, ProgressBar::new(1));
    let p4 = mp.insert_before(&p2, ProgressBar::new(1));

    let state = mp.state();
    assert_eq!(state.ordering(), vec![3, 0, 1, 4, 2]);
    assert_eq!(extract_index(&p0), 0);
    assert_eq!(extract_index(&p1), 1);
    assert_eq!(extract_index(&p2), 2);
    assert_eq!(extract_index(&p3), 3);
    assert_eq!(extract_index(&p4), 4);
}

#[test]
fn multi_progress_insert_before_and_after() {
    let mut mp = MultiProgress::new();
    let p0 = mp.add(ProgressBar::new(1));
    let p1 = mp.add(ProgressBar::new(1));
    let p2 = mp.add(ProgressBar::new(1));
    let p3 = mp.insert_before(&p0, ProgressBar::new(1));
    let p4 = mp.insert_after(&p3, ProgressBar::new(1));
    let p5 = mp.insert_after(&p3, ProgressBar::new(1));
    let p6 = mp.insert_before(&p1, ProgressBar::new(1));

    let state = mp.state();
    assert_eq!(state.ordering(), vec![3, 5, 4, 0, 6, 1, 2]);
    assert_eq!(extract_index(&p0), 0);
    assert_eq!(extract_index(&p1), 1);
    assert_eq!(extract_index(&p2), 2);
    assert_eq!(extract_index(&p3), 3);
    assert_eq!(extract_index(&p4), 4);
    assert_eq!(extract_index(&p5), 5);
    assert_eq!(extract_index(&p6), 6);
}

#[test]
fn multi_progress_multiple_remove() {
    let mut mp = MultiProgress::new();
    let p0 = mp.add(ProgressBar::new(1));
    let p1 = mp.add(ProgressBar::new(1));
    // double remove beyond the first one have no effect
    mp.remove(&p0);
    mp.remove(&p0);
    mp.remove(&p0);

    let state = mp.state();
    // the removed place for p1 is reused
    assert_eq!(state.draw_states().len(), 2);
    assert_eq!(state.free_set().len(), 1);
    assert_eq!(state.len(), 1);
    assert!(state.draw_states()[0].is_none());
    assert_eq!(state.free_set().last(), Some(&0));

    assert_eq!(state.ordering(), vec![1]);
    assert_eq!(extract_index(&p0), 0);
    assert_eq!(extract_index(&p1), 1);
}
