use std::collections::{HashMap, HashSet};
use winflow::capture::{drop_untracked, jobs, store, Scheduler, Thumb, ThumbCache};
use winflow::state::Core;

const MS: u64 = 1_000_000;

fn thumb(at: u64, confirmed: bool) -> Thumb {
    Thumb { image: 7, at, gen: 1, confirmed }
}

fn core_with(ids: &[u32]) -> Core {
    let mut core = Core::new(true, 0);
    core.tracked_ids = ids.to_vec();
    core
}

#[test]
fn refresh_captures_only_missing_thumbnails() {
    let mut s = Scheduler::new(0);
    let mut core = core_with(&[1, 2, 3]);
    core.refresh_all = true;
    let mut thumbs: ThumbCache = HashMap::new();
    thumbs.insert(2, thumb(0, true));
    let pass = s.begin_pass(&mut core, &thumbs, 100 * MS);
    assert!(pass.capture && !pass.stale_due && !pass.resync);
    assert!(!core.refresh_all);
    assert_eq!(jobs(&core, &thumbs, &pass, 100 * MS), vec![1, 3]);
    // The request is taken: the next cycle captures nothing.
    let pass = s.begin_pass(&mut core, &thumbs, 150 * MS);
    assert!(!pass.capture);
    assert!(jobs(&core, &thumbs, &pass, 150 * MS).is_empty());
}

#[test]
fn periodic_pass_captures_stale_thumbnails() {
    let mut s = Scheduler::new(0);
    let mut core = core_with(&[1, 2]);
    let mut thumbs: ThumbCache = HashMap::new();
    thumbs.insert(1, thumb(0, true));
    thumbs.insert(2, thumb(44_000 * MS, true));
    let now = 45_001 * MS;
    let pass = s.begin_pass(&mut core, &thumbs, now);
    assert!(pass.stale_due);
    assert_eq!(jobs(&core, &thumbs, &pass, now), vec![1]);
    assert_eq!(s.last_stale_pass, now);
    let pass = s.begin_pass(&mut core, &thumbs, now + 50 * MS);
    assert!(!pass.stale_due && !pass.capture);
}

#[test]
fn refresh_does_not_restart_the_interval() {
    let mut s = Scheduler::new(0);
    let mut core = core_with(&[1]);
    let thumbs: ThumbCache = HashMap::new();
    for i in 1..44 {
        core.refresh_all = true;
        let pass = s.begin_pass(&mut core, &thumbs, i * 1000 * MS);
        assert!(pass.capture && !pass.stale_due);
    }
    assert!(s.begin_pass(&mut core, &thumbs, 45_000 * MS).stale_due);
}

#[test]
fn first_capture_is_confirmed_once() {
    let mut s = Scheduler::new(0);
    let mut core = core_with(&[5]);
    let mut thumbs: ThumbCache = HashMap::new();
    let mut gen = 0;
    assert_eq!(store(&mut thumbs, &mut gen, 5, 100, 10 * MS), None);
    assert!(!thumbs[&5].confirmed);
    assert_eq!(thumbs[&5].gen, 1);
    // Not settled yet.
    let pass = s.begin_pass(&mut core, &thumbs, 59 * MS);
    assert!(!pass.capture);
    let pass = s.begin_pass(&mut core, &thumbs, 60 * MS);
    assert!(pass.capture);
    assert_eq!(jobs(&core, &thumbs, &pass, 60 * MS), vec![5]);
    assert_eq!(store(&mut thumbs, &mut gen, 5, 101, 61 * MS), Some(100));
    assert!(thumbs[&5].confirmed);
    assert_eq!(thumbs[&5].gen, 2);
    assert!(!s.begin_pass(&mut core, &thumbs, 500 * MS).capture);
}

#[test]
fn generation_wraps_around() {
    let mut thumbs: ThumbCache = HashMap::new();
    let mut gen = u64::MAX;
    store(&mut thumbs, &mut gen, 1, 1, 0);
    assert_eq!(gen, 0);
}

#[test]
fn resync_waits_for_a_hidden_overlay() {
    let mut s = Scheduler::new(0);
    let mut core = core_with(&[]);
    let thumbs: ThumbCache = HashMap::new();
    core.visible = true;
    assert!(!s.begin_pass(&mut core, &thumbs, 20_000 * MS).resync);
    core.visible = false;
    assert!(s.begin_pass(&mut core, &thumbs, 20_000 * MS).resync);
    assert_eq!(s.last_resync, 20_000 * MS);
    assert!(!s.begin_pass(&mut core, &thumbs, 29_999 * MS).resync);
    assert!(s.begin_pass(&mut core, &thumbs, 30_000 * MS).resync);
}

#[test]
fn shortest_interval_is_enforced() {
    let mut s = Scheduler::new(0);
    let mut core = core_with(&[]);
    core.capture_interval_ms = 1;
    let thumbs: ThumbCache = HashMap::new();
    let pass = s.begin_pass(&mut core, &thumbs, 199 * MS);
    assert!(!pass.stale_due);
    assert_eq!(pass.interval_ms, 200);
    assert!(s.begin_pass(&mut core, &thumbs, 200 * MS).stale_due);
}

#[test]
fn untracked_entries_are_dropped() {
    let mut thumbs: ThumbCache = HashMap::new();
    for id in 1..6 {
        thumbs.insert(id, Thumb { image: id as u64 * 10, at: 0, gen: 0, confirmed: true });
    }
    let keep: HashSet<u32> = [2, 4, 9].into_iter().collect();
    let mut dropped: Vec<(u32, u64)> =
        drop_untracked(&mut thumbs, &keep).into_iter().map(|(id, t)| (id, t.image)).collect();
    dropped.sort();
    assert_eq!(dropped, vec![(1, 10), (3, 30), (5, 50)]);
    assert_eq!(thumbs.len(), 2);
    assert!(thumbs.contains_key(&2) && thumbs.contains_key(&4));
}
