use screenlock_core::locker::{Action, Locker, Response, Timeout};
use screenlock_core::safety::Safety;
use screenlock_core::screen::SaverEvent;

fn locker_with_screens(n: u32) -> Locker {
    let mut locker = Locker::new(5, false);
    for i in 0..n {
        assert!(locker.add_window(100 + i, 1, i, 800, 600, true, true));
    }
    locker
}

fn count_stopped(acts: &[Action]) -> usize {
    acts.iter().filter(|a| matches!(a, Action::Out(Response::Stopped))).count()
}

#[test]
fn failed_spawn_locks_and_blanks_at_once() {
    let mut locker = locker_with_screens(1);
    let acts = locker.start(&vec![false]);
    assert!(locker.screens[0].window.locked);
    assert!(locker.screens[0].window.blanked);
    assert!(locker.screens[0].saver.is_none());
    assert_eq!(acts, vec![Action::WindowLock(100), Action::WindowBlank(100)]);
}

#[test]
fn orderly_lifecycle_ends_locked() {
    let mut locker = locker_with_screens(1);
    let acts = locker.start(&vec![true]);
    assert_eq!(
        acts,
        vec![Action::Out(Response::Timeout(Timeout::Schedule { id: 100, seconds: 5 }))]
    );
    assert!(locker.screens[0].saver.is_some());
    assert!(!locker.screens[0].window.locked);

    let acts = locker.saver_event(100, SaverEvent::Initialized);
    assert_eq!(acts, vec![Action::SaverConfig(100), Action::SaverStart(100)]);

    let acts = locker.saver_event(100, SaverEvent::Started);
    assert!(locker.screens[0].window.locked);
    assert_eq!(
        acts,
        vec![
            Action::Out(Response::Timeout(Timeout::Cancel { id: 100 })),
            Action::WindowLock(100),
            Action::SaverSafety(100, Safety::High),
        ]
    );
}

#[test]
fn start_acknowledgment_never_requested_kills() {
    let mut locker = locker_with_screens(1);
    locker.start(&vec![true]);
    // no Initialized, so the locker never asked the subprocess to start
    let acts = locker.saver_event(100, SaverEvent::Started);
    assert_eq!(acts, vec![Action::SaverKill(100)]);
    assert!(!locker.screens[0].window.locked);
    assert!(locker.screens[0].saver.is_some());
}

#[test]
fn unexpected_exit_locks_and_blanks() {
    let mut locker = locker_with_screens(1);
    locker.start(&vec![true]);
    locker.saver_event(100, SaverEvent::Initialized);
    locker.saver_event(100, SaverEvent::Started);
    assert!(locker.screens[0].window.locked);

    let acts = locker.saver_event(100, SaverEvent::Exit);
    assert!(locker.screens[0].window.locked);
    assert!(locker.screens[0].window.blanked);
    assert!(locker.screens[0].saver.is_none());
    assert_eq!(acts, vec![Action::WindowLock(100), Action::WindowBlank(100)]);
    assert_eq!(count_stopped(&acts), 0);
}

#[test]
fn unexpected_stop_acknowledgment_kills_instead_of_unlocking() {
    let mut locker = locker_with_screens(1);
    locker.start(&vec![true]);
    locker.saver_event(100, SaverEvent::Initialized);
    locker.saver_event(100, SaverEvent::Started);

    let acts = locker.saver_event(100, SaverEvent::Stopped);
    assert_eq!(acts, vec![Action::SaverKill(100)]);
    assert!(locker.screens[0].window.locked);
    assert!(locker.screens[0].saver.is_some());
}

#[test]
fn orderly_stop_unlocks_and_announces_once() {
    let mut locker = locker_with_screens(2);
    locker.start(&vec![true, true]);
    locker.saver_event(100, SaverEvent::Initialized);
    locker.saver_event(101, SaverEvent::Initialized);
    locker.saver_event(100, SaverEvent::Started);
    locker.saver_event(101, SaverEvent::Started);

    let acts = locker.stop();
    assert_eq!(
        acts,
        vec![
            Action::Out(Response::Timeout(Timeout::Schedule { id: 100, seconds: 5 })),
            Action::SaverStop(100),
            Action::Out(Response::Timeout(Timeout::Schedule { id: 101, seconds: 5 })),
            Action::SaverStop(101),
        ]
    );

    let acts = locker.saver_event(100, SaverEvent::Stopped);
    assert_eq!(acts, vec![Action::Out(Response::Timeout(Timeout::Cancel { id: 100 }))]);
    let acts = locker.saver_event(100, SaverEvent::Exit);
    assert!(!locker.screens[0].window.locked);
    // not the last active saver: no outward announcement yet
    assert_eq!(acts, vec![Action::WindowUnlock(100)]);
    assert_eq!(count_stopped(&acts), 0);

    locker.saver_event(101, SaverEvent::Stopped);
    let acts = locker.saver_event(101, SaverEvent::Exit);
    assert!(!locker.screens[1].window.locked);
    assert_eq!(acts, vec![Action::WindowUnlock(101), Action::Out(Response::Stopped)]);
    assert_eq!(count_stopped(&acts), 1);
}

#[test]
fn stop_without_saver_unlocks_directly() {
    let mut locker = locker_with_screens(1);
    locker.start(&vec![false]);
    assert!(locker.screens[0].window.locked);
    let acts = locker.stop();
    assert_eq!(acts, vec![Action::WindowUnlock(100)]);
    assert!(!locker.screens[0].window.locked);
}

#[test]
fn timeout_kills_the_bound_saver() {
    let mut locker = locker_with_screens(1);
    locker.start(&vec![true]);
    let acts = locker.timeout(100);
    assert_eq!(acts, vec![Action::SaverKill(100)]);
    // unknown window: nothing to kill
    let acts = locker.timeout(999);
    assert!(acts.is_empty());
}

#[test]
fn timeout_without_saver_does_nothing() {
    let mut locker = locker_with_screens(1);
    locker.start(&vec![false]);
    let acts = locker.timeout(100);
    assert!(acts.is_empty());
}

#[test]
fn start_leaves_bound_savers_alone() {
    let mut locker = locker_with_screens(1);
    locker.start(&vec![true]);
    locker.saver_event(100, SaverEvent::Initialized);
    let acts = locker.start(&vec![true]);
    assert!(acts.is_empty());
    assert!(locker.screens[0].saver.unwrap().started);
}

#[test]
fn stale_events_do_nothing() {
    let mut locker = locker_with_screens(1);
    let acts = locker.saver_event(100, SaverEvent::Exit);
    assert!(acts.is_empty());
    let acts = locker.saver_event(42, SaverEvent::Started);
    assert!(acts.is_empty());
}

#[test]
fn duplicate_window_ids_are_refused() {
    let mut locker = Locker::new(5, false);
    assert!(locker.add_window(7, 1, 0, 800, 600, false, false));
    assert!(!locker.add_window(7, 1, 1, 800, 600, false, false));
    assert_eq!(locker.screens.len(), 1);
}
