use screenlock_core::locker::{select_saver, Action, Key, Locker, Password, Pointer, Response};
use screenlock_core::safety::Safety;
use screenlock_core::screen::SaverEvent;

fn locked_locker() -> Locker {
    let mut locker = Locker::new(5, false);
    assert!(locker.add_window(100, 1, 0, 800, 600, true, true));
    locker.start(&vec![true]);
    locker.saver_event(100, SaverEvent::Initialized);
    locker.saver_event(100, SaverEvent::Started);
    locker
}

fn press_text(locker: &mut Locker, text: &str) -> Vec<Action> {
    locker.key_press(100, Key::Text(text.chars().collect()))
}

#[test]
fn submit_and_auth_round_trip() {
    let mut locker = locked_locker();
    press_text(&mut locker, "a");
    press_text(&mut locker, "b");
    press_text(&mut locker, "c");
    assert_eq!(locker.password, vec!['a', 'b', 'c']);

    let acts = locker.key_press(100, Key::Return);
    let passwords: Vec<&String> = acts
        .iter()
        .filter_map(|a| match a {
            Action::Out(Response::Password(p)) => Some(p),
            _ => None,
        })
        .collect();
    assert_eq!(passwords, vec!["abc"]);
    assert!(locker.checking);
    assert!(locker.password.is_empty());
    assert!(acts.contains(&Action::SaverPassword(100, Password::Check)));

    let acts = locker.auth(true);
    assert!(!locker.checking);
    assert_eq!(acts, vec![Action::SaverPassword(100, Password::Success)]);

    // a failed verdict forwards failure feedback instead
    locker.key_press(100, Key::Return);
    let acts = locker.auth(false);
    assert!(!locker.checking);
    assert_eq!(acts, vec![Action::SaverPassword(100, Password::Failure)]);
}

#[test]
fn buffer_caps_at_255_and_drops_the_extra() {
    let mut locker = locked_locker();
    for _ in 0..255 {
        press_text(&mut locker, "x");
    }
    assert_eq!(locker.password.len(), 255);
    let acts = press_text(&mut locker, "y");
    assert_eq!(locker.password.len(), 255);
    assert!(!locker.password.contains(&'y'));
    // the dropped character produces no insert feedback either
    assert_eq!(acts, vec![Action::Out(Response::Activity)]);
}

#[test]
fn escape_always_clears_idempotently() {
    let mut locker = locked_locker();
    press_text(&mut locker, "secret");
    locker.key_press(100, Key::Escape);
    assert!(locker.password.is_empty());
    // escape on an already empty buffer keeps it empty, with no feedback
    let acts = locker.key_press(100, Key::Escape);
    assert!(locker.password.is_empty());
    assert_eq!(acts, vec![Action::Out(Response::Activity)]);
}

#[test]
fn backspace_drops_last_and_ignores_empty() {
    let mut locker = locked_locker();
    press_text(&mut locker, "ab");
    let acts = locker.key_press(100, Key::BackSpace);
    assert_eq!(locker.password, vec!['a']);
    assert!(acts.contains(&Action::SaverPassword(100, Password::Delete)));
    locker.key_press(100, Key::BackSpace);
    assert!(locker.password.is_empty());
    let acts = locker.key_press(100, Key::BackSpace);
    assert!(locker.password.is_empty());
    assert_eq!(acts, vec![Action::Out(Response::Activity)]);
}

#[test]
fn checking_ignores_characters_but_still_pings() {
    let mut locker = locked_locker();
    press_text(&mut locker, "a");
    locker.key_press(100, Key::Return);
    assert!(locker.checking);
    let acts = press_text(&mut locker, "zzz");
    assert_eq!(acts, vec![Action::Out(Response::Activity)]);
    assert!(locker.password.is_empty());
    assert!(locker.checking);
}

#[test]
fn keys_outside_our_windows_only_ping() {
    let mut locker = locked_locker();
    let acts = locker.key_press(999, Key::Text(vec!['a']));
    assert_eq!(acts, vec![Action::Out(Response::Activity)]);
    assert!(locker.password.is_empty());
}

#[test]
fn insert_feedback_never_reveals_the_character() {
    let mut locker = locked_locker();
    let acts = press_text(&mut locker, "q");
    assert_eq!(
        acts,
        vec![
            Action::Out(Response::Activity),
            Action::SaverPassword(100, Password::Insert),
        ]
    );
}

#[test]
fn pointer_events_forward_to_the_bound_saver() {
    let mut locker = locked_locker();
    let acts = locker.button(100, 10, 20, 1, true);
    assert_eq!(
        acts,
        vec![
            Action::Out(Response::Activity),
            Action::SaverPointer(100, Pointer::Button { x: 10, y: 20, button: 1, press: true }),
        ]
    );
    let acts = locker.motion(100, 3, 4);
    assert_eq!(
        acts,
        vec![
            Action::Out(Response::Activity),
            Action::SaverPointer(100, Pointer::Move { x: 3, y: 4 }),
        ]
    );
    let acts = locker.motion(999, 3, 4);
    assert_eq!(acts, vec![Action::Out(Response::Activity)]);
}

#[test]
fn sanitize_pushes_safety_only_on_change() {
    let mut locker = locked_locker();
    // ownership flags were (true, true); losing the pointer drops to Medium
    let acts = locker.sanitize(&vec![(true, false)]);
    assert_eq!(acts, vec![Action::SaverSafety(100, Safety::Medium)]);
    assert!(!locker.screens[0].window.pointer);
    // unchanged flags push nothing
    let acts = locker.sanitize(&vec![(true, false)]);
    assert!(acts.is_empty());
    // losing the keyboard too drops to Low
    let acts = locker.sanitize(&vec![(false, false)]);
    assert_eq!(acts, vec![Action::SaverSafety(100, Safety::Low)]);
}

#[test]
fn broadcasts_reach_every_saver() {
    let mut locker = Locker::new(5, false);
    assert!(locker.add_window(100, 1, 0, 800, 600, true, true));
    assert!(locker.add_window(101, 1, 1, 800, 600, true, true));
    locker.start(&vec![true, false]);

    let acts = locker.lock();
    assert_eq!(acts, vec![Action::SaverLock(100)]);

    let acts = locker.throttle(true);
    assert_eq!(acts, vec![Action::SaverThrottle(100, true)]);
    assert!(locker.screens[0].saver.unwrap().throttled);

    let acts = locker.power(false);
    assert_eq!(
        acts,
        vec![
            Action::WindowPower(100, false),
            Action::WindowPower(101, false),
            Action::SaverBlank(100, true),
            Action::DisplayPower(false),
        ]
    );

    let acts = locker.activity();
    assert_eq!(acts, vec![Action::Out(Response::Activity)]);
}

#[test]
fn resize_updates_matching_roots_and_forwards() {
    let mut locker = Locker::new(5, false);
    assert!(locker.add_window(100, 1, 0, 800, 600, true, true));
    assert!(locker.add_window(101, 2, 1, 800, 600, true, true));
    locker.start(&vec![true, true]);
    let acts = locker.resize(1, 1024, 768);
    assert_eq!(
        acts,
        vec![
            Action::WindowResize(100, 1024, 768),
            Action::SaverResize(100, 1024, 768),
        ]
    );
    assert_eq!(locker.screens[0].window.width, 1024);
    assert_eq!(locker.screens[0].window.height, 768);
    assert_eq!(locker.screens[1].window.width, 800);
}

#[test]
fn saver_selection_is_within_the_configured_set() {
    assert_eq!(select_saver(0), None);
    for _ in 0..64 {
        let picked = select_saver(3).unwrap();
        assert!(picked < 3);
    }
    assert_eq!(select_saver(1), Some(0));
}
