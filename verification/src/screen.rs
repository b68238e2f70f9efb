//! The per-screen lock state: one window model per physical screen, with at
//! most one bound screensaver subprocess, and the transitions of its
//! lifecycle.
//!
//! The transitions are given as spec functions over [`Screen`]; the locker's
//! executable handlers are proved to follow them, and the security laws at
//! the end of this module are proved about the transitions themselves.

use vstd::prelude::*;

verus! {

/// The locker's model of one display-server window: identity and the flags
/// the state machine reads and drives.
#[derive(Clone, Copy, Debug)]
pub struct Window {
    /// Protocol identifier of the window.
    pub id: u32,
    /// Protocol identifier of the root window of its screen.
    pub root: u32,
    /// Index of the screen the window covers.
    pub screen: u32,
    /// Current width in pixels.
    pub width: u32,
    /// Current height in pixels.
    pub height: u32,
    /// Whether the lock currently owns the keyboard on this screen.
    pub keyboard: bool,
    /// Whether the lock currently owns the pointer on this screen.
    pub pointer: bool,
    /// Whether the window is locked (mapped over the screen, input held).
    pub locked: bool,
    /// Whether the window is blanked (no live visual presentation).
    pub blanked: bool,
}

/// The locker's model of one screensaver subprocess bound to a window.
#[derive(Clone, Copy, Debug)]
pub struct Saver {
    /// Whether the locker has asked this subprocess to start.
    pub started: bool,
    /// Whether the locker has asked this subprocess to stop.
    pub stopped: bool,
    /// Whether the subprocess was told to throttle its rendering.
    pub throttled: bool,
}

/// One screen: its window model and the screensaver bound to it, if any.
#[derive(Clone, Copy, Debug)]
pub struct Screen {
    pub window: Window,
    pub saver: Option<Saver>,
}

/// An asynchronous lifecycle event from one screensaver subprocess.
#[derive(Clone, Copy, Debug, PartialEq, Eq, Structural)]
pub enum SaverEvent {
    /// The subprocess is up and ready to be configured and started.
    Initialized,
    /// The subprocess acknowledged that it started.
    Started,
    /// The subprocess acknowledged that it stopped.
    Stopped,
    /// The subprocess exited.
    Exit,
}

/// The state change a `Start` request makes on one screen.
///
/// A screen that already has a saver bound keeps it: at most one saver ever
/// exists per window.  If a subprocess was spawned for the screen, it is
/// bound and the window waits for the lifecycle to lock it; otherwise the
/// window is locked and blanked at once, with no subprocess.
pub open spec fn spec_start(s: Screen, spawned: bool, throttled: bool) -> Screen {
    if s.saver is Some {
        s
    } else if spawned {
        Screen {
            window: s.window,
            saver: Some(Saver { started: false, stopped: false, throttled }),
        }
    } else {
        Screen {
            window: Window { locked: true, blanked: true, ..s.window },
            saver: None,
        }
    }
}

/// The state change a `Stop` request makes on one screen.
///
/// A screen with a bound saver records that a stop was asked for; the window
/// stays locked until the subprocess exits.  A screen without a saver (locked
/// and blanked, or never locked) is unlocked at once.
pub open spec fn spec_stop(s: Screen) -> Screen {
    match s.saver {
        Some(v) => Screen {
            window: s.window,
            saver: Some(Saver { stopped: true, ..v }),
        },
        None => Screen {
            window: Window { locked: false, blanked: false, ..s.window },
            saver: None,
        },
    }
}

/// The state change a saver lifecycle event makes on one screen.
///
/// An event for a screen without a bound saver is a stale signal and changes
/// nothing.  The race rules are conservative: an acknowledgment that was
/// never asked for changes no state (the subprocess is killed instead), and
/// an exit unlocks the window only when a stop had been asked for — any other
/// exit leaves the screen locked and blanked.
pub open spec fn spec_saver_event(s: Screen, ev: SaverEvent) -> Screen {
    match s.saver {
        None => s,
        Some(v) => match ev {
            SaverEvent::Initialized => Screen {
                window: s.window,
                saver: Some(Saver { started: true, ..v }),
            },
            SaverEvent::Started => if v.started {
                Screen {
                    window: Window { locked: true, ..s.window },
                    saver: Some(v),
                }
            } else {
                s
            },
            SaverEvent::Stopped => s,
            SaverEvent::Exit => if v.stopped {
                Screen {
                    window: Window { locked: false, blanked: false, ..s.window },
                    saver: None,
                }
            } else {
                Screen {
                    window: Window { locked: true, blanked: true, ..s.window },
                    saver: None,
                }
            },
        },
    }
}

/// Law: a `Start` can only move a screen towards being secured, never away.
///
/// On a screen with no saver, a failed spawn locks and blanks the window at
/// once, and a successful spawn binds a fresh saver with the window
/// untouched; a window that was locked before stays locked.
pub proof fn lemma_start_secures(s: Screen, spawned: bool, throttled: bool)
    ensures
        s.window.locked ==> spec_start(s, spawned, throttled).window.locked,
        s.saver is None && !spawned ==> spec_start(s, spawned, throttled).window.locked
            && spec_start(s, spawned, throttled).window.blanked,
        s.saver is None && spawned ==> spec_start(s, spawned, throttled).saver
            == Some(Saver { started: false, stopped: false, throttled }),
{
}

/// Law: every complete lock sequence begun by `Start` ends with the window
/// locked, whether the subprocess lifecycle succeeds or fails.
///
/// From an idle screen: a failed spawn ends locked and blanked; a successful
/// spawn followed by the orderly `Initialized`/`Started` acknowledgments ends
/// locked; and a subprocess exit at any point of that lifecycle — before,
/// between or after the acknowledgments — ends locked and blanked.  No
/// sequence of `Start` and lifecycle events ends with the window unlocked.
pub proof fn lemma_start_ends_locked(s: Screen, throttled: bool)
    requires
        s.saver is None,
    ensures
        spec_start(s, false, throttled).saver is None
            && spec_start(s, false, throttled).window.locked,
        spec_saver_event(
            spec_saver_event(spec_start(s, true, throttled), SaverEvent::Initialized),
            SaverEvent::Started,
        ).window.locked,
        spec_saver_event(spec_start(s, true, throttled), SaverEvent::Exit).window.locked,
        spec_saver_event(
            spec_saver_event(spec_start(s, true, throttled), SaverEvent::Initialized),
            SaverEvent::Exit,
        ).window.locked,
        spec_saver_event(
            spec_saver_event(
                spec_saver_event(spec_start(s, true, throttled), SaverEvent::Initialized),
                SaverEvent::Started,
            ),
            SaverEvent::Exit,
        ).window.locked,
{
}

/// Law: while no stop has been asked for, no lifecycle event unlocks the
/// window, and an exit always leaves the screen locked and blanked.
///
/// This covers the unexpected-exit rule: a screen whose subprocess dies
/// without a prior stop request is re-locked and blanked, never unlocked.
pub proof fn lemma_no_stop_no_unlock(s: Screen, ev: SaverEvent)
    requires
        s.saver matches Some(v) ==> !v.stopped,
    ensures
        s.window.locked ==> spec_saver_event(s, ev).window.locked,
        s.saver is Some && ev == SaverEvent::Exit ==> spec_saver_event(s, ev).window.locked
            && spec_saver_event(s, ev).window.blanked
            && spec_saver_event(s, ev).saver is None,
{
}

/// Law: a stop acknowledgment that was never asked for changes no state at
/// all — in particular it does not unlock the window.  (The executable
/// handler kills the subprocess instead; the unexpected exit that follows is
/// covered by [`lemma_no_stop_no_unlock`].)
pub proof fn lemma_unexpected_stop_ack(s: Screen)
    requires
        s.saver matches Some(v) && !v.stopped,
    ensures
        spec_saver_event(s, SaverEvent::Stopped) == s,
{
}

/// Law: an orderly shutdown — a `Stop` request, the subprocess's stop
/// acknowledgment, then its exit — ends with the window unlocked and no
/// saver bound.
pub proof fn lemma_orderly_stop_unlocks(s: Screen)
    requires
        s.saver is Some,
    ensures
        ({
            let done = spec_saver_event(
                spec_saver_event(spec_stop(s), SaverEvent::Stopped),
                SaverEvent::Exit,
            );
            !done.window.locked && done.saver is None
        }),
{
}

} // verus!
