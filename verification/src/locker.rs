//! The locker: the central per-screen state machine, password buffering and
//! input routing.
//!
//! Each handler is a decision step of the coordinator's event loop: it takes
//! one control request, saver lifecycle event or raw input event, mutates the
//! owned state, and returns the exact list of [`Action`]s for the driver to
//! perform against the display server, the subprocesses and the outward
//! response channel.

use vstd::prelude::*;
use vstd::pervasive::VecAdditionalExecFns;
use crate::safety::{Safety, spec_safety, safety_of};
use crate::screen::{Window, Saver, Screen, SaverEvent, spec_start, spec_stop, spec_saver_event};

verus! {

/// A control request to the locker.
#[derive(Clone, Debug)]
pub enum Request {
    Sanitize,
    Timeout { id: u64 },
    Activity,
    Power(bool),
    Throttle(bool),
    Start,
    Lock,
    Auth(bool),
    Stop,
}

/// A watchdog timer request emitted by the locker.
#[derive(Clone, Copy, Debug, PartialEq, Eq, Structural)]
pub enum Timeout {
    Schedule { id: u64, seconds: u64 },
    Cancel { id: u64 },
}

/// An outward notification emitted by the locker.
#[derive(Clone, Debug, PartialEq)]
pub enum Response {
    Timeout(Timeout),
    Activity,
    Password(String),
    Stopped,
}

/// Aggregate password feedback forwarded to a saver: it never carries the
/// typed character itself, only what kind of edit or result happened.
#[derive(Clone, Copy, Debug, PartialEq, Eq, Structural)]
pub enum Password {
    Insert,
    Delete,
    Reset,
    Check,
    Success,
    Failure,
}

/// A pointer event forwarded verbatim to the saver of the window it hit.
#[derive(Clone, Copy, Debug, PartialEq, Eq, Structural)]
pub enum Pointer {
    Move { x: i32, y: i32 },
    Button { x: i32, y: i32, button: u8, press: bool },
}

/// A key press, already resolved by the platform's keyboard layer.
#[derive(Clone, Debug)]
pub enum Key {
    BackSpace,
    Escape,
    Return,
    /// Any other key, resolved to the characters it produces (possibly none).
    Text(Vec<char>),
}

/// One command for the driver to perform: an outward notification, or a call
/// against a window, a saver subprocess or the display.
#[derive(Clone, Debug, PartialEq)]
pub enum Action {
    /// Send this response on the outward channel.
    Out(Response),
    WindowLock(u32),
    WindowUnlock(u32),
    WindowBlank(u32),
    WindowPower(u32, bool),
    WindowResize(u32, u32, u32),
    SaverConfig(u32),
    SaverStart(u32),
    SaverStop(u32),
    SaverKill(u32),
    SaverLock(u32),
    SaverThrottle(u32, bool),
    SaverBlank(u32, bool),
    SaverPassword(u32, Password),
    SaverPointer(u32, Pointer),
    SaverResize(u32, u32, u32),
    SaverSafety(u32, Safety),
    DisplayPower(bool),
}

/// A command broadcast across every screen.
#[derive(Clone, Copy, Debug)]
pub enum Broadcast {
    Lock,
    Throttle(bool),
    Feedback(Password),
    Power(bool),
    Blank(bool),
    Resize { root: u32, width: u32, height: u32 },
    Stop { seconds: u64 },
}

/// The actions one screen contributes to a broadcast.
pub open spec fn bcast_cmd(s: Screen, b: Broadcast) -> Seq<Action> {
    match b {
        Broadcast::Lock => if s.saver is Some {
            seq![Action::SaverLock(s.window.id)]
        } else {
            Seq::empty()
        },
        Broadcast::Throttle(v) => if s.saver is Some {
            seq![Action::SaverThrottle(s.window.id, v)]
        } else {
            Seq::empty()
        },
        Broadcast::Feedback(p) => if s.saver is Some {
            seq![Action::SaverPassword(s.window.id, p)]
        } else {
            Seq::empty()
        },
        Broadcast::Power(v) => seq![Action::WindowPower(s.window.id, v)],
        Broadcast::Blank(v) => if s.saver is Some {
            seq![Action::SaverBlank(s.window.id, v)]
        } else {
            Seq::empty()
        },
        Broadcast::Resize { root, width, height } => if s.window.root == root {
            if s.saver is Some {
                seq![
                    Action::WindowResize(s.window.id, width, height),
                    Action::SaverResize(s.window.id, width, height),
                ]
            } else {
                seq![Action::WindowResize(s.window.id, width, height)]
            }
        } else {
            Seq::empty()
        },
        Broadcast::Stop { seconds } => if s.saver is Some {
            seq![
                Action::Out(Response::Timeout(Timeout::Schedule {
                    id: s.window.id as u64,
                    seconds,
                })),
                Action::SaverStop(s.window.id),
            ]
        } else {
            seq![Action::WindowUnlock(s.window.id)]
        },
    }
}

/// All the actions a broadcast produces, screen by screen, in order.
pub open spec fn bcast_commands(ss: Seq<Screen>, b: Broadcast) -> Seq<Action>
    decreases ss.len(),
{
    if ss.len() == 0 {
        Seq::empty()
    } else {
        bcast_commands(ss.drop_last(), b) + bcast_cmd(ss.last(), b)
    }
}

pub proof fn lemma_bcast_commands_step(ss: Seq<Screen>, b: Broadcast, j: int)
    requires
        0 <= j < ss.len(),
    ensures
        bcast_commands(ss.take(j + 1), b) == bcast_commands(ss.take(j), b) + bcast_cmd(ss[j], b),
{
    assert(ss.take(j + 1).drop_last() =~= ss.take(j));
    assert(ss.take(j + 1).last() == ss[j]);
}

/// The feedback actions one password edit broadcasts to every active saver.
pub open spec fn feedback_commands(ss: Seq<Screen>, p: Password) -> Seq<Action> {
    bcast_commands(ss, Broadcast::Feedback(p))
}

/// The actions one screen contributes to a `Start` request: a watchdog
/// schedule when a subprocess was spawned for it, a direct lock and blank
/// when none could be, nothing when a saver is already bound.
pub open spec fn start_cmd(s: Screen, spawned: bool, seconds: u64) -> Seq<Action> {
    if s.saver is Some {
        Seq::empty()
    } else if spawned {
        seq![
            Action::Out(Response::Timeout(Timeout::Schedule { id: s.window.id as u64, seconds })),
        ]
    } else {
        seq![Action::WindowLock(s.window.id), Action::WindowBlank(s.window.id)]
    }
}

pub open spec fn start_commands(ss: Seq<Screen>, spawned: Seq<bool>, seconds: u64) -> Seq<Action>
    decreases ss.len(),
{
    if ss.len() == 0 || spawned.len() < ss.len() {
        Seq::empty()
    } else {
        start_commands(ss.drop_last(), spawned.drop_last(), seconds)
            + start_cmd(ss.last(), spawned.last(), seconds)
    }
}

pub proof fn lemma_start_commands_step(ss: Seq<Screen>, spawned: Seq<bool>, seconds: u64, j: int)
    requires
        0 <= j < ss.len(),
        ss.len() == spawned.len(),
    ensures
        start_commands(ss.take(j + 1), spawned.take(j + 1), seconds)
            == start_commands(ss.take(j), spawned.take(j), seconds)
                + start_cmd(ss[j], spawned[j], seconds),
{
    assert(ss.take(j + 1).drop_last() =~= ss.take(j));
    assert(spawned.take(j + 1).drop_last() =~= spawned.take(j));
}

/// The actions one screen contributes to a `Sanitize` request: the freshly
/// computed safety level, pushed to its saver, exactly when the ownership
/// flags changed and a saver is bound.
pub open spec fn sanitize_cmd(s: Screen, owned: (bool, bool)) -> Seq<Action> {
    if s.saver is Some && (s.window.keyboard != owned.0 || s.window.pointer != owned.1) {
        seq![Action::SaverSafety(s.window.id, spec_safety(owned.0, owned.1))]
    } else {
        Seq::empty()
    }
}

pub open spec fn sanitize_commands(ss: Seq<Screen>, owned: Seq<(bool, bool)>) -> Seq<Action>
    decreases ss.len(),
{
    if ss.len() == 0 || owned.len() < ss.len() {
        Seq::empty()
    } else {
        sanitize_commands(ss.drop_last(), owned.drop_last()) + sanitize_cmd(ss.last(), owned.last())
    }
}

pub proof fn lemma_sanitize_commands_step(ss: Seq<Screen>, owned: Seq<(bool, bool)>, j: int)
    requires
        0 <= j < ss.len(),
        ss.len() == owned.len(),
    ensures
        sanitize_commands(ss.take(j + 1), owned.take(j + 1))
            == sanitize_commands(ss.take(j), owned.take(j)) + sanitize_cmd(ss[j], owned[j]),
{
    assert(ss.take(j + 1).drop_last() =~= ss.take(j));
    assert(owned.take(j + 1).drop_last() =~= owned.take(j));
}

/// How many screens have a saver bound.
pub open spec fn savers_count(ss: Seq<Screen>) -> int
    decreases ss.len(),
{
    if ss.len() == 0 {
        0
    } else {
        savers_count(ss.drop_last()) + if ss.last().saver is Some { 1int } else { 0 }
    }
}

pub proof fn lemma_savers_count_step(ss: Seq<Screen>, j: int)
    requires
        0 <= j < ss.len(),
    ensures
        savers_count(ss.take(j + 1))
            == savers_count(ss.take(j)) + if ss[j].saver is Some { 1int } else { 0 },
{
    assert(ss.take(j + 1).drop_last() =~= ss.take(j));
}

/// Whether one of the locker's windows carries this protocol identifier.
pub open spec fn has_window(ss: Seq<Screen>, id: u32) -> bool {
    exists |k: int| 0 <= k < ss.len() && ss[k].window.id == id
}

/// The password buffer after appending these characters under the 255
/// character bound: each character in turn is kept only while the buffer is
/// still below the bound, and dropped once it is full.
pub open spec fn append_bounded(buf: Seq<char>, cs: Seq<char>) -> Seq<char>
    decreases cs.len(),
{
    if cs.len() == 0 {
        buf
    } else if buf.len() < 255 {
        append_bounded(buf.push(cs[0]), cs.drop_first())
    } else {
        buf
    }
}

pub proof fn lemma_append_bounded_snoc(buf: Seq<char>, cs: Seq<char>, c: char)
    ensures
        append_bounded(buf, cs.push(c)) == if append_bounded(buf, cs).len() < 255 {
            append_bounded(buf, cs).push(c)
        } else {
            append_bounded(buf, cs)
        },
    decreases cs.len(),
{
    if cs.len() == 0 {
        assert(cs.push(c).drop_first() =~= cs);
        assert(cs.push(c)[0] == c);
        assert(append_bounded(buf, cs) == buf);
        if buf.len() < 255 {
            assert(append_bounded(buf, cs.push(c))
                == append_bounded(buf.push(c), cs.push(c).drop_first()));
            assert(append_bounded(buf.push(c), cs) == buf.push(c));
        } else {
            assert(append_bounded(buf, cs.push(c)) == buf);
        }
    } else {
        assert(cs.push(c).drop_first() =~= cs.drop_first().push(c));
        assert(cs.push(c)[0] == cs[0]);
        if buf.len() < 255 {
            lemma_append_bounded_snoc(buf.push(cs[0]), cs.drop_first(), c);
            assert(append_bounded(buf, cs.push(c))
                == append_bounded(buf.push(cs[0]), cs.drop_first().push(c)));
            assert(append_bounded(buf, cs) == append_bounded(buf.push(cs[0]), cs.drop_first()));
        } else {
            assert(append_bounded(buf, cs.push(c)) == buf);
            assert(append_bounded(buf, cs) == buf);
        }
    }
}

/// Law: the password buffer never grows past 255 characters; once it holds
/// 255 it absorbs nothing more, and below the bound a single character is
/// simply appended.  In particular, appending one character to a full buffer
/// of 255 leaves it at exactly 255 and drops that character.
pub proof fn lemma_buffer_capped(buf: Seq<char>, cs: Seq<char>)
    requires
        buf.len() <= 255,
    ensures
        append_bounded(buf, cs).len() <= 255,
        buf.len() == 255 ==> append_bounded(buf, cs) == buf,
        buf.len() < 255 && cs.len() == 1 ==> append_bounded(buf, cs) == buf.push(cs[0]),
    decreases cs.len(),
{
    if cs.len() > 0 && buf.len() < 255 {
        lemma_buffer_capped(buf.push(cs[0]), cs.drop_first());
    }
}

/// The state change a `Throttle` request makes on one screen.
pub open spec fn spec_throttle(s: Screen, value: bool) -> Screen {
    match s.saver {
        Some(v) => Screen { window: s.window, saver: Some(Saver { throttled: value, ..v }) },
        None => s,
    }
}

/// The state change a `Sanitize` request makes on one screen: the freshly
/// queried ownership flags replace the remembered ones.
pub open spec fn spec_sanitize(s: Screen, keyboard: bool, pointer: bool) -> Screen {
    Screen { window: Window { keyboard, pointer, ..s.window }, saver: s.saver }
}

/// The state change a screen-geometry change makes on one screen: windows on
/// the changed root take the new size, others are untouched.
pub open spec fn spec_resize(s: Screen, root: u32, width: u32, height: u32) -> Screen {
    if s.window.root == root {
        Screen { window: Window { width, height, ..s.window }, saver: s.saver }
    } else {
        s
    }
}

/// The actions one saver lifecycle event produces on the screen it concerns.
///
/// `last` says whether that screen's saver was the only active one, which
/// decides whether an orderly exit announces the outward `Stopped`.
pub open spec fn saver_commands(s: Screen, ev: SaverEvent, last: bool) -> Seq<Action> {
    match s.saver {
        None => Seq::empty(),
        Some(v) => match ev {
            SaverEvent::Initialized => seq![
                Action::SaverConfig(s.window.id),
                Action::SaverStart(s.window.id),
            ],
            SaverEvent::Started => if v.started {
                seq![
                    Action::Out(Response::Timeout(Timeout::Cancel { id: s.window.id as u64 })),
                    Action::WindowLock(s.window.id),
                    Action::SaverSafety(s.window.id, spec_safety(s.window.keyboard, s.window.pointer)),
                ]
            } else {
                seq![Action::SaverKill(s.window.id)]
            },
            SaverEvent::Stopped => if v.stopped {
                seq![Action::Out(Response::Timeout(Timeout::Cancel { id: s.window.id as u64 }))]
            } else {
                seq![Action::SaverKill(s.window.id)]
            },
            SaverEvent::Exit => if v.stopped {
                if last {
                    seq![Action::WindowUnlock(s.window.id), Action::Out(Response::Stopped)]
                } else {
                    seq![Action::WindowUnlock(s.window.id)]
                }
            } else {
                seq![Action::WindowLock(s.window.id), Action::WindowBlank(s.window.id)]
            },
        },
    }
}

/// Law: a saver lifecycle event announces the outward `Stopped` exactly once
/// when an exit retires the last active saver after a stop was asked for —
/// and never otherwise: the announcement exists among the produced actions
/// exactly in that case, and at no more than one position.
pub proof fn lemma_stopped_announced_once(s: Screen, ev: SaverEvent, last: bool)
    ensures
        (exists |j: int| 0 <= j < saver_commands(s, ev, last).len()
            && saver_commands(s, ev, last)[j] == Action::Out(Response::Stopped))
            <==> (s.saver matches Some(v) && v.stopped && ev == SaverEvent::Exit && last),
        forall |j1: int, j2: int| 0 <= j1 < saver_commands(s, ev, last).len()
            && 0 <= j2 < saver_commands(s, ev, last).len()
            && #[trigger] (saver_commands(s, ev, last)[j1])
                == Action::Out(Response::Stopped)
            && #[trigger] (saver_commands(s, ev, last)[j2])
                == Action::Out(Response::Stopped)
            ==> j1 == j2,
{
    let acts = saver_commands(s, ev, last);
    if s.saver matches Some(v) && v.stopped && ev == SaverEvent::Exit && last {
        assert(acts[1] == Action::Out(Response::Stopped));
    }
}

/// Whether an action is password feedback `p` addressed to a screen of `ss`
/// with a saver bound.
pub open spec fn is_feedback_to_saver(a: Action, ss: Seq<Screen>, p: Password) -> bool {
    exists |k: int| 0 <= k < ss.len() && ss[k].saver is Some
        && a == Action::SaverPassword(ss[k].window.id, p)
}

pub proof fn lemma_feedback_elems(ss: Seq<Screen>, p: Password)
    ensures
        forall |j: int| 0 <= j < feedback_commands(ss, p).len()
            ==> is_feedback_to_saver(#[trigger] feedback_commands(ss, p)[j], ss, p),
    decreases ss.len(),
{
    if ss.len() > 0 {
        lemma_feedback_elems(ss.drop_last(), p);
        let pre = feedback_commands(ss.drop_last(), p);
        let whole = feedback_commands(ss, p);
        assert forall |j: int| 0 <= j < whole.len()
            implies is_feedback_to_saver(whole[j], ss, p) by {
            if j < pre.len() {
                assert(is_feedback_to_saver(pre[j], ss.drop_last(), p));
                let k = choose |k: int| 0 <= k < ss.drop_last().len()
                    && ss.drop_last()[k].saver is Some
                    && pre[j] == Action::SaverPassword(ss.drop_last()[k].window.id, p);
                assert(ss.drop_last()[k] == ss[k]);
                assert(whole[j] == pre[j]);
            } else {
                assert(ss.last().saver is Some);
                assert(whole[j] == Action::SaverPassword(ss.last().window.id, p));
                assert(ss.last() == ss[ss.len() - 1]);
            }
        }
    }
}

/// With pairwise distinct window identifiers, an identifier picks out at
/// most one screen.
pub proof fn lemma_unique_id(ss: Seq<Screen>, k1: int, k2: int)
    requires
        forall |i: int, j: int| 0 <= i < j < ss.len() ==> ss[i].window.id != ss[j].window.id,
        0 <= k1 < ss.len(),
        0 <= k2 < ss.len(),
        ss[k1].window.id == ss[k2].window.id,
    ensures
        k1 == k2,
{
    if k1 < k2 {
        assert(ss[k1].window.id != ss[k2].window.id);
    } else if k2 < k1 {
        assert(ss[k2].window.id != ss[k1].window.id);
    }
}

/// Relies on `String::from_iter` (through `Iterator::collect`) over the
/// characters of the vector: the resulting string holds exactly those
/// characters, in order.
#[verifier::external_body]
fn string_from_chars(cs: &Vec<char>) -> (r: String)
    ensures
        r@ == cs@,
{
    cs.iter().collect()
}

/// Relies on rand's thread-local generator: a uniformly random index
/// strictly below the bound.  The bound must be positive, since the
/// underlying range sampling rejects an empty range.
#[verifier::external_body]
fn random_below(n: usize) -> (r: usize)
    requires
        n > 0,
    ensures
        r < n,
{
    rand::random_range(0..n)
}

/// Picks which configured screensaver to launch: a uniformly random index
/// into the configured list, or nothing when none is configured.
pub fn select_saver(count: usize) -> (r: Option<usize>)
    ensures
        r is Some <==> count > 0,
        r matches Some(i) ==> i < count,
{
    if count > 0 {
        Some(random_below(count))
    } else {
        None
    }
}

/// The locker's owned state: one screen per physical display output, the
/// process-wide password buffer, and the checking flag that is true between
/// a password submission and its authentication result.
pub struct Locker {
    pub screens: Vec<Screen>,
    pub password: Vec<char>,
    pub checking: bool,
    /// Configured watchdog timeout in seconds for subprocess transitions.
    pub seconds: u64,
    /// Current throttle policy applied to newly bound savers.
    pub throttle: bool,
}

/// Two locker states with the same observable content.
pub open spec fn same_state(a: Locker, b: Locker) -> bool {
    a.screens@ == b.screens@
        && a.password@ == b.password@
        && a.checking == b.checking
        && a.seconds == b.seconds
        && a.throttle == b.throttle
}

impl Locker {
    /// Well-formedness: the buffer respects its bound and window identifiers
    /// are distinct, so that an event tagged with an identifier concerns at
    /// most one screen.
    pub open spec fn wf(self) -> bool {
        self.password@.len() <= 255
            && (forall |i: int, j: int| 0 <= i < j < self.screens@.len()
                ==> self.screens@[i].window.id != self.screens@[j].window.id)
    }

    /// A fresh locker with no screens, an empty buffer, and no check pending.
    pub fn new(seconds: u64, throttle: bool) -> (r: Locker)
        ensures
            r.wf(),
            r.screens@.len() == 0,
            r.password@.len() == 0,
            !r.checking,
            r.seconds == seconds,
            r.throttle == throttle,
    {
        Locker {
            screens: Vec::new(),
            password: Vec::new(),
            checking: false,
            seconds,
            throttle,
        }
    }

    /// Registers one screen's window, created at startup.  A window whose
    /// identifier is already registered is refused, keeping identifiers
    /// unique.  The window starts neither locked nor blanked, with no saver.
    pub fn add_window(
        &mut self,
        id: u32,
        root: u32,
        screen: u32,
        width: u32,
        height: u32,
        keyboard: bool,
        pointer: bool,
    ) -> (added: bool)
        requires
            old(self).wf(),
        ensures
            final(self).wf(),
            added <==> !has_window(old(self).screens@, id),
            added ==> final(self).screens@ == old(self).screens@.push(Screen {
                window: Window {
                    id, root, screen, width, height, keyboard, pointer,
                    locked: false, blanked: false,
                },
                saver: None,
            }),
            !added ==> same_state(*final(self), *old(self)),
            final(self).password@ == old(self).password@,
            final(self).checking == old(self).checking,
            final(self).seconds == old(self).seconds,
            final(self).throttle == old(self).throttle,
    {
        let n = self.screens.len();
        let mut j: usize = 0;
        while j < n
            invariant
                j <= n,
                n == self.screens@.len(),
                forall |k: int| 0 <= k < j ==> self.screens@[k].window.id != id,
                same_state(*self, *old(self)),
                old(self).wf(),
            decreases n - j,
        {
            if self.screens[j].window.id == id {
                return false;
            }
            j += 1;
        }
        self.screens.push(Screen {
            window: Window {
                id, root, screen, width, height, keyboard, pointer,
                locked: false, blanked: false,
            },
            saver: None,
        });
        true
    }

    /// Finds the screen whose window carries this identifier.
    fn find(&self, id: u32) -> (r: Option<usize>)
        ensures
            r matches Some(k) ==> k < self.screens@.len() && self.screens@[k as int].window.id == id,
            r is None <==> !has_window(self.screens@, id),
    {
        let n = self.screens.len();
        let mut j: usize = 0;
        while j < n
            invariant
                j <= n,
                n == self.screens@.len(),
                forall |k: int| 0 <= k < j ==> self.screens@[k].window.id != id,
            decreases n - j,
        {
            if self.screens[j].window.id == id {
                return Some(j);
            }
            j += 1;
        }
        None
    }

    /// Counts the screens with a saver bound.
    fn count_savers(&self) -> (n: usize)
        ensures
            n as int == savers_count(self.screens@),
    {
        let len = self.screens.len();
        let mut n: usize = 0;
        let mut j: usize = 0;
        proof {
            assert(self.screens@.take(0) =~= Seq::<Screen>::empty());
        }
        while j < len
            invariant
                j <= len,
                len == self.screens@.len(),
                n as int == savers_count(self.screens@.take(j as int)),
                n <= j,
            decreases len - j,
        {
            proof {
                lemma_savers_count_step(self.screens@, j as int);
            }
            if self.screens[j].saver.is_some() {
                n += 1;
            }
            j += 1;
        }
        proof {
            assert(self.screens@.take(len as int) =~= self.screens@);
        }
        n
    }

    /// Appends to `acts` the actions of one broadcast across every screen.
    fn broadcast(&self, b: Broadcast, acts: &mut Vec<Action>)
        ensures
            final(acts)@ == old(acts)@ + bcast_commands(self.screens@, b),
    {
        let len = self.screens.len();
        let mut j: usize = 0;
        proof {
            assert(self.screens@.take(0) =~= Seq::<Screen>::empty());
            assert(acts@ =~= old(acts)@ + bcast_commands(self.screens@.take(0), b));
        }
        while j < len
            invariant
                j <= len,
                len == self.screens@.len(),
                acts@ == old(acts)@ + bcast_commands(self.screens@.take(j as int), b),
            decreases len - j,
        {
            proof {
                lemma_bcast_commands_step(self.screens@, b, j as int);
            }
            let s = self.screens[j];
            match b {
                Broadcast::Lock => {
                    if s.saver.is_some() {
                        acts.push(Action::SaverLock(s.window.id));
                    }
                },
                Broadcast::Throttle(v) => {
                    if s.saver.is_some() {
                        acts.push(Action::SaverThrottle(s.window.id, v));
                    }
                },
                Broadcast::Feedback(p) => {
                    if s.saver.is_some() {
                        acts.push(Action::SaverPassword(s.window.id, p));
                    }
                },
                Broadcast::Power(v) => {
                    acts.push(Action::WindowPower(s.window.id, v));
                },
                Broadcast::Blank(v) => {
                    if s.saver.is_some() {
                        acts.push(Action::SaverBlank(s.window.id, v));
                    }
                },
                Broadcast::Resize { root, width, height } => {
                    if s.window.root == root {
                        acts.push(Action::WindowResize(s.window.id, width, height));
                        if s.saver.is_some() {
                            acts.push(Action::SaverResize(s.window.id, width, height));
                        }
                    }
                },
                Broadcast::Stop { seconds } => {
                    if s.saver.is_some() {
                        acts.push(Action::Out(Response::Timeout(Timeout::Schedule {
                            id: s.window.id as u64,
                            seconds,
                        })));
                        acts.push(Action::SaverStop(s.window.id));
                    } else {
                        acts.push(Action::WindowUnlock(s.window.id));
                    }
                },
            }
            proof {
                assert(acts@ =~= old(acts)@ + bcast_commands(self.screens@.take(j as int + 1), b));
            }
            j += 1;
        }
        proof {
            assert(self.screens@.take(len as int) =~= self.screens@);
        }
    }

    /// Handles an `Activity` control request: one outward activity ping, so
    /// the supervising process can reset its idle timers.
    pub fn activity(&self) -> (acts: Vec<Action>)
        ensures
            acts@ == seq![Action::Out(Response::Activity)],
    {
        let mut acts: Vec<Action> = Vec::new();
        acts.push(Action::Out(Response::Activity));
        proof {
            assert(acts@ =~= seq![Action::Out(Response::Activity)]);
        }
        acts
    }

    /// Handles a `Lock` control request: asks every active saver to lock its
    /// presentation.  Screens without a subprocess are already locked and
    /// blanked, so the broadcast has nothing to do there.
    pub fn lock(&self) -> (acts: Vec<Action>)
        ensures
            acts@ == bcast_commands(self.screens@, Broadcast::Lock),
    {
        let mut acts: Vec<Action> = Vec::new();
        self.broadcast(Broadcast::Lock, &mut acts);
        proof {
            assert(Seq::<Action>::empty() + bcast_commands(self.screens@, Broadcast::Lock)
                =~= bcast_commands(self.screens@, Broadcast::Lock));
        }
        acts
    }

    /// Handles a `Power` control request: drives every window's power state,
    /// blanks or unblanks every saver accordingly, then drives the display.
    pub fn power(&self, value: bool) -> (acts: Vec<Action>)
        ensures
            acts@ == bcast_commands(self.screens@, Broadcast::Power(value))
                + bcast_commands(self.screens@, Broadcast::Blank(!value))
                + seq![Action::DisplayPower(value)],
    {
        let mut acts: Vec<Action> = Vec::new();
        self.broadcast(Broadcast::Power(value), &mut acts);
        self.broadcast(Broadcast::Blank(!value), &mut acts);
        acts.push(Action::DisplayPower(value));
        proof {
            assert(acts@ =~= bcast_commands(self.screens@, Broadcast::Power(value))
                + bcast_commands(self.screens@, Broadcast::Blank(!value))
                + seq![Action::DisplayPower(value)]);
        }
        acts
    }

    /// Handles an `Auth` control request: the authentication verdict arrived.
    /// Clears the checking flag and forwards the verdict to every active
    /// saver as success or failure feedback; the buffer stays as it is (it
    /// was already cleared when the password was submitted).
    pub fn auth(&mut self, value: bool) -> (acts: Vec<Action>)
        requires
            old(self).wf(),
        ensures
            final(self).wf(),
            final(self).screens@ == old(self).screens@,
            final(self).password@ == old(self).password@,
            final(self).seconds == old(self).seconds,
            final(self).throttle == old(self).throttle,
            !final(self).checking,
            acts@ == feedback_commands(final(self).screens@, (if value {
                Password::Success
            } else {
                Password::Failure
            })),
    {
        self.checking = false;
        let p = if value { Password::Success } else { Password::Failure };
        let mut acts: Vec<Action> = Vec::new();
        self.broadcast(Broadcast::Feedback(p), &mut acts);
        proof {
            assert(acts@ =~= feedback_commands(self.screens@, p));
        }
        acts
    }

    /// Handles a `Throttle` control request: records the new policy and
    /// forwards it to every active saver.
    pub fn throttle(&mut self, value: bool) -> (acts: Vec<Action>)
        requires
            old(self).wf(),
        ensures
            final(self).wf(),
            final(self).password@ == old(self).password@,
            final(self).checking == old(self).checking,
            final(self).seconds == old(self).seconds,
            final(self).throttle == value,
            final(self).screens@.len() == old(self).screens@.len(),
            forall |k: int| 0 <= k < old(self).screens@.len()
                ==> final(self).screens@[k] == spec_throttle(old(self).screens@[k], value),
            acts@ == bcast_commands(old(self).screens@, Broadcast::Throttle(value)),
    {
        self.throttle = value;
        let mut acts: Vec<Action> = Vec::new();
        self.broadcast(Broadcast::Throttle(value), &mut acts);
        proof {
            assert(acts@ =~= bcast_commands(self.screens@, Broadcast::Throttle(value)));
        }
        let len = self.screens.len();
        let mut j: usize = 0;
        while j < len
            invariant
                j <= len,
                len == self.screens@.len(),
                self.screens@.len() == old(self).screens@.len(),
                forall |k: int| 0 <= k < j
                    ==> self.screens@[k] == spec_throttle(old(self).screens@[k], value),
                forall |k: int| j <= k < len ==> self.screens@[k] == old(self).screens@[k],
                self.password@ == old(self).password@,
                self.checking == old(self).checking,
                self.seconds == old(self).seconds,
                self.throttle == value,
                acts@ == bcast_commands(old(self).screens@, Broadcast::Throttle(value)),
            decreases len - j,
        {
            let s = self.screens[j];
            if let Some(v) = s.saver {
                self.screens.set(j, Screen {
                    window: s.window,
                    saver: Some(Saver { throttled: value, ..v }),
                });
            }
            j += 1;
        }
        proof {
            assert(forall |k: int| 0 <= k < self.screens@.len()
                ==> self.screens@[k].window.id == old(self).screens@[k].window.id);
        }
        acts
    }

    /// Handles a `Stop` control request: every screen with an active saver
    /// gets a watchdog scheduled and its saver asked to stop — the window
    /// stays locked until the subprocess exits — while every screen without
    /// one is unlocked at once.
    pub fn stop(&mut self) -> (acts: Vec<Action>)
        requires
            old(self).wf(),
        ensures
            final(self).wf(),
            final(self).password@ == old(self).password@,
            final(self).checking == old(self).checking,
            final(self).seconds == old(self).seconds,
            final(self).throttle == old(self).throttle,
            final(self).screens@.len() == old(self).screens@.len(),
            forall |k: int| 0 <= k < old(self).screens@.len()
                ==> final(self).screens@[k] == spec_stop(old(self).screens@[k]),
            acts@ == bcast_commands(old(self).screens@, Broadcast::Stop {
                seconds: old(self).seconds,
            }),
    {
        let mut acts: Vec<Action> = Vec::new();
        self.broadcast(Broadcast::Stop { seconds: self.seconds }, &mut acts);
        proof {
            assert(acts@ =~= bcast_commands(self.screens@, Broadcast::Stop {
                seconds: self.seconds,
            }));
        }
        let len = self.screens.len();
        let mut j: usize = 0;
        while j < len
            invariant
                j <= len,
                len == self.screens@.len(),
                self.screens@.len() == old(self).screens@.len(),
                forall |k: int| 0 <= k < j ==> self.screens@[k] == spec_stop(old(self).screens@[k]),
                forall |k: int| j <= k < len ==> self.screens@[k] == old(self).screens@[k],
                self.password@ == old(self).password@,
                self.checking == old(self).checking,
                self.seconds == old(self).seconds,
                self.throttle == old(self).throttle,
                acts@ == bcast_commands(old(self).screens@, Broadcast::Stop {
                    seconds: old(self).seconds,
                }),
            decreases len - j,
        {
            let s = self.screens[j];
            match s.saver {
                Some(v) => {
                    self.screens.set(j, Screen {
                        window: s.window,
                        saver: Some(Saver { stopped: true, ..v }),
                    });
                },
                None => {
                    self.screens.set(j, Screen {
                        window: Window { locked: false, blanked: false, ..s.window },
                        saver: None,
                    });
                },
            }
            j += 1;
        }
        proof {
            assert(forall |k: int| 0 <= k < self.screens@.len()
                ==> self.screens@[k].window.id == old(self).screens@[k].window.id);
        }
        acts
    }

    /// Handles a `Start` control request.  `spawned` says, screen by screen,
    /// whether a screensaver subprocess was successfully spawned for it (the
    /// driver picks one with [`select_saver`] and spawns it).  A screen that
    /// already has a saver is left alone; one with a fresh subprocess binds
    /// it and schedules the watchdog; one with none is locked and blanked
    /// directly.
    pub fn start(&mut self, spawned: &Vec<bool>) -> (acts: Vec<Action>)
        requires
            old(self).wf(),
            spawned@.len() == old(self).screens@.len(),
        ensures
            final(self).wf(),
            final(self).password@ == old(self).password@,
            final(self).checking == old(self).checking,
            final(self).seconds == old(self).seconds,
            final(self).throttle == old(self).throttle,
            final(self).screens@.len() == old(self).screens@.len(),
            forall |k: int| 0 <= k < old(self).screens@.len() ==> final(self).screens@[k]
                == spec_start(old(self).screens@[k], spawned@[k], old(self).throttle),
            acts@ == start_commands(old(self).screens@, spawned@, old(self).seconds),
    {
        let len = self.screens.len();
        let mut acts: Vec<Action> = Vec::new();
        let mut j: usize = 0;
        proof {
            assert(old(self).screens@.take(0) =~= Seq::<Screen>::empty());
            assert(spawned@.take(0) =~= Seq::<bool>::empty());
        }
        while j < len
            invariant
                j <= len,
                len == self.screens@.len(),
                self.screens@.len() == old(self).screens@.len(),
                spawned@.len() == old(self).screens@.len(),
                forall |k: int| 0 <= k < j ==> self.screens@[k]
                    == spec_start(old(self).screens@[k], spawned@[k], old(self).throttle),
                forall |k: int| j <= k < len ==> self.screens@[k] == old(self).screens@[k],
                self.password@ == old(self).password@,
                self.checking == old(self).checking,
                self.seconds == old(self).seconds,
                self.throttle == old(self).throttle,
                acts@ == start_commands(
                    old(self).screens@.take(j as int),
                    spawned@.take(j as int),
                    old(self).seconds,
                ),
            decreases len - j,
        {
            proof {
                lemma_start_commands_step(old(self).screens@, spawned@, old(self).seconds, j as int);
            }
            let s = self.screens[j];
            let sp = spawned[j];
            if s.saver.is_some() {
                // a saver is already bound: at most one per window, ever
            } else if sp {
                self.screens.set(j, Screen {
                    window: s.window,
                    saver: Some(Saver { started: false, stopped: false, throttled: self.throttle }),
                });
                acts.push(Action::Out(Response::Timeout(Timeout::Schedule {
                    id: s.window.id as u64,
                    seconds: self.seconds,
                })));
            } else {
                self.screens.set(j, Screen {
                    window: Window { locked: true, blanked: true, ..s.window },
                    saver: None,
                });
                acts.push(Action::WindowLock(s.window.id));
                acts.push(Action::WindowBlank(s.window.id));
            }
            proof {
                assert(acts@ =~= start_commands(
                    old(self).screens@.take(j as int + 1),
                    spawned@.take(j as int + 1),
                    old(self).seconds,
                ));
            }
            j += 1;
        }
        proof {
            assert(old(self).screens@.take(len as int) =~= old(self).screens@);
            assert(spawned@.take(len as int) =~= spawned@);
            assert(forall |k: int| 0 <= k < self.screens@.len()
                ==> self.screens@[k].window.id == old(self).screens@[k].window.id);
        }
        acts
    }

    /// Handles a `Sanitize` control request.  `owned` carries, screen by
    /// screen, the freshly re-queried keyboard and pointer ownership (the
    /// driver re-grabs input and asks the display first).  Where the flags
    /// changed and a saver is bound, the recomputed safety level is pushed
    /// to that saver.
    pub fn sanitize(&mut self, owned: &Vec<(bool, bool)>) -> (acts: Vec<Action>)
        requires
            old(self).wf(),
            owned@.len() == old(self).screens@.len(),
        ensures
            final(self).wf(),
            final(self).password@ == old(self).password@,
            final(self).checking == old(self).checking,
            final(self).seconds == old(self).seconds,
            final(self).throttle == old(self).throttle,
            final(self).screens@.len() == old(self).screens@.len(),
            forall |k: int| 0 <= k < old(self).screens@.len() ==> final(self).screens@[k]
                == spec_sanitize(old(self).screens@[k], owned@[k].0, owned@[k].1),
            acts@ == sanitize_commands(old(self).screens@, owned@),
    {
        let len = self.screens.len();
        let mut acts: Vec<Action> = Vec::new();
        let mut j: usize = 0;
        proof {
            assert(old(self).screens@.take(0) =~= Seq::<Screen>::empty());
            assert(owned@.take(0) =~= Seq::<(bool, bool)>::empty());
        }
        while j < len
            invariant
                j <= len,
                len == self.screens@.len(),
                self.screens@.len() == old(self).screens@.len(),
                owned@.len() == old(self).screens@.len(),
                forall |k: int| 0 <= k < j ==> self.screens@[k]
                    == spec_sanitize(old(self).screens@[k], owned@[k].0, owned@[k].1),
                forall |k: int| j <= k < len ==> self.screens@[k] == old(self).screens@[k],
                self.password@ == old(self).password@,
                self.checking == old(self).checking,
                self.seconds == old(self).seconds,
                self.throttle == old(self).throttle,
                acts@ == sanitize_commands(old(self).screens@.take(j as int), owned@.take(j as int)),
            decreases len - j,
        {
            proof {
                lemma_sanitize_commands_step(old(self).screens@, owned@, j as int);
            }
            let s = self.screens[j];
            let (keyboard, pointer) = owned[j];
            if s.saver.is_some() && (s.window.keyboard != keyboard || s.window.pointer != pointer) {
                acts.push(Action::SaverSafety(s.window.id, safety_of(keyboard, pointer)));
            }
            self.screens.set(j, Screen {
                window: Window { keyboard, pointer, ..s.window },
                saver: s.saver,
            });
            proof {
                assert(acts@ =~= sanitize_commands(
                    old(self).screens@.take(j as int + 1),
                    owned@.take(j as int + 1),
                ));
            }
            j += 1;
        }
        proof {
            assert(old(self).screens@.take(len as int) =~= old(self).screens@);
            assert(owned@.take(len as int) =~= owned@);
            assert(forall |k: int| 0 <= k < self.screens@.len()
                ==> self.screens@[k].window.id == old(self).screens@[k].window.id);
        }
        acts
    }

    /// Handles a screen-geometry change on the given root window: windows on
    /// that root take the new size, and the new geometry is forwarded to
    /// their savers.
    pub fn resize(&mut self, root: u32, width: u32, height: u32) -> (acts: Vec<Action>)
        requires
            old(self).wf(),
        ensures
            final(self).wf(),
            final(self).password@ == old(self).password@,
            final(self).checking == old(self).checking,
            final(self).seconds == old(self).seconds,
            final(self).throttle == old(self).throttle,
            final(self).screens@.len() == old(self).screens@.len(),
            forall |k: int| 0 <= k < old(self).screens@.len() ==> final(self).screens@[k]
                == spec_resize(old(self).screens@[k], root, width, height),
            acts@ == bcast_commands(old(self).screens@, Broadcast::Resize { root, width, height }),
    {
        let mut acts: Vec<Action> = Vec::new();
        self.broadcast(Broadcast::Resize { root, width, height }, &mut acts);
        proof {
            assert(acts@ =~= bcast_commands(self.screens@, Broadcast::Resize {
                root, width, height,
            }));
        }
        let len = self.screens.len();
        let mut j: usize = 0;
        while j < len
            invariant
                j <= len,
                len == self.screens@.len(),
                self.screens@.len() == old(self).screens@.len(),
                forall |k: int| 0 <= k < j ==> self.screens@[k]
                    == spec_resize(old(self).screens@[k], root, width, height),
                forall |k: int| j <= k < len ==> self.screens@[k] == old(self).screens@[k],
                self.password@ == old(self).password@,
                self.checking == old(self).checking,
                self.seconds == old(self).seconds,
                self.throttle == old(self).throttle,
                acts@ == bcast_commands(old(self).screens@, Broadcast::Resize {
                    root, width, height,
                }),
            decreases len - j,
        {
            let s = self.screens[j];
            if s.window.root == root {
                self.screens.set(j, Screen {
                    window: Window { width, height, ..s.window },
                    saver: s.saver,
                });
            }
            j += 1;
        }
        proof {
            assert(forall |k: int| 0 <= k < self.screens@.len()
                ==> self.screens@[k].window.id == old(self).screens@[k].window.id);
        }
        acts
    }

    /// Handles a `Timeout` control request: the watchdog elapsed for this
    /// window, so its saver — stuck in some transition — is killed
    /// unconditionally.  The kill changes no state by itself: the subprocess
    /// exit that follows is handled conservatively by [`Self::saver_event`].
    pub fn timeout(&self, id: u64) -> (acts: Vec<Action>)
        requires
            self.wf(),
        ensures
            forall |k: int| 0 <= k < self.screens@.len()
                && self.screens@[k].window.id == (id as u32) ==> acts@ == (
                if self.screens@[k].saver is Some {
                    seq![Action::SaverKill(id as u32)]
                } else {
                    Seq::<Action>::empty()
                }),
            !has_window(self.screens@, id as u32) ==> acts@ == Seq::<Action>::empty(),
    {
        let mut acts: Vec<Action> = Vec::new();
        if let Some(k) = self.find(id as u32) {
            if self.screens[k].saver.is_some() {
                acts.push(Action::SaverKill(id as u32));
            }
            proof {
                assert forall |k2: int| 0 <= k2 < self.screens@.len()
                    && self.screens@[k2].window.id == (id as u32) implies k2 == k as int by {
                    lemma_unique_id(self.screens@, k2, k as int);
                }
                assert(acts@ =~= (if self.screens@[k as int].saver is Some {
                    seq![Action::SaverKill(id as u32)]
                } else {
                    Seq::<Action>::empty()
                }));
            }
        }
        acts
    }

    /// Handles one saver lifecycle event, tagged with the identifier of the
    /// window its subprocess is bound to.
    ///
    /// The race rules are conservative: an acknowledgment that was never
    /// asked for kills the subprocess instead of trusting the signal, and an
    /// exit without a prior stop request re-locks and blanks the window —
    /// the screen never becomes unlocked merely because the presentation
    /// process died.  An orderly exit after a stop request unlocks the
    /// window and, when it retires the last active saver, announces the
    /// outward `Stopped`.  An event for an unknown window, or for one with
    /// no saver bound, is stale and does nothing.
    pub fn saver_event(&mut self, id: u32, ev: SaverEvent) -> (acts: Vec<Action>)
        requires
            old(self).wf(),
        ensures
            final(self).wf(),
            final(self).password@ == old(self).password@,
            final(self).checking == old(self).checking,
            final(self).seconds == old(self).seconds,
            final(self).throttle == old(self).throttle,
            final(self).screens@.len() == old(self).screens@.len(),
            forall |k: int| 0 <= k < old(self).screens@.len()
                && old(self).screens@[k].window.id != id
                ==> final(self).screens@[k] == old(self).screens@[k],
            forall |k: int| 0 <= k < old(self).screens@.len()
                && old(self).screens@[k].window.id == id
                ==> final(self).screens@[k] == spec_saver_event(old(self).screens@[k], ev)
                    && acts@ == saver_commands(
                        old(self).screens@[k],
                        ev,
                        savers_count(old(self).screens@) == 1,
                    ),
            !has_window(old(self).screens@, id) ==> same_state(*final(self), *old(self))
                && acts@ == Seq::<Action>::empty(),
    {
        let mut acts: Vec<Action> = Vec::new();
        let found = self.find(id);
        match found {
            None => acts,
            Some(k) => {
                proof {
                    assert forall |k2: int| 0 <= k2 < self.screens@.len()
                        && self.screens@[k2].window.id == id implies k2 == k as int by {
                        lemma_unique_id(self.screens@, k2, k as int);
                    }
                }
                let s = self.screens[k];
                match s.saver {
                    None => acts,
                    Some(v) => {
                        match ev {
                            SaverEvent::Initialized => {
                                self.screens.set(k, Screen {
                                    window: s.window,
                                    saver: Some(Saver { started: true, ..v }),
                                });
                                acts.push(Action::SaverConfig(id));
                                acts.push(Action::SaverStart(id));
                            },
                            SaverEvent::Started => {
                                if v.started {
                                    acts.push(Action::Out(Response::Timeout(Timeout::Cancel {
                                        id: id as u64,
                                    })));
                                    self.screens.set(k, Screen {
                                        window: Window { locked: true, ..s.window },
                                        saver: Some(v),
                                    });
                                    acts.push(Action::WindowLock(id));
                                    acts.push(Action::SaverSafety(
                                        id,
                                        safety_of(s.window.keyboard, s.window.pointer),
                                    ));
                                } else {
                                    acts.push(Action::SaverKill(id));
                                }
                            },
                            SaverEvent::Stopped => {
                                if v.stopped {
                                    acts.push(Action::Out(Response::Timeout(Timeout::Cancel {
                                        id: id as u64,
                                    })));
                                } else {
                                    acts.push(Action::SaverKill(id));
                                }
                            },
                            SaverEvent::Exit => {
                                let last = self.count_savers() == 1;
                                if v.stopped {
                                    self.screens.set(k, Screen {
                                        window: Window { locked: false, blanked: false, ..s.window },
                                        saver: None,
                                    });
                                    acts.push(Action::WindowUnlock(id));
                                    if last {
                                        acts.push(Action::Out(Response::Stopped));
                                    }
                                } else {
                                    self.screens.set(k, Screen {
                                        window: Window { locked: true, blanked: true, ..s.window },
                                        saver: None,
                                    });
                                    acts.push(Action::WindowLock(id));
                                    acts.push(Action::WindowBlank(id));
                                }
                            },
                        }
                        proof {
                            assert(acts@ =~= saver_commands(
                                old(self).screens@[k as int],
                                ev,
                                savers_count(old(self).screens@) == 1,
                            ));
                            assert(forall |k2: int| 0 <= k2 < self.screens@.len()
                                ==> self.screens@[k2].window.id
                                    == old(self).screens@[k2].window.id);
                        }
                        acts
                    },
                }
            },
        }
    }

    /// Handles one key press inside the given window, with the key already
    /// resolved by the platform's keyboard layer (only presses carry text,
    /// since key-to-string resolution is defined for presses alone).
    ///
    /// Every press emits an outward activity ping first.  While `checking`
    /// is true — a submitted password is still being verified — nothing else
    /// happens: no character is buffered.  Otherwise, inside one of the
    /// locker's windows: backspace drops the last buffered character (a
    /// no-op on an empty buffer), escape leaves the buffer empty whatever it
    /// held, return broadcasts a check to the savers, emits the buffered
    /// password outward, sets `checking` and clears the buffer, and any
    /// other resolved text is appended character by character under the 255
    /// bound, with anonymous insert feedback per kept character.
    pub fn key_press(&mut self, window: u32, key: Key) -> (acts: Vec<Action>)
        requires
            old(self).wf(),
        ensures
            final(self).wf(),
            final(self).screens@ == old(self).screens@,
            final(self).seconds == old(self).seconds,
            final(self).throttle == old(self).throttle,
            acts@.len() >= 1 && acts@[0] == Action::Out(Response::Activity),
            old(self).checking ==> same_state(*final(self), *old(self))
                && acts@ == seq![Action::Out(Response::Activity)],
            !old(self).checking && !has_window(old(self).screens@, window)
                ==> same_state(*final(self), *old(self))
                    && acts@ == seq![Action::Out(Response::Activity)],
            !old(self).checking && has_window(old(self).screens@, window) ==> (match key {
                Key::BackSpace => final(self).checking == old(self).checking
                    && final(self).password@ == (if old(self).password@.len() > 0 {
                        old(self).password@.drop_last()
                    } else {
                        old(self).password@
                    })
                    && acts@ == seq![Action::Out(Response::Activity)]
                        + (if old(self).password@.len() > 0 {
                            feedback_commands(old(self).screens@, Password::Delete)
                        } else {
                            Seq::<Action>::empty()
                        }),
                Key::Escape => final(self).checking == old(self).checking
                    && final(self).password@.len() == 0
                    && acts@ == seq![Action::Out(Response::Activity)]
                        + (if old(self).password@.len() > 0 {
                            feedback_commands(old(self).screens@, Password::Reset)
                        } else {
                            Seq::<Action>::empty()
                        }),
                Key::Return => final(self).checking
                    && final(self).password@.len() == 0
                    && acts@.len() == 2 + feedback_commands(old(self).screens@, Password::Check).len()
                    && acts@.subrange(1, acts@.len() - 1)
                        == feedback_commands(old(self).screens@, Password::Check)
                    && (acts@.last() matches Action::Out(Response::Password(p))
                        && p@ == old(self).password@),
                Key::Text(cs) => final(self).checking == old(self).checking
                    && final(self).password@ == append_bounded(old(self).password@, cs@)
                    && (forall |j: int| 1 <= j < acts@.len() ==> is_feedback_to_saver(
                        #[trigger] acts@[j],
                        old(self).screens@,
                        Password::Insert,
                    )),
            }),
    {
        let mut acts: Vec<Action> = Vec::new();
        acts.push(Action::Out(Response::Activity));
        proof {
            assert(acts@ =~= seq![Action::Out(Response::Activity)]);
        }
        if self.checking {
            return acts;
        }
        let found = self.find(window);
        if found.is_none() {
            return acts;
        }
        match key {
            Key::BackSpace => {
                if self.password.len() > 0 {
                    let _ = self.password.pop();
                    self.broadcast(Broadcast::Feedback(Password::Delete), &mut acts);
                    proof {
                        assert(self.password@ =~= old(self).password@.drop_last());
                        assert(acts@ =~= seq![Action::Out(Response::Activity)]
                            + feedback_commands(old(self).screens@, Password::Delete));
                    }
                } else {
                    proof {
                        assert(acts@ =~= seq![Action::Out(Response::Activity)]
                            + Seq::<Action>::empty());
                    }
                }
            },
            Key::Escape => {
                if self.password.len() > 0 {
                    self.password.clear();
                    self.broadcast(Broadcast::Feedback(Password::Reset), &mut acts);
                    proof {
                        assert(acts@ =~= seq![Action::Out(Response::Activity)]
                            + feedback_commands(old(self).screens@, Password::Reset));
                    }
                } else {
                    proof {
                        assert(acts@ =~= seq![Action::Out(Response::Activity)]
                            + Seq::<Action>::empty());
                    }
                }
            },
            Key::Return => {
                self.broadcast(Broadcast::Feedback(Password::Check), &mut acts);
                let pw = string_from_chars(&self.password);
                acts.push(Action::Out(Response::Password(pw)));
                self.checking = true;
                self.password.clear();
                proof {
                    assert(acts@.subrange(1, acts@.len() - 1)
                        =~= feedback_commands(old(self).screens@, Password::Check));
                }
            },
            Key::Text(cs) => {
                let n = cs.len();
                let mut t: usize = 0;
                proof {
                    assert(cs@.take(0) =~= Seq::<char>::empty());
                }
                while t < n
                    invariant
                        t <= n,
                        n == cs@.len(),
                        old(self).wf(),
                        !old(self).checking,
                        self.screens@ == old(self).screens@,
                        self.checking == old(self).checking,
                        self.seconds == old(self).seconds,
                        self.throttle == old(self).throttle,
                        self.password@ == append_bounded(old(self).password@, cs@.take(t as int)),
                        self.password@.len() <= 255,
                        acts@.len() >= 1,
                        acts@[0] == Action::Out(Response::Activity),
                        forall |j: int| 1 <= j < acts@.len() ==> is_feedback_to_saver(
                            #[trigger] acts@[j],
                            old(self).screens@,
                            Password::Insert,
                        ),
                    decreases n - t,
                {
                    proof {
                        assert(cs@.take(t as int + 1) =~= cs@.take(t as int).push(cs@[t as int]));
                        lemma_append_bounded_snoc(
                            old(self).password@,
                            cs@.take(t as int),
                            cs@[t as int],
                        );
                    }
                    let c = cs[t];
                    if self.password.len() < 255 {
                        self.password.push(c);
                        let ghost pre = acts@;
                        self.broadcast(Broadcast::Feedback(Password::Insert), &mut acts);
                        proof {
                            lemma_feedback_elems(self.screens@, Password::Insert);
                            assert forall |j: int| 1 <= j < acts@.len() implies is_feedback_to_saver(
                                acts@[j],
                                old(self).screens@,
                                Password::Insert,
                            ) by {
                                if j >= pre.len() {
                                    assert(acts@[j] == feedback_commands(
                                        self.screens@,
                                        Password::Insert,
                                    )[j - pre.len()]);
                                }
                            }
                        }
                    }
                    t += 1;
                }
                proof {
                    assert(cs@.take(n as int) =~= cs@);
                }
            },
        }
        acts
    }

    /// Handles a pointer button press or release inside the given window: an
    /// outward activity ping, and the event forwarded verbatim to that
    /// window's saver, if it has one.
    pub fn button(&self, window: u32, x: i32, y: i32, button: u8, press: bool) -> (acts: Vec<Action>)
        requires
            self.wf(),
        ensures
            acts@.len() >= 1 && acts@[0] == Action::Out(Response::Activity),
            forall |k: int| 0 <= k < self.screens@.len() && self.screens@[k].window.id == window
                ==> acts@ == (if self.screens@[k].saver is Some {
                    seq![
                        Action::Out(Response::Activity),
                        Action::SaverPointer(window, Pointer::Button { x, y, button, press }),
                    ]
                } else {
                    seq![Action::Out(Response::Activity)]
                }),
            !has_window(self.screens@, window) ==> acts@ == seq![Action::Out(Response::Activity)],
    {
        let mut acts: Vec<Action> = Vec::new();
        acts.push(Action::Out(Response::Activity));
        proof {
            assert(acts@ =~= seq![Action::Out(Response::Activity)]);
        }
        if let Some(k) = self.find(window) {
            proof {
                assert forall |k2: int| 0 <= k2 < self.screens@.len()
                    && self.screens@[k2].window.id == window implies k2 == k as int by {
                    lemma_unique_id(self.screens@, k2, k as int);
                }
            }
            if self.screens[k].saver.is_some() {
                acts.push(Action::SaverPointer(window, Pointer::Button { x, y, button, press }));
                proof {
                    assert(acts@ =~= seq![
                        Action::Out(Response::Activity),
                        Action::SaverPointer(window, Pointer::Button { x, y, button, press }),
                    ]);
                }
            }
        }
        acts
    }

    /// Handles pointer motion inside the given window: an outward activity
    /// ping, and the coordinates forwarded to that window's saver, if any.
    pub fn motion(&self, window: u32, x: i32, y: i32) -> (acts: Vec<Action>)
        requires
            self.wf(),
        ensures
            acts@.len() >= 1 && acts@[0] == Action::Out(Response::Activity),
            forall |k: int| 0 <= k < self.screens@.len() && self.screens@[k].window.id == window
                ==> acts@ == (if self.screens@[k].saver is Some {
                    seq![
                        Action::Out(Response::Activity),
                        Action::SaverPointer(window, Pointer::Move { x, y }),
                    ]
                } else {
                    seq![Action::Out(Response::Activity)]
                }),
            !has_window(self.screens@, window) ==> acts@ == seq![Action::Out(Response::Activity)],
    {
        let mut acts: Vec<Action> = Vec::new();
        acts.push(Action::Out(Response::Activity));
        proof {
            assert(acts@ =~= seq![Action::Out(Response::Activity)]);
        }
        if let Some(k) = self.find(window) {
            proof {
                assert forall |k2: int| 0 <= k2 < self.screens@.len()
                    && self.screens@[k2].window.id == window implies k2 == k as int by {
                    lemma_unique_id(self.screens@, k2, k as int);
                }
            }
            if self.screens[k].saver.is_some() {
                acts.push(Action::SaverPointer(window, Pointer::Move { x, y }));
                proof {
                    assert(acts@ =~= seq![
                        Action::Out(Response::Activity),
                        Action::SaverPointer(window, Pointer::Move { x, y }),
                    ]);
                }
            }
        }
        acts
    }
}

} // verus!
