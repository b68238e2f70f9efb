//! The authentication multiplexer: given a password, decide success or
//! failure by trying a configured list of backends in order.

use vstd::prelude::*;

verus! {

/// A request to the authentication worker.
#[derive(Clone, Debug)]
pub enum Request {
    Authenticate(String),
}

/// The authentication worker's answer to a request.
#[derive(Clone, Copy, Debug, PartialEq, Eq, Structural)]
pub enum Response {
    Success,
    Failure,
}

/// A local failure of one authentication backend, distinguishable from an
/// ordinary rejected password for diagnostics.
#[derive(Clone, Copy, Debug, PartialEq, Eq, Structural)]
pub enum Error {
    Backend,
}

/// What one backend said about one password.
#[derive(Clone, Copy, Debug, PartialEq, Eq, Structural)]
pub enum Outcome {
    Verified,
    Declined,
    Errored,
}

/// One pluggable authentication backend: attempts to verify a password for a
/// named user.  Implementations are supplied by the embedding program.
pub trait Authenticate {
    fn authenticate(&mut self, user: &str, password: &str) -> Result<bool, Error>;
}

/// Whether some outcome in the sequence affirmatively verified the password.
pub open spec fn any_verified(outcomes: Seq<Outcome>) -> bool {
    exists |i: int| 0 <= i < outcomes.len() && outcomes[i] == Outcome::Verified
}

/// The decision of the multiplexer over the outcomes of the configured
/// backends, in configuration order.
///
/// With no backends configured at all the decision is success — the
/// deliberate, documented "no authentication configured" bypass, preserved
/// here on purpose; callers that do not want a lock that opens for any
/// password, including the empty one, must configure at least one backend.
/// Otherwise the password is accepted exactly when some backend verified it;
/// a backend error counts as "not verified".
pub open spec fn spec_decide(outcomes: Seq<Outcome>) -> Response {
    if outcomes.len() == 0 || any_verified(outcomes) {
        Response::Success
    } else {
        Response::Failure
    }
}

/// Decides success or failure from the backends' outcomes.
pub fn decide(outcomes: &Vec<Outcome>) -> (r: Response)
    ensures
        r == spec_decide(outcomes@),
        r == Response::Success <==> (outcomes@.len() == 0 || any_verified(outcomes@)),
{
    let n = outcomes.len();
    if n == 0 {
        return Response::Success;
    }
    let mut i: usize = 0;
    while i < n
        invariant
            i <= n,
            n == outcomes@.len(),
            forall |j: int| 0 <= j < i ==> outcomes@[j] != Outcome::Verified,
        decreases n - i,
    {
        if matches!(outcomes[i], Outcome::Verified) {
            return Response::Success;
        }
        i += 1;
    }
    Response::Failure
}

/// The backend that answered: the index of the first outcome that verified
/// the password, mirroring the short-circuit of the check itself.
pub fn answered(outcomes: &Vec<Outcome>) -> (r: Option<usize>)
    ensures
        r matches Some(i) ==> i < outcomes@.len() && outcomes@[i as int] == Outcome::Verified
            && (forall |j: int| 0 <= j < i ==> outcomes@[j] != Outcome::Verified),
        r is None ==> !any_verified(outcomes@),
{
    let n = outcomes.len();
    let mut i: usize = 0;
    while i < n
        invariant
            i <= n,
            n == outcomes@.len(),
            forall |j: int| 0 <= j < i ==> outcomes@[j] != Outcome::Verified,
        decreases n - i,
    {
        if matches!(outcomes[i], Outcome::Verified) {
            return Some(i);
        }
        i += 1;
    }
    None
}

/// One authentication round: tries the configured backends in order against
/// the current session user, stopping at the first that verifies the
/// password, and returns the decision together with the index of the backend
/// that answered.
///
/// With no backends configured the password is accepted unconditionally (the
/// documented bypass, see [`spec_decide`]).  With backends configured, the
/// answer is `Success` exactly when the returned index names the first
/// backend that verified the password; when none did, it is `Failure`.
pub fn check_password(
    methods: &mut Vec<Box<dyn Authenticate>>,
    user: &str,
    password: &str,
) -> (r: (Response, Option<usize>))
    ensures
        final(methods)@.len() == old(methods)@.len(),
        old(methods)@.len() == 0 ==> r.0 == Response::Success && r.1 is None,
        r.1 matches Some(i) ==> i < old(methods)@.len() && r.0 == Response::Success,
        old(methods)@.len() > 0 && r.1 is None ==> r.0 == Response::Failure,
{
    let n = methods.len();
    if n == 0 {
        return (Response::Success, None);
    }
    let mut outcomes: Vec<Outcome> = Vec::new();
    let mut i: usize = 0;
    let mut hit = false;
    while i < n && !hit
        invariant
            n == methods@.len(),
            methods@.len() == old(methods)@.len(),
            i <= n,
            outcomes@.len() == i,
            forall |j: int| 0 <= j < i - 1 ==> outcomes@[j] != Outcome::Verified,
            hit ==> i >= 1 && outcomes@[i - 1] == Outcome::Verified,
            !hit ==> (forall |j: int| 0 <= j < i ==> outcomes@[j] != Outcome::Verified),
        decreases n - i,
    {
        let m = &mut methods[i];
        let raw = m.authenticate(user, password);
        let o = outcome_of(&raw);
        outcomes.push(o);
        if matches!(o, Outcome::Verified) {
            hit = true;
        }
        i += 1;
    }
    let resp = decide(&outcomes);
    let idx = answered(&outcomes);
    proof {
        if hit {
            assert(any_verified(outcomes@));
        } else {
            assert(outcomes@.len() == n);
            assert(!any_verified(outcomes@));
        }
    }
    (resp, idx)
}

/// The outcome that one backend's raw answer amounts to.
pub open spec fn spec_outcome(r: Result<bool, Error>) -> Outcome {
    match r {
        Ok(true) => Outcome::Verified,
        Ok(false) => Outcome::Declined,
        Err(_) => Outcome::Errored,
    }
}

/// Classifies a backend's raw answer: a backend error counts as "not
/// verified" for the decision, but keeps its own variant for diagnostics.
pub fn outcome_of(r: &Result<bool, Error>) -> (o: Outcome)
    ensures
        o == spec_outcome(*r),
{
    match r {
        Ok(true) => Outcome::Verified,
        Ok(false) => Outcome::Declined,
        Err(_) => Outcome::Errored,
    }
}

} // verus!
