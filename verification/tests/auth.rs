use screenlock_core::auth::{answered, check_password, decide, outcome_of, Authenticate, Error, Outcome, Response};

struct AlwaysFail;

impl Authenticate for AlwaysFail {
    fn authenticate(&mut self, _user: &str, _password: &str) -> Result<bool, Error> {
        Ok(false)
    }
}

struct AlwaysSucceed;

impl Authenticate for AlwaysSucceed {
    fn authenticate(&mut self, _user: &str, _password: &str) -> Result<bool, Error> {
        Ok(true)
    }
}

struct AlwaysError;

impl Authenticate for AlwaysError {
    fn authenticate(&mut self, _user: &str, _password: &str) -> Result<bool, Error> {
        Err(Error::Backend)
    }
}

#[test]
fn no_methods_accepts_any_password() {
    let mut methods: Vec<Box<dyn Authenticate>> = Vec::new();
    let (resp, idx) = check_password(&mut methods, "user", "");
    assert_eq!(resp, Response::Success);
    assert_eq!(idx, None);

    let (resp, idx) = check_password(&mut methods, "user", "anything at all");
    assert_eq!(resp, Response::Success);
    assert_eq!(idx, None);
}

#[test]
fn first_success_short_circuits_and_names_the_backend() {
    let mut methods: Vec<Box<dyn Authenticate>> =
        vec![Box::new(AlwaysFail), Box::new(AlwaysSucceed)];
    let (resp, idx) = check_password(&mut methods, "user", "whatever");
    assert_eq!(resp, Response::Success);
    assert_eq!(idx, Some(1));
}

#[test]
fn all_declining_methods_fail() {
    let mut methods: Vec<Box<dyn Authenticate>> = vec![Box::new(AlwaysFail), Box::new(AlwaysFail)];
    let (resp, idx) = check_password(&mut methods, "user", "pw");
    assert_eq!(resp, Response::Failure);
    assert_eq!(idx, None);
}

#[test]
fn backend_error_counts_as_not_verified() {
    let mut methods: Vec<Box<dyn Authenticate>> = vec![Box::new(AlwaysError)];
    let (resp, idx) = check_password(&mut methods, "user", "pw");
    assert_eq!(resp, Response::Failure);
    assert_eq!(idx, None);

    let mut methods: Vec<Box<dyn Authenticate>> =
        vec![Box::new(AlwaysError), Box::new(AlwaysSucceed)];
    let (resp, idx) = check_password(&mut methods, "user", "pw");
    assert_eq!(resp, Response::Success);
    assert_eq!(idx, Some(1));
}

#[test]
fn decide_empty_is_success() {
    assert_eq!(decide(&Vec::new()), Response::Success);
}

#[test]
fn decide_follows_outcomes() {
    assert_eq!(decide(&vec![Outcome::Declined]), Response::Failure);
    assert_eq!(decide(&vec![Outcome::Errored]), Response::Failure);
    assert_eq!(decide(&vec![Outcome::Declined, Outcome::Verified]), Response::Success);
    assert_eq!(decide(&vec![Outcome::Verified]), Response::Success);
}

#[test]
fn answered_names_the_first_verifier() {
    assert_eq!(answered(&vec![Outcome::Declined, Outcome::Verified]), Some(1));
    assert_eq!(answered(&vec![Outcome::Verified, Outcome::Verified]), Some(0));
    assert_eq!(answered(&vec![Outcome::Declined, Outcome::Errored]), None);
    assert_eq!(answered(&Vec::new()), None);
}

#[test]
fn outcomes_classify_raw_answers() {
    assert_eq!(outcome_of(&Ok(true)), Outcome::Verified);
    assert_eq!(outcome_of(&Ok(false)), Outcome::Declined);
    assert_eq!(outcome_of(&Err(Error::Backend)), Outcome::Errored);
}
