//! Classification of engine failures into transient and terminal kinds.
use vstd::prelude::*;
use crate::text::{chars_of, occurs_at, occurs_in};

verus! {

/// Text by which a dropped engine connection shows in an error description.
pub const CONNECTION_LOST_SIGNATURE: &'static str = "underlying connection is closed";

/// Text by which an operation timeout shows in an error description.
pub const TIMEOUT_SIGNATURE: &'static str = "event waited for never came";

/// The kind of a failure surfaced by an engine interaction.
#[derive(PartialEq, Eq, Structural, Clone, Copy, Debug)]
pub enum FailureClass {
    /// The shared engine connection died: transient, and the connection must
    /// be renewed before the next cycle.
    ConnectionLost,
    /// A single operation did not complete in time: transient.
    OperationTimeout,
    /// Anything else: terminal, reported once and not retried.
    Unknown,
}

impl FailureClass {
    pub open spec fn spec_is_transient(self) -> bool {
        !(self is Unknown)
    }

    /// Transient failures are retried and slow the throttle down.
    pub fn is_transient(&self) -> (r: bool)
        ensures
            r == self.spec_is_transient(),
    {
        !matches!(self, FailureClass::Unknown)
    }
}

/// The class of a failure, given whether the collaborator reported it with
/// its typed connection-closed or timeout error, and its description. Typed
/// detection is preferred; the description's signatures are the fallback.
pub open spec fn class_of(typed_lost: bool, typed_timeout: bool, description: Seq<char>) -> FailureClass {
    if typed_lost || occurs_in(description, CONNECTION_LOST_SIGNATURE@) {
        FailureClass::ConnectionLost
    } else if typed_timeout || occurs_in(description, TIMEOUT_SIGNATURE@) {
        FailureClass::OperationTimeout
    } else {
        FailureClass::Unknown
    }
}

/// Whether `pat` occurs in `s` at position `i`.
fn occurs_at_exec(s: &Vec<char>, pat: &Vec<char>, i: usize) -> (r: bool)
    requires
        i + pat.len() <= s.len(),
    ensures
        r == occurs_at(s@, pat@, i as int),
{
    let mut j: usize = 0;
    while j < pat.len()
        invariant
            i + pat.len() <= s.len(),
            j <= pat.len(),
            forall|t: int| 0 <= t < j ==> s@[i + t] == pat@[t],
        decreases pat.len() - j,
    {
        if s[i + j] != pat[j] {
            assert(s@.subrange(i as int, i + pat.len())[j as int] != pat@[j as int]);
            return false;
        }
        j = j + 1;
    }
    assert(s@.subrange(i as int, i + pat.len()) =~= pat@);
    true
}

/// Whether `pat` occurs anywhere in `s`.
pub fn contains_text(s: &str, pat: &str) -> (r: bool)
    ensures
        r == occurs_in(s@, pat@),
{
    let sc = chars_of(s);
    let pc = chars_of(pat);
    if pc.len() > sc.len() {
        return false;
    }
    let last = sc.len() - pc.len();
    let mut i: usize = 0;
    loop
        invariant
            sc@ == s@,
            pc@ == pat@,
            last == sc.len() - pc.len(),
            i <= last,
            forall|t: int| 0 <= t < i ==> !occurs_at(s@, pat@, t),
        decreases last - i,
    {
        if occurs_at_exec(&sc, &pc, i) {
            return true;
        }
        if i == last {
            return false;
        }
        i = i + 1;
    }
}

/// Classifies a failure from the collaborator's typed flags and description.
/// A description bearing the connection-lost signature is never classified
/// as unknown.
pub fn classify(typed_lost: bool, typed_timeout: bool, description: &str) -> (r: FailureClass)
    ensures
        r == class_of(typed_lost, typed_timeout, description@),
        r is Unknown ==> !occurs_in(description@, CONNECTION_LOST_SIGNATURE@),
{
    if typed_lost || contains_text(description, CONNECTION_LOST_SIGNATURE) {
        FailureClass::ConnectionLost
    } else if typed_timeout || contains_text(description, TIMEOUT_SIGNATURE) {
        FailureClass::OperationTimeout
    } else {
        FailureClass::Unknown
    }
}

#[verifier::external_type_specification]
#[verifier::external_body]
pub struct ExAnyhowError(anyhow::Error);

/// Relies on `anyhow::Error`'s `Debug` formatting: the error's message with
/// its chain of causes.
#[verifier::external_body]
fn debug_text(err: &anyhow::Error) -> (r: String) {
    format!("{:?}", err)
}

/// Classifies an error surfaced by the engine. The typed flags say whether
/// the error downcasts to the engine's connection-closed or timeout type; the
/// description that the class was derived from is returned with it.
pub fn classify_error(err: &anyhow::Error, typed_lost: bool, typed_timeout: bool) -> (r: (FailureClass, String))
    ensures
        r.0 == class_of(typed_lost, typed_timeout, r.1@),
        typed_lost ==> r.0 is ConnectionLost,
        typed_timeout ==> r.0.spec_is_transient(),
{
    let description = debug_text(err);
    let class = classify(typed_lost, typed_timeout, description.as_str());
    (class, description)
}

} // verus!
