//! The signal that stops a run, and the record of what was done with signals.
use tokio_util::sync::CancellationToken;
use vstd::prelude::*;

verus! {

/// The signal that a run listens to. Two handles of one signal are the same
/// value here: they share their state, and nothing tells them apart.
#[verifier::external_type_specification]
#[verifier::external_body]
pub struct ExCancellationToken(CancellationToken);

/// `CancellationToken::clone`: another handle of the same signal.
pub assume_specification[ <CancellationToken as Clone>::clone ](token: &CancellationToken) -> (r:
    CancellationToken)
    ensures
        r == *token,
;

/// The signals that were made for one set of runs, and those of them that were
/// given, each in order. Only [`new_signal`] and [`give_signal`] add to it, so
/// that it tells what was done with the signals and what was not.
pub struct SignalLog {
    made: Ghost<Seq<CancellationToken>>,
    given: Ghost<Seq<CancellationToken>>,
}

impl SignalLog {
    /// The signals that were made.
    pub closed spec fn made(self) -> Seq<CancellationToken> {
        self.made@
    }

    /// The signals that were given.
    pub closed spec fn given(self) -> Seq<CancellationToken> {
        self.given@
    }

    /// The record before any signal was made.
    pub(crate) fn empty() -> (r: Self)
        ensures
            r.made() == Seq::<CancellationToken>::empty(),
            r.given() == Seq::<CancellationToken>::empty(),
    {
        SignalLog { made: Ghost(Seq::empty()), given: Ghost(Seq::empty()) }
    }
}

/// `CancellationToken::new`: a signal of its own, none of those that were made
/// before, so that giving one of them does not give it. The record takes it
/// down as made. Nobody has given it yet, which the record tells as well: it is
/// not among the signals given.
#[verifier::external_body]
pub(crate) fn new_signal(log: &mut SignalLog) -> (r: CancellationToken)
    ensures
        !old(log).made().contains(r),
        final(log).made() == old(log).made().push(r),
        final(log).given() == old(log).given(),
{
    CancellationToken::new()
}

/// `CancellationToken::cancel`: gives the signal, which every handle of it then
/// reports for good. The record takes it down as given. That a later look at a
/// handle finds the signal given rests on when that look happens, and is not
/// part of the contract.
#[verifier::external_body]
pub(crate) fn give_signal(log: &mut SignalLog, token: &CancellationToken)
    requires
        old(log).made().contains(*token),
    ensures
        final(log).made() == old(log).made(),
        final(log).given() == old(log).given().push(*token),
{
    token.cancel()
}

} // verus!
