//! Trying a list of resolved addresses one after another, as a connect or a
//! bind does: the first success ends the search, and when none succeeds the
//! last failure is the result.
use vstd::prelude::*;

verus! {

/// Why no address was usable.
#[derive(PartialEq, Eq, Structural, Clone, Copy, Debug)]
pub enum AddrError<E> {
    /// The last attempt's error.
    Attempt(E),
    /// The input resolved to no address at all.
    NoAddresses,
}

/// The state of a search over addresses: the error of the last failed
/// attempt, if one was made.
#[derive(Debug)]
pub struct AddrSearch<E> {
    last_err: Option<E>,
}

impl<E> AddrSearch<E> {
    pub closed spec fn last_err_spec(&self) -> Option<E> {
        self.last_err
    }

    pub fn new() -> (r: AddrSearch<E>)
        ensures
            r.last_err_spec() is None,
    {
        AddrSearch { last_err: None }
    }

    /// Takes the outcome of one attempt: a success is handed back and ends
    /// the search, a failure is remembered.
    pub fn record<T>(&mut self, outcome: Result<T, E>) -> (r: Option<T>)
        ensures
            outcome matches Ok(v) ==> r == Some(v) && *final(self) == *old(self),
            outcome matches Err(e) ==> r is None && final(self).last_err_spec() == Some(e),
    {
        match outcome {
            Ok(v) => Some(v),
            Err(e) => {
                self.last_err = Some(e);
                None
            },
        }
    }

    /// The error once every address has failed: the last attempt's, or
    /// `NoAddresses` when there was none.
    pub fn finish(self) -> (r: AddrError<E>)
        ensures
            self.last_err_spec() matches Some(e) ==> r == AddrError::Attempt(e),
            self.last_err_spec() is None ==> r == AddrError::<E>::NoAddresses,
    {
        match self.last_err {
            Some(e) => AddrError::Attempt(e),
            None => AddrError::NoAddresses,
        }
    }
}

/// The outcome of trying attempts in order: the first success, else the
/// last failure, else `NoAddresses`.
pub open spec fn first_success<T, E>(outcomes: Seq<Result<T, E>>) -> Result<T, AddrError<E>>
    decreases outcomes.len(),
{
    if outcomes.len() == 0 {
        Err(AddrError::NoAddresses)
    } else {
        match outcomes[0] {
            Ok(v) => Ok(v),
            Err(e) => match first_success(outcomes.drop_first()) {
                Err(AddrError::NoAddresses) => Err(AddrError::Attempt(e)),
                other => other,
            },
        }
    }
}

/// Runs a search over outcomes that are all known already; it stops at the
/// first success.
pub fn search_all<T, E>(outcomes: Vec<Result<T, E>>) -> (r: Result<T, AddrError<E>>)
    ensures
        r == first_success(outcomes@),
{
    let ghost all = outcomes@;
    let mut rest = outcomes;
    let mut search: AddrSearch<E> = AddrSearch::new();
    let ghost mut i: int = 0;
    while rest.len() > 0
        invariant
            0 <= i <= all.len(),
            all == outcomes@,
            rest@ == all.subrange(i, all.len() as int),
            forall|k: int| 0 <= k < i ==> all[k] is Err,
            i == 0 ==> search.last_err_spec() is None,
            i > 0 ==> search.last_err_spec() == Some(all[i - 1]->Err_0),
            first_success(all) == match first_success(all.subrange(i, all.len() as int)) {
                Err(AddrError::NoAddresses) => if i == 0 { Err(AddrError::NoAddresses) } else { Err(AddrError::Attempt(all[i - 1]->Err_0)) },
                other => other,
            },
        decreases rest@.len(),
    {
        let outcome = rest.remove(0);
        let ghost sub = all.subrange(i, all.len() as int);
        assert(outcome == sub[0]);
        assert(sub.drop_first() == all.subrange(i + 1, all.len() as int));
        match search.record(outcome) {
            Some(v) => {
                assert(first_success(sub) == Ok::<T, AddrError<E>>(v));
                return Ok(v);
            },
            None => {},
        }
        proof {
            i = i + 1;
        }
    }
    proof {
        assert(all.subrange(i, all.len() as int).len() == 0);
    }
    Err(search.finish())
}

} // verus!
