//! Supervised loops: how a loop raced against the shutdown flag reports, and
//! how the reports of all loops combine into the process outcome.
use vstd::prelude::*;

verus! {

/// Which side of the race finished first.
#[derive(Debug)]
pub enum Completion<E> {
    /// The shutdown flag fired first.
    Cancelled,
    /// The body finished first, with this result.
    Finished(Result<(), E>),
}

pub open spec fn settle_spec<E>(c: Completion<E>) -> Result<(), E> {
    match c {
        Completion::Cancelled => Ok(()),
        Completion::Finished(r) => r,
    }
}

/// A loop's report: success when cancellation won the race, whatever the body
/// had done; the body's own result otherwise.
pub fn settle<E>(c: Completion<E>) -> (r: Result<(), E>)
    ensures
        r == settle_spec(c),
{
    match c {
        Completion::Cancelled => Ok(()),
        Completion::Finished(r) => r,
    }
}

pub open spec fn all_ok<E>(s: Seq<Result<(), E>>) -> bool {
    forall|i: int| 0 <= i < s.len() ==> (#[trigger] s[i]) is Ok
}

/// The first failure in `s`, or success when there is none.
pub open spec fn first_failure_spec<E>(s: Seq<Result<(), E>>) -> Result<(), E>
    decreases s.len(),
{
    if s.len() == 0 {
        Ok(())
    } else if s[0] is Err {
        s[0]
    } else {
        first_failure_spec(s.drop_first())
    }
}

/// Combines the reports of all loops, in the order they came: success when
/// every loop succeeded, else the first failure.
pub fn first_failure<E>(reports: Vec<Result<(), E>>) -> (r: Result<(), E>)
    ensures
        r == first_failure_spec(reports@),
{
    let ghost s = reports@;
    let mut rest = reports;
    let mut found: Result<(), E> = Ok(());
    assert(s.subrange(s.len() as int, s.len() as int).len() == 0);
    while rest.len() > 0
        invariant
            rest@ == s.subrange(0, rest@.len() as int),
            rest@.len() <= s.len(),
            found == first_failure_spec(s.subrange(rest@.len() as int, s.len() as int)),
        decreases rest@.len(),
    {
        let n = rest.len();
        let x = rest.pop().unwrap();
        assert(x == s[n - 1]);
        assert(rest@ =~= s.subrange(0, rest@.len() as int));
        assert(s.subrange(n - 1, s.len() as int).drop_first() =~= s.subrange(n as int, s.len() as int));
        if x.is_err() {
            found = x;
        }
    }
    assert(s.subrange(0, s.len() as int) =~= s);
    found
}

/// Success is reported exactly when no report is a failure.
pub proof fn lemma_first_failure_ok<E>(s: Seq<Result<(), E>>)
    ensures
        first_failure_spec(s) is Ok <==> all_ok(s),
    decreases s.len(),
{
    if s.len() > 0 {
        lemma_first_failure_ok(s.drop_first());
        if all_ok(s.drop_first()) && s[0] is Ok {
            assert forall|i: int| 0 <= i < s.len() implies (#[trigger] s[i]) is Ok by {
                if i > 0 {
                    assert(s[i] == s.drop_first()[i - 1]);
                }
            }
        }
        if all_ok(s) {
            assert forall|i: int| 0 <= i < s.drop_first().len() implies (#[trigger] s.drop_first()[i]) is Ok by {
                assert(s[i + 1] is Ok);
            }
        }
    }
}

/// Graceful shutdown: when the shutdown flag wins every race, every loop reports
/// success and so does the whole process.
pub proof fn law_shutdown_is_success<E>(races: Seq<Completion<E>>)
    requires
        forall|i: int| 0 <= i < races.len() ==> (#[trigger] races[i]) is Cancelled,
    ensures
        all_ok(races.map_values(|c: Completion<E>| settle_spec(c))),
        first_failure_spec(races.map_values(|c: Completion<E>| settle_spec(c))) is Ok,
{
    let reports = races.map_values(|c: Completion<E>| settle_spec(c));
    assert forall|i: int| 0 <= i < reports.len() implies (#[trigger] reports[i]) is Ok by {
        assert(races[i] is Cancelled);
    }
    lemma_first_failure_ok(reports);
}

} // verus!
