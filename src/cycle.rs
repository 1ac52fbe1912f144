//! One reconciliation cycle's bookkeeping: which scrapes succeeded, and how
//! long to wait before the next cycle.
use vstd::prelude::*;
use crate::records::{Subject, User};

verus! {

/// Why one user's scrape produced nothing this cycle.
#[derive(PartialEq, Eq, Structural, Clone, Copy, Debug)]
pub enum FetchError {
    /// The transport failed: connection, TLS, or reading a body.
    NetworkError,
    /// The page after login was not the student information page.
    AuthenticationFailed,
    /// The rating page did not have the expected shape.
    ParseError,
}

/// The result of one successful scrape.
pub struct Snapshot {
    pub user: User,
    pub subjects: Vec<Subject>,
}

/// The snapshots of the successful scrapes, in order.
pub open spec fn successes(outcomes: Seq<Result<Snapshot, FetchError>>) -> Seq<Snapshot>
    decreases outcomes.len(),
{
    if outcomes.len() == 0 {
        Seq::empty()
    } else {
        match outcomes[0] {
            Ok(s) => seq![s] + successes(outcomes.drop_first()),
            Err(_) => successes(outcomes.drop_first()),
        }
    }
}

/// Keeps the snapshots of the scrapes that succeeded; failed users simply
/// contribute nothing.
pub fn collect_snapshots(outcomes: Vec<Result<Snapshot, FetchError>>) -> (r: Vec<Snapshot>)
    ensures
        r@ == successes(outcomes@),
{
    let mut rest = outcomes;
    let mut kept: Vec<Snapshot> = Vec::new();
    while rest.len() > 0
        invariant
            successes(outcomes@) == kept@ + successes(rest@),
        decreases rest@.len(),
    {
        let ghost before = rest@;
        let o = rest.remove(0);
        assert(rest@ =~= before.drop_first());
        match o {
            Ok(s) => {
                kept.push(s);
                assert(successes(outcomes@) =~= kept@ + successes(rest@));
            }
            Err(_) => {}
        }
    }
    assert(kept@ + successes(rest@) =~= kept@);
    kept
}

proof fn lemma_success_kept(outcomes: Seq<Result<Snapshot, FetchError>>, k: int)
    requires
        0 <= k < outcomes.len(),
        outcomes[k] is Ok,
    ensures
        successes(outcomes).contains(outcomes[k]->Ok_0),
    decreases outcomes.len(),
{
    let s = outcomes[k]->Ok_0;
    if k == 0 {
        assert(successes(outcomes)[0] == s);
    } else {
        let rest = outcomes.drop_first();
        assert(rest[k - 1] == outcomes[k]);
        lemma_success_kept(rest, k - 1);
        let i = choose|i: int| 0 <= i < successes(rest).len() && successes(rest)[i] == s;
        match outcomes[0] {
            Ok(f) => {
                assert(successes(outcomes)[i + 1] == s);
            }
            Err(_) => {
                assert(successes(outcomes)[i] == s);
            }
        }
    }
}

/// Fault isolation: one user's successful scrape reaches reconciliation in
/// any cycle, whatever became of the other users' scrapes in it.
pub proof fn lemma_fault_isolation(
    a: Seq<Result<Snapshot, FetchError>>,
    b: Seq<Result<Snapshot, FetchError>>,
    k: int,
)
    requires
        0 <= k < a.len(),
        0 <= k < b.len(),
        a[k] is Ok,
        b[k] == a[k],
    ensures
        successes(a).contains(a[k]->Ok_0),
        successes(b).contains(a[k]->Ok_0),
{
    lemma_success_kept(a, k);
    lemma_success_kept(b, k);
}

/// A failed scrape counts as if its user had not been polled at all: the
/// successes of a cycle are those of the same cycle without that user.
pub proof fn lemma_failure_is_absence(outcomes: Seq<Result<Snapshot, FetchError>>, k: int)
    requires
        0 <= k < outcomes.len(),
        outcomes[k] is Err,
    ensures
        successes(outcomes) == successes(outcomes.remove(k)),
    decreases outcomes.len(),
{
    if k == 0 {
        assert(outcomes.remove(0) =~= outcomes.drop_first());
    } else {
        let rest = outcomes.drop_first();
        assert(rest[k - 1] == outcomes[k]);
        lemma_failure_is_absence(rest, k - 1);
        let removed = outcomes.remove(k);
        assert(removed[0] == outcomes[0]);
        assert(removed.drop_first() =~= rest.remove(k - 1));
    }
}

/// The two waits between cycles, in seconds.
pub struct Schedule {
    /// After a cycle in which at least one scrape succeeded.
    pub update_secs: u64,
    /// After a cycle in which every scrape failed.
    pub failed_update_secs: u64,
}

impl Schedule {
    /// The wait before the next cycle, given how many scrapes succeeded in
    /// this one: a cycle without any success is a failed one.
    pub fn next_delay(&self, successful: usize) -> (r: u64)
        ensures
            successful == 0 ==> r == self.failed_update_secs,
            successful > 0 ==> r == self.update_secs,
    {
        if successful == 0 {
            self.failed_update_secs
        } else {
            self.update_secs
        }
    }
}

} // verus!
