//! A database transaction that can be marked so that it may only be rolled
//! back: committing it is then refused.
use vstd::prelude::*;

verus! {

/// Committing was refused because the transaction was marked rollback-only.
#[derive(Debug, Clone, Copy, PartialEq, Eq)]
pub struct RollbackOnly;

/// A transaction handle `T` with its rollback-only mark.
pub struct TransactionManager<T> {
    tran: T,
    rollback_only: bool,
}

impl<T> TransactionManager<T> {
    /// The transaction handle held.
    pub closed spec fn held(self) -> T {
        self.tran
    }

    /// Whether the transaction may only be rolled back.
    pub closed spec fn is_rollback_only(self) -> bool {
        self.rollback_only
    }

    /// What committing gives: the handle to commit, or the refusal.
    pub open spec fn commit_result(self) -> Result<T, RollbackOnly> {
        if self.is_rollback_only() {
            Err(RollbackOnly)
        } else {
            Ok(self.held())
        }
    }

    /// Takes charge of a fresh transaction, not marked.
    pub fn new(tran: T) -> (r: Self)
        ensures
            r.held() == tran,
            !r.is_rollback_only(),
    {
        TransactionManager { tran, rollback_only: false }
    }

    /// The transaction handle, to run statements on; the mark stays as it is.
    pub fn transaction(&mut self) -> (r: &mut T)
        ensures
            *r == old(self).held(),
            final(self).held() == *final(r),
            final(self).is_rollback_only() == old(self).is_rollback_only(),
    {
        &mut self.tran
    }

    /// Marks the transaction so that it may only be rolled back.
    pub fn rollback_only(&mut self)
        ensures
            final(self).is_rollback_only(),
            final(self).held() == old(self).held(),
    {
        self.rollback_only = true;
    }

    /// Gives up the transaction for rolling back.
    pub fn rollback(self) -> (r: T)
        ensures
            r == self.held(),
    {
        self.tran
    }

    /// Gives up the transaction for committing, unless it was marked
    /// rollback-only, in which case committing is refused.
    pub fn commit(self) -> (r: Result<T, RollbackOnly>)
        ensures
            r == self.commit_result(),
    {
        if self.rollback_only {
            Err(RollbackOnly)
        } else {
            Ok(self.tran)
        }
    }
}

/// A transaction taken in charge can be committed; once it is marked
/// rollback-only, committing it is refused, and the mark stays whatever else
/// is done to the handle.
pub proof fn lemma_commit_after_mark<T>(fresh: TransactionManager<T>, marked: TransactionManager<T>)
    ensures
        !fresh.is_rollback_only() ==> fresh.commit_result() == Ok::<T, RollbackOnly>(fresh.held()),
        marked.is_rollback_only() ==> marked.commit_result() == Err::<T, RollbackOnly>(RollbackOnly),
{
}

} // verus!
