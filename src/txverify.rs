use vstd::prelude::*;

verus! {

/// Why a transaction was rejected.
#[derive(Clone, Copy, Debug, PartialEq, Eq, Structural)]
pub enum TxError {
    /// A call names a contract whose code the canonical chain does not hold
    MissingContract,
    /// The contract runtime failed on a call's `metadata` or `exec` entry
    RuntimeFailure,
    /// A signature does not verify against the keys the calls reported
    BadSig,
    /// A zero-knowledge proof does not verify against the public inputs the calls reported
    BadZkp,
    /// The runtime failed to apply a state update
    StateApplyFailure,
}

/// What the contract runtime did with one call of a transaction.
#[derive(Clone, Copy, Debug, PartialEq, Eq, Structural)]
pub enum CallOutcome {
    /// The contract's code was not found
    MissingContract,
    /// `metadata` or `exec` failed
    RuntimeFailure,
    /// `metadata` and `exec` ran and produced a state update
    Executed,
}

/// What the runtime and the verifiers reported on one transaction.
#[derive(Clone, Debug)]
pub struct TxReport {
    /// Outcome of each call, in call order
    pub calls: Vec<CallOutcome>,
    /// Whether all signatures verify against the keys the calls reported
    pub signatures_valid: bool,
    /// Whether all proofs verify against the public inputs the calls reported
    pub proofs_valid: bool,
    /// Whether every state update was applied
    pub applied: bool,
}

/// Outcome of the first call that did not execute, if any.
pub open spec fn calls_outcome(cs: Seq<CallOutcome>) -> Result<(), TxError>
    decreases cs.len(),
{
    if cs.len() == 0 {
        Ok(())
    } else {
        match cs[0] {
            CallOutcome::MissingContract => Err(TxError::MissingContract),
            CallOutcome::RuntimeFailure => Err(TxError::RuntimeFailure),
            CallOutcome::Executed => calls_outcome(cs.drop_first()),
        }
    }
}

/// Outcome of verifying one transaction: its calls in order, then its signatures, then
/// its proofs, then the application of its state updates.
pub open spec fn tx_outcome(calls: Seq<CallOutcome>, signatures_valid: bool, proofs_valid: bool, applied: bool) -> Result<(), TxError> {
    if calls_outcome(calls).is_err() {
        calls_outcome(calls)
    } else if !signatures_valid {
        Err(TxError::BadSig)
    } else if !proofs_valid {
        Err(TxError::BadZkp)
    } else if !applied {
        Err(TxError::StateApplyFailure)
    } else {
        Ok(())
    }
}

pub open spec fn report_outcome(r: TxReport) -> Result<(), TxError> {
    tx_outcome(r.calls@, r.signatures_valid, r.proofs_valid, r.applied)
}

/// Outcome of verifying a batch: that of the first transaction that fails, if any.
pub open spec fn batch_outcome(rs: Seq<TxReport>) -> Result<(), TxError>
    decreases rs.len(),
{
    if rs.len() == 0 {
        Ok(())
    } else if report_outcome(rs[0]).is_err() {
        report_outcome(rs[0])
    } else {
        batch_outcome(rs.drop_first())
    }
}

/// Verdict on one transaction from what the runtime reported on it.
pub fn verify_report(r: &TxReport) -> (res: Result<(), TxError>)
    ensures
        res == report_outcome(*r),
{
    let mut i: usize = 0;
    assert(r.calls@.subrange(0, r.calls@.len() as int) =~= r.calls@);
    while i < r.calls.len()
        invariant
            i <= r.calls@.len(),
            calls_outcome(r.calls@) == calls_outcome(r.calls@.subrange(i as int, r.calls@.len() as int)),
        decreases r.calls@.len() - i,
    {
        let ghost rest = r.calls@.subrange(i as int, r.calls@.len() as int);
        assert(rest.drop_first() =~= r.calls@.subrange(i + 1, r.calls@.len() as int));
        match r.calls[i] {
            CallOutcome::MissingContract => return Err(TxError::MissingContract),
            CallOutcome::RuntimeFailure => return Err(TxError::RuntimeFailure),
            CallOutcome::Executed => {},
        }
        i = i + 1;
    }
    assert(r.calls@.subrange(i as int, r.calls@.len() as int).len() == 0);
    if !r.signatures_valid {
        Err(TxError::BadSig)
    } else if !r.proofs_valid {
        Err(TxError::BadZkp)
    } else if !r.applied {
        Err(TxError::StateApplyFailure)
    } else {
        Ok(())
    }
}

/// Verdict on a batch of transactions, checked in order; the first failure ends it.
pub fn verify_reports(rs: &Vec<TxReport>) -> (res: Result<(), TxError>)
    ensures
        res == batch_outcome(rs@),
{
    let mut i: usize = 0;
    assert(rs@.subrange(0, rs@.len() as int) =~= rs@);
    while i < rs.len()
        invariant
            i <= rs@.len(),
            batch_outcome(rs@) == batch_outcome(rs@.subrange(i as int, rs@.len() as int)),
        decreases rs@.len() - i,
    {
        let ghost rest = rs@.subrange(i as int, rs@.len() as int);
        assert(rest.drop_first() =~= rs@.subrange(i + 1, rs@.len() as int));
        let v = verify_report(&rs[i]);
        if v.is_err() {
            return v;
        }
        i = i + 1;
    }
    assert(rs@.subrange(i as int, rs@.len() as int).len() == 0);
    Ok(())
}

/// Verifying the same reports twice gives the same verdict.
pub proof fn lemma_verify_deterministic(a: Seq<TxReport>, b: Seq<TxReport>)
    requires
        a == b,
    ensures
        batch_outcome(a) == batch_outcome(b),
{
}

} // verus!
