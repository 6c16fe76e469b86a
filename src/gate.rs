//! The action gate: binds an approval to the exact operation proposed and
//! lets it take effect once, on the approval that reaches quorum.

use vstd::prelude::*;
use crate::bytes::append;
use crate::error::GateError;
use crate::ledger::{count_view, Approver, LedgerView, QuorumLedger};

verus! {

/// Which administrative operation a proposal is for.
#[derive(Clone, Copy, Debug, PartialEq, Eq, Structural)]
pub enum AdminInstruction {
    SetAdminSigners,
    SetFees,
    SetPermissions,
}

impl AdminInstruction {
    /// The byte that identifies the operation in instruction data.
    pub open spec fn spec_tag(self) -> u8 {
        match self {
            AdminInstruction::SetAdminSigners => 0,
            AdminInstruction::SetFees => 1,
            AdminInstruction::SetPermissions => 2,
        }
    }

    pub fn tag(&self) -> (r: u8)
        ensures
            r == self.spec_tag(),
    {
        match self {
            AdminInstruction::SetAdminSigners => 0,
            AdminInstruction::SetFees => 1,
            AdminInstruction::SetPermissions => 2,
        }
    }
}

/// What a proposal is fingerprinted by: the operation's tag followed by the
/// encoded payload. Distinct proposals have distinct fingerprints.
pub open spec fn instruction_data_of(kind: AdminInstruction, payload: Seq<u8>) -> Seq<u8> {
    seq![kind.spec_tag()] + payload
}

/// The fingerprint of proposing `kind` with the encoded `payload`.
pub fn instruction_data(kind: AdminInstruction, payload: &Vec<u8>) -> (r: Vec<u8>)
    ensures
        r@ == instruction_data_of(kind, payload@),
{
    let mut r: Vec<u8> = Vec::new();
    r.push(kind.tag());
    append(&mut r, payload);
    assert(r@ =~= instruction_data_of(kind, payload@));
    r
}

/// How a submission that was not refused ended.
#[derive(Clone, Copy, Debug, PartialEq, Eq, Structural)]
pub enum Outcome {
    /// Quorum was reached and the operation took effect.
    Executed,
    /// The approval was recorded; this many more are needed.
    Pending(usize),
}

/// What a submission returns, given the ledger before it and whether the
/// state the operation would produce is valid.
pub open spec fn gate_result(l: LedgerView, who: Seq<u8>, fp: Seq<u8>, valid: bool) -> Result<Outcome, GateError> {
    match l.approval_result(who, fp) {
        Err(e) => Err(e),
        Ok(n) => if n > 0 {
            Ok(Outcome::Pending(n as usize))
        } else if valid {
            Ok(Outcome::Executed)
        } else {
            Err(GateError::InvalidResultingState)
        },
    }
}

/// The ledger after a submission: untouched when it was refused.
pub open spec fn gate_ledger(l: LedgerView, who: Seq<u8>, fp: Seq<u8>, valid: bool) -> LedgerView {
    if gate_result(l, who, fp, valid) is Ok {
        l.approve(who, fp)
    } else {
        l
    }
}

/// Submits `who`'s approval of the proposal fingerprinted by `fp`.
///
/// `valid` is the verdict of the operation's validator on the state the
/// operation would produce. It matters only on the approval that reaches
/// quorum: the operation may then take effect (`Executed`), or, when the
/// state would be invalid, the call fails with `InvalidResultingState` and
/// the ledger keeps the approvals gathered before it. The caller applies the
/// operation exactly when `Executed` comes back.
pub fn authorize(ledger: &mut QuorumLedger, who: &Approver, fp: Vec<u8>, valid: bool) -> (r: Result<Outcome, GateError>)
    requires
        old(ledger).wf(),
    ensures
        final(ledger).wf(),
        r == gate_result(old(ledger)@, who@, fp@, valid),
        final(ledger)@ == gate_ledger(old(ledger)@, who@, fp@, valid),
{
    match ledger.approval_result(who, &fp) {
        Err(e) => Err(e),
        Ok(n) => {
            if n == 0 && !valid {
                return Err(GateError::InvalidResultingState);
            }
            let m = ledger.record_approval(who, fp);
            assert(count_view(m) == count_view(Ok::<usize, GateError>(n)));
            if n > 0 {
                Ok(Outcome::Pending(n))
            } else {
                Ok(Outcome::Executed)
            }
        },
    }
}

/// The ledger after each of `who`, in order, submits the proposal `fp`
/// whose resulting state is valid.
pub open spec fn submit_all(l: LedgerView, who: Seq<Seq<u8>>, fp: Seq<u8>) -> LedgerView
    decreases who.len(),
{
    if who.len() == 0 {
        l
    } else {
        gate_ledger(submit_all(l, who.drop_last(), fp), who.last(), fp, true)
    }
}

/// Fewer than `threshold` distinct approvers submitting one proposal on an
/// idle ledger leave exactly them as its signers.
proof fn lemma_submissions_accumulate(l: LedgerView, who: Seq<Seq<u8>>, fp: Seq<u8>)
    requires
        l.wf(),
        l.is_idle(),
        who.no_duplicates(),
        who.len() < l.threshold,
        forall|i: int| 0 <= i < who.len() ==> l.is_approver(#[trigger] who[i]),
    ensures
        submit_all(l, who, fp) == (if who.len() == 0 { l } else { LedgerView { pending: Some(fp), signers: who, ..l } }),
    decreases who.len(),
{
    if who.len() > 0 {
        let prev = who.drop_last();
        assert forall|i: int| 0 <= i < prev.len() implies l.is_approver(#[trigger] prev[i]) by {
            assert(prev[i] == who[i]);
        }
        lemma_submissions_accumulate(l, prev, fp);
        let last = who.last();
        assert(l.is_approver(who[who.len() - 1]));
        assert(!prev.contains(last)) by {
            if prev.contains(last) {
                let j = choose|j: int| 0 <= j < prev.len() && prev[j] == last;
                assert(who[j] == who[who.len() - 1]);
            }
        }
        assert(prev.push(last) =~= who);
        if prev.len() == 0 {
            assert(Seq::<Seq<u8>>::empty().push(last) =~= who);
        }
    }
}

/// Once `threshold` distinct approvers submit one proposal in turn on an idle
/// ledger, and the state it produces is valid, every submission but the last
/// is pending with the approvals still missing, the last one executes, and the
/// ledger ends idle.
pub proof fn lemma_quorum_executes_on_threshold(l: LedgerView, who: Seq<Seq<u8>>, fp: Seq<u8>)
    requires
        l.wf(),
        l.is_idle(),
        who.no_duplicates(),
        who.len() == l.threshold,
        forall|i: int| 0 <= i < who.len() ==> l.is_approver(#[trigger] who[i]),
    ensures
        forall|k: int| 0 <= k < who.len() ==> #[trigger] gate_result(submit_all(l, who.take(k), fp), who[k], fp, true)
            == if k + 1 == who.len() {
                Ok::<Outcome, GateError>(Outcome::Executed)
            } else {
                Ok::<Outcome, GateError>(Outcome::Pending((who.len() - k - 1) as usize))
            },
        submit_all(l, who, fp) == l,
{
    assert forall|k: int| 0 <= k < who.len() implies #[trigger] gate_result(submit_all(l, who.take(k), fp), who[k], fp, true)
        == if k + 1 == who.len() {
            Ok::<Outcome, GateError>(Outcome::Executed)
        } else {
            Ok::<Outcome, GateError>(Outcome::Pending((who.len() - k - 1) as usize))
        } by {
        let pre = who.take(k);
        assert forall|i: int| 0 <= i < pre.len() implies l.is_approver(#[trigger] pre[i]) by {
            assert(pre[i] == who[i]);
        }
        assert forall|i: int, j: int| 0 <= i < pre.len() && 0 <= j < pre.len() && i != j implies pre[i] != pre[j] by {
            assert(pre[i] == who[i] && pre[j] == who[j]);
        }
        lemma_submissions_accumulate(l, pre, fp);
        assert(!pre.contains(who[k])) by {
            if pre.contains(who[k]) {
                let j = choose|j: int| 0 <= j < pre.len() && pre[j] == who[k];
                assert(who[j] == who[k]);
            }
        }
        assert(l.is_approver(who[k]));
        if k == 0 {
            assert(!Seq::<Seq<u8>>::empty().contains(who[k]));
        }
    }
    let last = who.len() - 1;
    assert(who.drop_last() =~= who.take(last));
    let pre = who.take(last);
    assert forall|i: int| 0 <= i < pre.len() implies l.is_approver(#[trigger] pre[i]) by {
        assert(pre[i] == who[i]);
    }
    assert forall|i: int, j: int| 0 <= i < pre.len() && 0 <= j < pre.len() && i != j implies pre[i] != pre[j] by {
        assert(pre[i] == who[i] && pre[j] == who[j]);
    }
    lemma_submissions_accumulate(l, pre, fp);
    let prev = submit_all(l, pre, fp);
    assert(gate_result(prev, who[last], fp, true) == Ok::<Outcome, GateError>(Outcome::Executed));
    assert(submit_all(l, who, fp) == gate_ledger(prev, who[last], fp, true));
    assert(l.signers =~= Seq::<Seq<u8>>::empty());
}

/// Submitting the same approval again before quorum returns the same count
/// and changes nothing.
pub proof fn lemma_repeated_approval_is_idempotent(l: LedgerView, who: Seq<u8>, fp: Seq<u8>, valid: bool)
    requires
        l.wf(),
        l.is_approver(who),
        l.remaining_after(who, fp) > 0,
    ensures
        ({
            let l1 = gate_ledger(l, who, fp, valid);
            &&& gate_result(l1, who, fp, valid) == gate_result(l, who, fp, valid)
            &&& gate_ledger(l1, who, fp, valid) == l1
        }),
{
    let l1 = gate_ledger(l, who, fp, valid);
    let base = if l.pending == Some(fp) { l.signers } else { Seq::empty() };
    assert(base.push(who).contains(who)) by {
        assert(base.push(who)[base.len() as int] == who);
    }
    assert(l1.signers.contains(who));
}

/// A proposal other than the pending one, by kind or by any byte of its
/// payload, starts a new round in which its submitter is the only signer.
pub proof fn lemma_changed_proposal_resets_approvals(
    l: LedgerView,
    who: Seq<u8>,
    k1: AdminInstruction,
    p1: Seq<u8>,
    k2: AdminInstruction,
    p2: Seq<u8>,
    valid: bool,
)
    requires
        l.wf(),
        l.pending == Some(instruction_data_of(k1, p1)),
        k1 != k2 || p1 != p2,
        l.is_approver(who),
        l.threshold > 1,
    ensures
        ({
            let l1 = gate_ledger(l, who, instruction_data_of(k2, p2), valid);
            &&& l1.pending == Some(instruction_data_of(k2, p2))
            &&& l1.signers == seq![who]
        }),
{
    let d1 = instruction_data_of(k1, p1);
    let d2 = instruction_data_of(k2, p2);
    assert(d1 != d2) by {
        if d1 == d2 {
            assert(d1[0] == k1.spec_tag() && d2[0] == k2.spec_tag());
            assert(d1.subrange(1, d1.len() as int) =~= p1);
            assert(d2.subrange(1, d2.len() as int) =~= p2);
        }
    }
    assert(!Seq::<Seq<u8>>::empty().contains(who));
    assert(Seq::<Seq<u8>>::empty().push(who) =~= seq![who]);
}

/// A submission by someone outside the approver set is refused and leaves
/// the ledger as it was.
pub proof fn lemma_stranger_is_refused(l: LedgerView, who: Seq<u8>, fp: Seq<u8>, valid: bool)
    requires
        !l.is_approver(who),
    ensures
        gate_result(l, who, fp, valid) == Err::<Outcome, GateError>(GateError::UnauthorizedApprover),
        gate_ledger(l, who, fp, valid) == l,
{
}

/// Once a submission executes, nothing is pending.
pub proof fn lemma_executed_leaves_ledger_idle(l: LedgerView, who: Seq<u8>, fp: Seq<u8>, valid: bool)
    requires
        gate_result(l, who, fp, valid) == Ok::<Outcome, GateError>(Outcome::Executed),
    ensures
        gate_ledger(l, who, fp, valid).is_idle(),
{
}

} // verus!
