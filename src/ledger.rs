//! The quorum ledger: a fixed approver set, a threshold, and the approvals
//! gathered so far for the one proposal that is in flight.

use vstd::prelude::*;
use crate::bytes::bytes_equal;
use crate::error::GateError;

verus! {

/// An identity allowed to approve administrative operations: its public key.
#[derive(Clone, Copy, Debug, PartialEq, Eq)]
pub struct Approver {
    pub key: [u8; 32],
}

impl View for Approver {
    type V = Seq<u8>;

    open spec fn view(&self) -> Seq<u8> {
        self.key@
    }
}

/// The keys of a list of approvers, in order.
pub open spec fn keys_of(list: Seq<Approver>) -> Seq<Seq<u8>> {
    list.map_values(|a: Approver| a@)
}

/// Position of `who` in `list`, if it is there.
pub fn index_of(list: &Vec<Approver>, who: &Approver) -> (r: Option<usize>)
    ensures
        match r {
            Some(i) => i < list@.len() && keys_of(list@)[i as int] == who@,
            None => !keys_of(list@).contains(who@),
        },
{
    let mut i: usize = 0;
    while i < list.len()
        invariant
            i <= list@.len(),
            forall|j: int| 0 <= j < i ==> keys_of(list@)[j] != who@,
        decreases list@.len() - i,
    {
        if bytes_equal(list[i].key.as_slice(), who.key.as_slice()) {
            return Some(i);
        }
        i = i + 1;
    }
    None
}

/// What a ledger holds, as mathematical values.
pub struct LedgerView {
    /// Keys of the approvers.
    pub approvers: Seq<Seq<u8>>,
    /// Approvals needed for a proposal to take effect.
    pub threshold: nat,
    /// Fingerprint of the proposal in flight, if any.
    pub pending: Option<Seq<u8>>,
    /// Keys of the approvers who signed the pending proposal, in signing order.
    pub signers: Seq<Seq<u8>>,
}

impl LedgerView {
    pub open spec fn is_approver(self, who: Seq<u8>) -> bool {
        self.approvers.contains(who)
    }

    /// The ledger at rest: a valid configuration and fewer signers than the
    /// threshold, all of them distinct approvers of a pending proposal.
    pub open spec fn wf(self) -> bool {
        &&& 1 <= self.threshold <= self.approvers.len()
        &&& self.threshold <= usize::MAX
        &&& self.approvers.no_duplicates()
        &&& self.signers.no_duplicates()
        &&& forall|i: int| 0 <= i < self.signers.len() ==> self.approvers.contains(#[trigger] self.signers[i])
        &&& self.signers.len() < self.threshold
        &&& self.pending is None ==> self.signers.len() == 0
    }

    /// Nothing is in flight.
    pub open spec fn is_idle(self) -> bool {
        self.pending is None && self.signers.len() == 0
    }

    /// Signers of `fp` once `who` has approved it, before any reset: a new
    /// fingerprint starts from nobody, and a signer is never counted twice.
    pub open spec fn signers_after(self, who: Seq<u8>, fp: Seq<u8>) -> Seq<Seq<u8>> {
        let base = if self.pending == Some(fp) { self.signers } else { Seq::empty() };
        if base.contains(who) { base } else { base.push(who) }
    }

    /// Approvals still missing once `who` has approved `fp`; 0 means quorum.
    pub open spec fn remaining_after(self, who: Seq<u8>, fp: Seq<u8>) -> nat {
        let n = self.signers_after(who, fp).len();
        if n >= self.threshold { 0 } else { (self.threshold - n) as nat }
    }

    /// What an approval of `fp` by `who` returns.
    pub open spec fn approval_result(self, who: Seq<u8>, fp: Seq<u8>) -> Result<nat, GateError> {
        if !self.is_approver(who) {
            Err(GateError::UnauthorizedApprover)
        } else {
            Ok(self.remaining_after(who, fp))
        }
    }

    /// The ledger after an approval of `fp` by `who`: unchanged for a stranger,
    /// reset once quorum is reached, else holding the new signer set.
    pub open spec fn approve(self, who: Seq<u8>, fp: Seq<u8>) -> LedgerView {
        if !self.is_approver(who) {
            self
        } else if self.remaining_after(who, fp) == 0 {
            LedgerView { pending: None, signers: Seq::empty(), ..self }
        } else {
            LedgerView { pending: Some(fp), signers: self.signers_after(who, fp), ..self }
        }
    }
}

/// The result of an approval with its count as a mathematical integer.
pub open spec fn count_view(r: Result<usize, GateError>) -> Result<nat, GateError> {
    match r {
        Ok(n) => Ok(n as nat),
        Err(e) => Err(e),
    }
}

/// Approver set, threshold, and the approvals gathered for the proposal in
/// flight.
pub struct QuorumLedger {
    approvers: Vec<Approver>,
    threshold: usize,
    pending: Option<Vec<u8>>,
    signers: Vec<Approver>,
}

impl View for QuorumLedger {
    type V = LedgerView;

    closed spec fn view(&self) -> LedgerView {
        LedgerView {
            approvers: keys_of(self.approvers@),
            threshold: self.threshold as nat,
            pending: match self.pending {
                Some(p) => Some(p@),
                None => None,
            },
            signers: keys_of(self.signers@),
        }
    }
}

/// `true` when no two approvers in `list` share a key.
fn all_distinct(list: &Vec<Approver>) -> (r: bool)
    ensures
        r == keys_of(list@).no_duplicates(),
{
    let mut i: usize = 0;
    while i < list.len()
        invariant
            i <= list@.len(),
            forall|j: int, k: int| 0 <= j < k < i ==> keys_of(list@)[j] != keys_of(list@)[k],
        decreases list@.len() - i,
    {
        let mut j: usize = 0;
        while j < i
            invariant
                i < list@.len(),
                j <= i,
                forall|j2: int, k: int| 0 <= j2 < k < i ==> keys_of(list@)[j2] != keys_of(list@)[k],
                forall|j2: int| 0 <= j2 < j ==> keys_of(list@)[j2] != keys_of(list@)[i as int],
            decreases i - j,
        {
            if bytes_equal(list[j].key.as_slice(), list[i].key.as_slice()) {
                assert(keys_of(list@)[j as int] == keys_of(list@)[i as int]);
                return false;
            }
            j = j + 1;
        }
        i = i + 1;
    }
    true
}

impl QuorumLedger {
    pub open spec fn wf(&self) -> bool {
        self@.wf()
    }

    /// A ledger with nothing in flight. `None` unless
    /// `1 <= threshold <= approvers.len()` and the keys are distinct.
    pub fn new(approvers: Vec<Approver>, threshold: usize) -> (r: Option<QuorumLedger>)
        ensures
            r is Some <==> (1 <= threshold <= approvers@.len() && keys_of(approvers@).no_duplicates()),
            r matches Some(l) ==> l.wf() && l@.is_idle() && l@.approvers == keys_of(approvers@)
                && l@.threshold == threshold,
    {
        if threshold < 1 || threshold > approvers.len() || !all_distinct(&approvers) {
            return None;
        }
        let l = QuorumLedger { approvers, threshold, pending: None, signers: Vec::new() };
        assert(l@.signers =~= Seq::<Seq<u8>>::empty());
        Some(l)
    }

    /// Approvals needed for a proposal to take effect.
    pub fn threshold(&self) -> (r: usize)
        ensures
            r == self@.threshold,
    {
        self.threshold
    }

    /// Fingerprint of the proposal in flight, if any.
    pub fn pending_fingerprint(&self) -> (r: Option<&Vec<u8>>)
        ensures
            match r {
                Some(p) => self@.pending == Some(p@),
                None => self@.pending is None,
            },
    {
        self.pending.as_ref()
    }

    /// How many approvers signed the proposal in flight.
    pub fn pending_count(&self) -> (r: usize)
        ensures
            r == self@.signers.len(),
    {
        self.signers.len()
    }

    /// `true` when `who` signed the proposal in flight.
    pub fn has_signed(&self, who: &Approver) -> (r: bool)
        ensures
            r == self@.signers.contains(who@),
    {
        index_of(&self.signers, who).is_some()
    }

    /// `true` when the pending fingerprint is `fp`.
    fn is_pending(&self, fp: &Vec<u8>) -> (r: bool)
        ensures
            r == (self@.pending == Some(fp@)),
    {
        match &self.pending {
            Some(p) => bytes_equal(p.as_slice(), fp.as_slice()),
            None => false,
        }
    }

    /// What [`Self::record_approval`] would return for `who` approving `fp`,
    /// without recording anything.
    pub fn approval_result(&self, who: &Approver, fp: &Vec<u8>) -> (r: Result<usize, GateError>)
        requires
            self.wf(),
        ensures
            count_view(r) == self@.approval_result(who@, fp@),
    {
        if index_of(&self.approvers, who).is_none() {
            return Err(GateError::UnauthorizedApprover);
        }
        let same = self.is_pending(fp);
        let n: usize = if !same {
            1
        } else if index_of(&self.signers, who).is_some() {
            self.signers.len()
        } else {
            self.signers.len() + 1
        };
        proof {
            let v = self@;
            if !same {
                assert(!Seq::<Seq<u8>>::empty().contains(who@));
            }
            assert(v.signers_after(who@, fp@).len() == n);
        }
        if n >= self.threshold {
            Ok(0)
        } else {
            Ok(self.threshold - n)
        }
    }

    /// Records that `who` approves the proposal with fingerprint `fp`.
    ///
    /// A stranger is refused and nothing changes. A fingerprint other than
    /// the pending one starts a new round, dropping earlier approvals; a
    /// repeated approval counts once. Returns the approvals still missing;
    /// on 0 the quorum is reached and the ledger is back at rest.
    pub fn record_approval(&mut self, who: &Approver, fp: Vec<u8>) -> (r: Result<usize, GateError>)
        requires
            old(self).wf(),
        ensures
            final(self).wf(),
            final(self)@ == old(self)@.approve(who@, fp@),
            count_view(r) == old(self)@.approval_result(who@, fp@),
    {
        let ghost v0 = self@;
        if index_of(&self.approvers, who).is_none() {
            return Err(GateError::UnauthorizedApprover);
        }
        if !self.is_pending(&fp) {
            self.pending = Some(fp);
            self.signers = Vec::new();
            assert(self@.signers =~= Seq::<Seq<u8>>::empty());
        }
        assert(self@.signers == (if v0.pending == Some(fp@) { v0.signers } else { Seq::empty() }));
        if index_of(&self.signers, who).is_none() {
            let ghost before = self.signers@;
            self.signers.push(*who);
            assert(keys_of(self.signers@) =~= keys_of(before).push(who@));
        }
        assert(self@.signers == v0.signers_after(who@, fp@));
        if self.signers.len() >= self.threshold {
            self.pending = None;
            self.signers = Vec::new();
            assert(self@.signers =~= Seq::<Seq<u8>>::empty());
            assert(self@ == v0.approve(who@, fp@));
            Ok(0)
        } else {
            assert(self@ == v0.approve(who@, fp@));
            Ok(self.threshold - self.signers.len())
        }
    }
}

} // verus!
