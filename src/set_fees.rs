//! The fee-schedule update, gated by the quorum of administrators.

use vstd::prelude::*;
use crate::error::GateError;
use crate::fees::{fee_bytes, write_fee, Fee, Fees, Launchpad};
use crate::gate::{authorize, gate_ledger, gate_result, instruction_data, instruction_data_of, AdminInstruction, Outcome};
use crate::ledger::{Approver, QuorumLedger};

verus! {

/// The state a fee update reads and writes: who submits it, the
/// administrators' ledger, and the launchpad configuration.
pub struct SetFees {
    pub admin: Approver,
    pub multisig: QuorumLedger,
    pub launchpad: Launchpad,
}

/// The proposed fee schedule.
#[derive(Clone, Copy, Debug, PartialEq, Eq, Structural)]
pub struct SetFeesParams {
    pub new_auction_fee: Fee,
    pub auction_update_fee: Fee,
    pub invalid_bid_fee: Fee,
    pub trade_fee: Fee,
}

/// Encoding of the proposed fees, field by field.
pub open spec fn params_bytes(p: SetFeesParams) -> Seq<u8> {
    fee_bytes(p.new_auction_fee) + fee_bytes(p.auction_update_fee) + fee_bytes(p.invalid_bid_fee)
        + fee_bytes(p.trade_fee)
}

/// The fingerprint of proposing the fees `p`.
pub open spec fn set_fees_fingerprint(p: SetFeesParams) -> Seq<u8> {
    instruction_data_of(AdminInstruction::SetFees, params_bytes(p))
}

impl SetFeesParams {
    /// The fee schedule these parameters install.
    pub open spec fn spec_fees(self) -> Fees {
        Fees {
            new_auction: self.new_auction_fee,
            auction_update: self.auction_update_fee,
            invalid_bid: self.invalid_bid_fee,
            trade: self.trade_fee,
        }
    }

    pub fn fees(&self) -> (r: Fees)
        ensures
            r == self.spec_fees(),
    {
        Fees {
            new_auction: self.new_auction_fee,
            auction_update: self.auction_update_fee,
            invalid_bid: self.invalid_bid_fee,
            trade: self.trade_fee,
        }
    }

    /// The encoded parameters. Fixed-width integers always encode, so this
    /// is always `Ok`; the `Result` keeps the shape of an encoder.
    pub fn try_to_vec(&self) -> (r: Result<Vec<u8>, GateError>)
        ensures
            match r {
                Ok(v) => v@ == params_bytes(*self),
                Err(e) => false,
            },
    {
        let mut out: Vec<u8> = Vec::new();
        write_fee(&self.new_auction_fee, &mut out);
        write_fee(&self.auction_update_fee, &mut out);
        write_fee(&self.invalid_bid_fee, &mut out);
        write_fee(&self.trade_fee, &mut out);
        assert(out@ =~= params_bytes(*self));
        Ok(out)
    }
}

/// The launchpad with the fees `p` installed.
pub open spec fn installed(lp: Launchpad, p: SetFeesParams) -> Launchpad {
    Launchpad { fees: p.spec_fees(), ..lp }
}

/// What a submission of `p`, fingerprinted by `fp`, returns from the state `ctx`.
pub open spec fn submission_result(ctx: SetFees, p: SetFeesParams, fp: Seq<u8>) -> Result<Outcome, GateError> {
    gate_result(ctx.multisig@, ctx.admin@, fp, installed(ctx.launchpad, p).spec_validate())
}

/// `after` is what a submission of `p`, fingerprinted by `fp`, with outcome
/// `r`, leaves of `before`: the ledger is as `gate_ledger` states, and the fees
/// are installed exactly when the submission executed.
pub open spec fn submitted(before: SetFees, after: SetFees, p: SetFeesParams, fp: Seq<u8>, r: Result<Outcome, GateError>) -> bool {
    &&& after.multisig.wf()
    &&& after.admin == before.admin
    &&& after.multisig@ == gate_ledger(before.multisig@, before.admin@, fp, installed(before.launchpad, p).spec_validate())
    &&& after.launchpad == if r == Ok::<Outcome, GateError>(Outcome::Executed) {
        installed(before.launchpad, p)
    } else {
        before.launchpad
    }
}

/// `admin` approves installing the fees `params`, whose encoding is
/// `payload`; the proposal is fingerprinted by that encoding.
pub fn set_fees_encoded(ctx: &mut SetFees, params: &SetFeesParams, payload: &Vec<u8>) -> (r: Result<Outcome, GateError>)
    requires
        old(ctx).multisig.wf(),
    ensures
        r == submission_result(*old(ctx), *params, instruction_data_of(AdminInstruction::SetFees, payload@)),
        submitted(*old(ctx), *final(ctx), *params, instruction_data_of(AdminInstruction::SetFees, payload@), r),
{
    let fp = instruction_data(AdminInstruction::SetFees, payload);
    let candidate = Launchpad { fees: params.fees(), ..ctx.launchpad };
    let valid = candidate.validate();
    let r = authorize(&mut ctx.multisig, &ctx.admin, fp, valid);
    if let Ok(Outcome::Executed) = r {
        ctx.launchpad = candidate;
    }
    r
}

/// `admin` approves installing the fees `params`.
///
/// Returns `Pending(n)` while `n` more approvals are needed. On the approval
/// that reaches quorum the fees take effect and `Executed` comes back, unless
/// the resulting configuration is invalid: then `InvalidResultingState`, and
/// nothing changes. A stranger gets `UnauthorizedApprover` and changes
/// nothing. The parameters always encode, so `SerializationFailure` never
/// comes back.
pub fn set_fees(ctx: &mut SetFees, params: &SetFeesParams) -> (r: Result<Outcome, GateError>)
    requires
        old(ctx).multisig.wf(),
    ensures
        r != Err::<Outcome, GateError>(GateError::SerializationFailure),
        r == submission_result(*old(ctx), *params, set_fees_fingerprint(*params)),
        submitted(*old(ctx), *final(ctx), *params, set_fees_fingerprint(*params), r),
{
    match params.try_to_vec() {
        Ok(payload) => set_fees_encoded(ctx, params, &payload),
        Err(e) => Err(e),
    }
}

} // verus!
