use launchpad::error::GateError;
use launchpad::fees::{Fee, Fees, Launchpad};
use launchpad::gate::{authorize, instruction_data, AdminInstruction, Outcome};
use launchpad::ledger::{Approver, QuorumLedger};
use launchpad::set_fees::{set_fees, set_fees_encoded, SetFees, SetFeesParams};

fn approver(b: u8) -> Approver {
    Approver { key: [b; 32] }
}

fn zero_fee() -> Fee {
    Fee { numerator: 0, denominator: 1 }
}

fn params_with_trade(trade: u64) -> SetFeesParams {
    SetFeesParams {
        new_auction_fee: zero_fee(),
        auction_update_fee: zero_fee(),
        invalid_bid_fee: zero_fee(),
        trade_fee: Fee { numerator: trade, denominator: 10_000 },
    }
}

fn context(n: u8, threshold: usize) -> SetFees {
    let approvers: Vec<Approver> = (1..=n).map(approver).collect();
    let multisig = QuorumLedger::new(approvers, threshold).unwrap();
    let fees = Fees {
        new_auction: zero_fee(),
        auction_update: zero_fee(),
        invalid_bid: zero_fee(),
        trade: zero_fee(),
    };
    SetFees { admin: approver(1), multisig, launchpad: Launchpad { fees } }
}

fn submit(ctx: &mut SetFees, who: u8, params: &SetFeesParams) -> Result<Outcome, GateError> {
    ctx.admin = approver(who);
    set_fees(ctx, params)
}

#[test]
fn two_of_three_fee_update() {
    let mut ctx = context(3, 2);
    let p = params_with_trade(50);
    assert_eq!(submit(&mut ctx, 1, &p), Ok(Outcome::Pending(1)));
    assert_eq!(ctx.launchpad.fees.trade, zero_fee());
    assert_eq!(submit(&mut ctx, 2, &p), Ok(Outcome::Executed));
    assert_eq!(ctx.launchpad.fees.trade, Fee { numerator: 50, denominator: 10_000 });
    assert_eq!(submit(&mut ctx, 3, &p), Ok(Outcome::Pending(1)));
}

#[test]
fn different_payload_starts_new_round() {
    let mut ctx = context(3, 2);
    assert_eq!(submit(&mut ctx, 1, &params_with_trade(50)), Ok(Outcome::Pending(1)));
    assert_eq!(submit(&mut ctx, 2, &params_with_trade(60)), Ok(Outcome::Pending(1)));
    assert_eq!(ctx.multisig.pending_count(), 1);
    assert!(ctx.multisig.has_signed(&approver(2)));
    assert!(!ctx.multisig.has_signed(&approver(1)));
    assert_eq!(ctx.launchpad.fees.trade, zero_fee());
}

#[test]
fn executes_exactly_on_threshold() {
    for n in 1u8..=5 {
        for t in 1..=(n as usize) {
            let mut ctx = context(n, t);
            let p = params_with_trade(25);
            for k in 1..=t {
                let r = submit(&mut ctx, k as u8, &p);
                if k == t {
                    assert_eq!(r, Ok(Outcome::Executed));
                } else {
                    assert_eq!(r, Ok(Outcome::Pending(t - k)));
                }
            }
            assert_eq!(ctx.launchpad.fees.trade.numerator, 25);
        }
    }
}

#[test]
fn repeated_approval_does_not_count_twice() {
    let mut ctx = context(3, 3);
    let p = params_with_trade(50);
    assert_eq!(submit(&mut ctx, 1, &p), Ok(Outcome::Pending(2)));
    assert_eq!(submit(&mut ctx, 1, &p), Ok(Outcome::Pending(2)));
    assert_eq!(ctx.multisig.pending_count(), 1);
    assert_eq!(submit(&mut ctx, 2, &p), Ok(Outcome::Pending(1)));
    assert_eq!(submit(&mut ctx, 2, &p), Ok(Outcome::Pending(1)));
    assert_eq!(submit(&mut ctx, 3, &p), Ok(Outcome::Executed));
}

#[test]
fn changed_byte_resets_approvals() {
    let mut ctx = context(3, 3);
    assert_eq!(submit(&mut ctx, 1, &params_with_trade(50)), Ok(Outcome::Pending(2)));
    assert_eq!(submit(&mut ctx, 2, &params_with_trade(50)), Ok(Outcome::Pending(1)));
    assert_eq!(submit(&mut ctx, 1, &params_with_trade(51)), Ok(Outcome::Pending(2)));
    assert_eq!(ctx.multisig.pending_count(), 1);
    assert!(ctx.multisig.has_signed(&approver(1)));
    assert!(!ctx.multisig.has_signed(&approver(2)));
}

#[test]
fn stranger_is_refused() {
    let mut ctx = context(3, 3);
    let p = params_with_trade(50);
    assert_eq!(submit(&mut ctx, 1, &p), Ok(Outcome::Pending(2)));
    assert_eq!(submit(&mut ctx, 9, &p), Err(GateError::UnauthorizedApprover));
    assert_eq!(submit(&mut ctx, 9, &params_with_trade(7)), Err(GateError::UnauthorizedApprover));
    assert_eq!(ctx.multisig.pending_count(), 1);
    assert!(ctx.multisig.has_signed(&approver(1)));
}

#[test]
fn executed_leaves_ledger_idle() {
    let mut ctx = context(2, 2);
    let p = params_with_trade(50);
    submit(&mut ctx, 1, &p).unwrap();
    assert!(ctx.multisig.pending_fingerprint().is_some());
    assert_eq!(submit(&mut ctx, 2, &p), Ok(Outcome::Executed));
    assert!(ctx.multisig.pending_fingerprint().is_none());
    assert_eq!(ctx.multisig.pending_count(), 0);
}

#[test]
fn single_approver_threshold_executes_at_once() {
    let mut ctx = context(1, 1);
    assert_eq!(submit(&mut ctx, 1, &params_with_trade(10)), Ok(Outcome::Executed));
    assert_eq!(ctx.launchpad.fees.trade.numerator, 10);
    assert!(ctx.multisig.pending_fingerprint().is_none());
}

#[test]
fn invalid_fees_refused_without_change() {
    let mut ctx = context(3, 2);
    let bad = params_with_trade(20_000);
    assert_eq!(submit(&mut ctx, 1, &bad), Ok(Outcome::Pending(1)));
    assert_eq!(submit(&mut ctx, 2, &bad), Err(GateError::InvalidResultingState));
    assert_eq!(ctx.launchpad.fees.trade, zero_fee());
    assert_eq!(ctx.multisig.pending_count(), 1);
    assert!(ctx.multisig.has_signed(&approver(1)));
    let good = params_with_trade(100);
    assert_eq!(submit(&mut ctx, 2, &good), Ok(Outcome::Pending(1)));
    assert_eq!(submit(&mut ctx, 1, &good), Ok(Outcome::Executed));
    assert_eq!(ctx.launchpad.fees.trade.numerator, 100);
}

#[test]
fn ledger_configuration_is_checked() {
    assert!(QuorumLedger::new(vec![approver(1), approver(2)], 0).is_none());
    assert!(QuorumLedger::new(vec![approver(1), approver(2)], 3).is_none());
    assert!(QuorumLedger::new(vec![approver(1), approver(1)], 1).is_none());
    assert!(QuorumLedger::new(Vec::new(), 1).is_none());
    let l = QuorumLedger::new(vec![approver(1), approver(2)], 2).unwrap();
    assert_eq!(l.threshold(), 2);
    assert_eq!(l.pending_count(), 0);
}

#[test]
fn record_approval_counts_down() {
    let mut l = QuorumLedger::new(vec![approver(1), approver(2), approver(3)], 2).unwrap();
    let fp = vec![1u8, 2, 3];
    assert_eq!(l.approval_result(&approver(1), &fp), Ok(1));
    assert_eq!(l.record_approval(&approver(1), fp.clone()), Ok(1));
    assert_eq!(l.pending_fingerprint(), Some(&fp));
    assert_eq!(l.record_approval(&approver(4), fp.clone()), Err(GateError::UnauthorizedApprover));
    assert_eq!(l.approval_result(&approver(2), &fp), Ok(0));
    assert_eq!(l.record_approval(&approver(2), fp.clone()), Ok(0));
    assert_eq!(l.pending_fingerprint(), None);
}

#[test]
fn authorize_reports_outcomes() {
    let mut l = QuorumLedger::new(vec![approver(1), approver(2)], 2).unwrap();
    let fp = vec![9u8];
    assert_eq!(authorize(&mut l, &approver(1), fp.clone(), true), Ok(Outcome::Pending(1)));
    assert_eq!(authorize(&mut l, &approver(2), fp.clone(), false), Err(GateError::InvalidResultingState));
    assert_eq!(l.pending_count(), 1);
    assert_eq!(authorize(&mut l, &approver(2), fp.clone(), true), Ok(Outcome::Executed));
    assert_eq!(l.pending_count(), 0);
}

#[test]
fn params_encode_little_endian() {
    let p = SetFeesParams {
        new_auction_fee: Fee { numerator: 1, denominator: 0x0102 },
        auction_update_fee: zero_fee(),
        invalid_bid_fee: zero_fee(),
        trade_fee: Fee { numerator: u64::MAX, denominator: 0x0807060504030201 },
    };
    let bytes = p.try_to_vec().unwrap();
    assert_eq!(bytes.len(), 64);
    assert_eq!(&bytes[0..8], &[1, 0, 0, 0, 0, 0, 0, 0]);
    assert_eq!(&bytes[8..16], &[2, 1, 0, 0, 0, 0, 0, 0]);
    assert_eq!(&bytes[16..24], &[0, 0, 0, 0, 0, 0, 0, 0]);
    assert_eq!(&bytes[24..32], &[1, 0, 0, 0, 0, 0, 0, 0]);
    assert_eq!(&bytes[48..56], &[255; 8]);
    assert_eq!(&bytes[56..64], &[1, 2, 3, 4, 5, 6, 7, 8]);
}

#[test]
fn instruction_data_prefixes_tag() {
    let payload = vec![7u8, 8];
    assert_eq!(instruction_data(AdminInstruction::SetFees, &payload), vec![1, 7, 8]);
    assert_eq!(instruction_data(AdminInstruction::SetAdminSigners, &payload), vec![0, 7, 8]);
    assert_eq!(instruction_data(AdminInstruction::SetPermissions, &Vec::new()), vec![2]);
}

#[test]
fn fee_validity() {
    assert!(Fee { numerator: 0, denominator: 0 }.is_valid());
    assert!(Fee { numerator: 5, denominator: 5 }.is_valid());
    assert!(!Fee { numerator: 6, denominator: 5 }.is_valid());
    let mut lp = Launchpad {
        fees: Fees { new_auction: zero_fee(), auction_update: zero_fee(), invalid_bid: zero_fee(), trade: zero_fee() },
    };
    assert!(lp.validate());
    lp.fees.invalid_bid = Fee { numerator: 2, denominator: 1 };
    assert!(!lp.validate());
}

#[test]
fn encoded_payload_binds_approvals() {
    let mut ctx = context(3, 2);
    let p = params_with_trade(30);
    ctx.admin = approver(1);
    assert_eq!(set_fees_encoded(&mut ctx, &p, &vec![1, 2]), Ok(Outcome::Pending(1)));
    assert_eq!(ctx.multisig.pending_fingerprint(), Some(&vec![1, 1, 2]));
    ctx.admin = approver(2);
    assert_eq!(set_fees_encoded(&mut ctx, &p, &vec![1, 3]), Ok(Outcome::Pending(1)));
    ctx.admin = approver(3);
    assert_eq!(set_fees_encoded(&mut ctx, &p, &vec![1, 3]), Ok(Outcome::Executed));
    assert_eq!(ctx.launchpad.fees.trade.numerator, 30);
}
