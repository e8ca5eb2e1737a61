//! The workflow operations: each validates a proposed action against the
//! state derived from a context's witness chain, and appends the witness that
//! records the action.
//!
//! These functions are pure apart from reading the clock for witness
//! timestamps; loading a context from the store and persisting the returned
//! values are the caller's side of the boundary.

use crate::context::{
    derive_state, expected_approver, first_terminal, TradeContext, TradeState, Witness,
    WitnessType, WitnessTypeView,
};
use crate::error::{TradeError, WorkflowError};
use crate::laws;
use crate::trade::{first_validation_error, TimeStamp, TradeDetails};
use vstd::prelude::*;

verus! {

/// Submits a new trade: validates the details, creates a fresh context under
/// a `trade_`-prefixed identifier and appends the Submit witness binding the
/// details' hash and designating the approver. Succeeds exactly when the
/// details validate; on success the new context derives PendingApproval.
/// Returns the context, the details' content hash and their canonical
/// encoding, for the caller to persist atomically.
pub fn submit_trade(
    trade_details: &TradeDetails,
    requester_id: String,
    approver_id: String,
    user_addr: String,
) -> (r: Result<(TradeContext, String, Vec<u8>), TradeError>)
    ensures
        r is Ok <==> first_validation_error(trade_details@) is None,
        r matches Err(e) ==> Some(e) == first_validation_error(trade_details@),
        r matches Ok((ctx, h, bytes)) ==> {
            &&& bytes@ == crate::codec::enc_trade_details(trade_details@)
            &&& h@ == crate::utils::digest_of(crate::codec::enc_trade_details(trade_details@))
            &&& ctx@.witness_set.len() == 1
            &&& ctx@.witness_set[0].witness_type == (WitnessTypeView::Submit {
                details_hash: crate::utils::digest_of(
                    crate::codec::enc_trade_details(trade_details@),
                ),
                requester_id: requester_id@,
                approver_id: approver_id@,
            })
            &&& ctx@.witness_set[0].user_id == user_addr@
            &&& ctx@.witness_set[0].trade_id == ctx@.trade_id
            &&& ctx@.trade_id.len() == 39
            &&& ctx@.trade_id.subrange(0, 7) == "trade_1"@
            &&& derive_state(ctx@.witness_set) == TradeState::PendingApproval
            &&& expected_approver(ctx@.witness_set) == Some(approver_id@)
        },
{
    let (details_hash, details_cbor) = match trade_details.validate_and_finalise() {
        Ok(p) => p,
        Err(e) => {
            return Err(e);
        },
    };
    let mut trade_context = TradeContext::new();
    let witness = Witness::new(
        trade_context.trade_id.clone(),
        user_addr,
        TimeStamp::new(),
        WitnessType::Submit {
            details_hash: details_hash.clone(),
            requester_id,
            approver_id,
        },
    );
    let ghost s0 = trade_context@.witness_set;
    let ghost w = witness@;
    trade_context.insert_witness(witness);
    proof {
        assert(first_terminal(s0) is None);
        laws::lemma_gate_derives_pending(s0, w);
        laws::lemma_expected_approver_after_submit(s0, w);
        assert(trade_context@.witness_set[0] == w);
    }
    Ok((trade_context, details_hash, details_cbor))
}

/// Approves a pending trade: succeeds exactly when the derived state is
/// PendingApproval and the supplied approver is the one the most recent
/// Submit witness designates. On success the Approve witness is appended and
/// the new context derives Approved; on failure the error reports the
/// expected against the actual condition.
pub fn approve_trade(ctx: TradeContext, approver_id: String) -> (r: Result<
    TradeContext,
    WorkflowError,
>)
    ensures
        r is Ok <==> (derive_state(ctx@.witness_set) == TradeState::PendingApproval
            && expected_approver(ctx@.witness_set) == Some(approver_id@)),
        derive_state(ctx@.witness_set) != TradeState::PendingApproval ==> r == Err::<
            TradeContext,
            WorkflowError,
        >(WorkflowError::NotPendingApproval(derive_state(ctx@.witness_set))),
        derive_state(ctx@.witness_set) == TradeState::PendingApproval && expected_approver(
            ctx@.witness_set,
        ) is None ==> r == Err::<TradeContext, WorkflowError>(WorkflowError::MissingSubmit),
        derive_state(ctx@.witness_set) == TradeState::PendingApproval ==> (expected_approver(
            ctx@.witness_set,
        ) matches Some(a) ==> (a != approver_id@ ==> (r matches Err(e)
            && e matches WorkflowError::UnauthorizedApprover { expected, got } && expected@ == a
            && got@ == approver_id@))),
        r matches Ok(c2) ==> {
            &&& c2@.trade_id == ctx@.trade_id
            &&& c2@.witness_set.drop_last() == ctx@.witness_set
            &&& c2@.witness_set.len() == ctx@.witness_set.len() + 1
            &&& c2@.witness_set.last().witness_type is Approve
            &&& c2@.witness_set.last().user_id == approver_id@
            &&& c2@.witness_set.last().trade_id == ctx@.trade_id
            &&& derive_state(c2@.witness_set) == TradeState::Approved
        },
{
    if !ctx.requires_approval() {
        let state = ctx.current_state();
        return Err(WorkflowError::NotPendingApproval(state));
    }
    let expected = match ctx.get_expected_approver() {
        Ok(a) => a,
        Err(_) => {
            return Err(WorkflowError::MissingSubmit);
        },
    };
    if approver_id != expected {
        return Err(WorkflowError::UnauthorizedApprover { expected, got: approver_id });
    }
    let witness = Witness::new(
        ctx.trade_id.clone(),
        approver_id,
        TimeStamp::new(),
        WitnessType::Approve,
    );
    let ghost s0 = ctx@.witness_set;
    let ghost w = witness@;
    let mut c2 = ctx;
    c2.insert_witness(witness);
    proof {
        laws::lemma_approve_after_pending_derives_approved(s0, w);
        assert(c2@.witness_set.drop_last() =~= s0);
    }
    Ok(c2)
}

/// Updates a trade's details: validates the new details and appends an
/// Update witness binding their hash, which invalidates any standing
/// approval. No state precondition is enforced; a trade already fixed by a
/// terminal witness keeps its terminal state. Returns the new context, the
/// details' content hash and their canonical encoding.
pub fn update_trade(ctx: TradeContext, trade_details: &TradeDetails, user_addr: String) -> (r:
    Result<(TradeContext, String, Vec<u8>), TradeError>)
    ensures
        r is Ok <==> first_validation_error(trade_details@) is None,
        r matches Err(e) ==> Some(e) == first_validation_error(trade_details@),
        r matches Ok((c2, h, bytes)) ==> {
            &&& bytes@ == crate::codec::enc_trade_details(trade_details@)
            &&& h@ == crate::utils::digest_of(crate::codec::enc_trade_details(trade_details@))
            &&& c2@.trade_id == ctx@.trade_id
            &&& c2@.witness_set.drop_last() == ctx@.witness_set
            &&& c2@.witness_set.len() == ctx@.witness_set.len() + 1
            &&& c2@.witness_set.last().witness_type == (WitnessTypeView::Update {
                details_hash: crate::utils::digest_of(
                    crate::codec::enc_trade_details(trade_details@),
                ),
            })
            &&& c2@.witness_set.last().user_id == user_addr@
            &&& derive_state(c2@.witness_set) == (match first_terminal(ctx@.witness_set) {
                Some(t) => t,
                None => TradeState::PendingApproval,
            })
        },
{
    let (details_hash, details_cbor) = match trade_details.validate_and_finalise() {
        Ok(p) => p,
        Err(e) => {
            return Err(e);
        },
    };
    let witness = Witness::new(
        ctx.trade_id.clone(),
        user_addr,
        TimeStamp::new(),
        WitnessType::Update { details_hash: details_hash.clone() },
    );
    let ghost s0 = ctx@.witness_set;
    let ghost w = witness@;
    let mut c2 = ctx;
    c2.insert_witness(witness);
    proof {
        crate::context::lemma_first_terminal_push(s0, w);
        laws::lemma_first_terminal_cases(s0);
        if first_terminal(s0) is None {
            laws::lemma_gate_derives_pending(s0, w);
        }
        assert(c2@.witness_set.drop_last() =~= s0);
    }
    Ok((c2, details_hash, details_cbor))
}

/// Cancels a trade: appends a Cancel witness unconditionally. The new
/// context derives Cancelled, unless an earlier terminal witness has already
/// fixed the state.
pub fn cancel_trade(ctx: TradeContext, user_addr: String) -> (c2: TradeContext)
    ensures
        c2@.trade_id == ctx@.trade_id,
        c2@.witness_set.drop_last() == ctx@.witness_set,
        c2@.witness_set.len() == ctx@.witness_set.len() + 1,
        c2@.witness_set.last().witness_type is Cancel,
        c2@.witness_set.last().user_id == user_addr@,
        derive_state(c2@.witness_set) == (match first_terminal(ctx@.witness_set) {
            Some(t) => t,
            None => TradeState::Cancelled,
        }),
{
    let witness = Witness::new(ctx.trade_id.clone(), user_addr, TimeStamp::new(), WitnessType::Cancel);
    let ghost s0 = ctx@.witness_set;
    let ghost w = witness@;
    let mut c2 = ctx;
    c2.insert_witness(witness);
    proof {
        laws::lemma_cancel_derives_cancelled(s0, w);
        assert(c2@.witness_set.drop_last() =~= s0);
    }
    c2
}

/// Sends an approved trade to execution: succeeds exactly when the derived
/// state is Approved. On success the SendToExecute witness is appended and
/// the new context derives SentToExecute.
pub fn execute_trade(ctx: TradeContext, user_addr: String) -> (r: Result<
    TradeContext,
    WorkflowError,
>)
    ensures
        r is Ok <==> derive_state(ctx@.witness_set) == TradeState::Approved,
        r matches Err(e) ==> e == WorkflowError::NotApproved(derive_state(ctx@.witness_set)),
        r matches Ok(c2) ==> {
            &&& c2@.trade_id == ctx@.trade_id
            &&& c2@.witness_set.drop_last() == ctx@.witness_set
            &&& c2@.witness_set.len() == ctx@.witness_set.len() + 1
            &&& c2@.witness_set.last().witness_type is SendToExecute
            &&& c2@.witness_set.last().user_id == user_addr@
            &&& derive_state(c2@.witness_set) == TradeState::SentToExecute
        },
{
    let state = ctx.current_state();
    match state {
        TradeState::Approved => {},
        _ => {
            return Err(WorkflowError::NotApproved(state));
        },
    }
    let witness = Witness::new(
        ctx.trade_id.clone(),
        user_addr,
        TimeStamp::new(),
        WitnessType::SendToExecute,
    );
    let ghost s0 = ctx@.witness_set;
    let ghost w = witness@;
    let mut c2 = ctx;
    c2.insert_witness(witness);
    proof {
        laws::lemma_approved_has_no_terminal(s0);
        laws::lemma_send_to_execute_derives_sent(s0, w);
        assert(c2@.witness_set.drop_last() =~= s0);
    }
    Ok(c2)
}

/// Books a trade with its final strike price: appends a Book witness
/// unconditionally. The new context derives Booked, unless an earlier
/// terminal witness has already fixed the state.
pub fn book_trade(ctx: TradeContext, user_addr: String, strike: u64) -> (c2: TradeContext)
    ensures
        c2@.trade_id == ctx@.trade_id,
        c2@.witness_set.drop_last() == ctx@.witness_set,
        c2@.witness_set.len() == ctx@.witness_set.len() + 1,
        c2@.witness_set.last().witness_type == (WitnessTypeView::Book { strike }),
        c2@.witness_set.last().user_id == user_addr@,
        derive_state(c2@.witness_set) == (match first_terminal(ctx@.witness_set) {
            Some(t) => t,
            None => TradeState::Booked,
        }),
{
    let witness = Witness::new(
        ctx.trade_id.clone(),
        user_addr,
        TimeStamp::new(),
        WitnessType::Book { strike },
    );
    let ghost s0 = ctx@.witness_set;
    let ghost w = witness@;
    let mut c2 = ctx;
    c2.insert_witness(witness);
    proof {
        laws::lemma_book_derives_booked(s0, w);
        assert(c2@.witness_set.drop_last() =~= s0);
    }
    c2
}

} // verus!
