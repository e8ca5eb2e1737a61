//! Laws of the state-derivation engine, stated and proved once over the
//! abstract witness chain.

use crate::context::{
    derive_backward, derive_state, expected_approver, first_terminal, lemma_first_terminal_push,
    TradeState, WitnessView,
};
use vstd::prelude::*;

verus! {

/// State derivation is a pure function of the chain: replaying equal chains
/// derives equal states, so repeated invocation on the same chain always
/// yields the same result.
pub proof fn lemma_derive_state_deterministic(s1: Seq<WitnessView>, s2: Seq<WitnessView>)
    requires
        s1 == s2,
    ensures
        derive_state(s1) == derive_state(s2),
{
}

/// An empty witness chain always derives Draft.
pub proof fn lemma_empty_derives_draft(s: Seq<WitnessView>)
    requires
        s.len() == 0,
    ensures
        derive_state(s) == TradeState::Draft,
{
    assert(first_terminal(s) is None);
    assert(derive_backward(s, false) == TradeState::Draft);
}

/// The first terminal witness of a chain is a Book or a Cancel, and fixes
/// Booked or Cancelled accordingly.
pub proof fn lemma_first_terminal_cases(s: Seq<WitnessView>)
    ensures
        first_terminal(s) is None || first_terminal(s) == Some(TradeState::Booked)
            || first_terminal(s) == Some(TradeState::Cancelled),
    decreases s.len(),
{
    if s.len() > 0 {
        lemma_first_terminal_cases(s.drop_first());
    }
}

/// The first terminal witness of a concatenation is the first of the left
/// part if it has one, and otherwise the first of the right part.
pub proof fn lemma_first_terminal_concat(s: Seq<WitnessView>, t: Seq<WitnessView>)
    ensures
        first_terminal(s + t) == (match first_terminal(s) {
            Some(x) => Some(x),
            None => first_terminal(t),
        }),
    decreases s.len(),
{
    if s.len() == 0 {
        assert(s + t =~= t);
    } else {
        assert((s + t).len() > 0);
        assert((s + t)[0] == s[0]);
        assert((s + t).drop_first() =~= s.drop_first() + t);
        lemma_first_terminal_concat(s.drop_first(), t);
    }
}

/// Terminal states are permanent: once a chain holds a terminal witness, its
/// derived state is fixed by the first one, and appending any further
/// witnesses never changes it.
pub proof fn lemma_terminal_state_permanent(s: Seq<WitnessView>, ext: Seq<WitnessView>)
    requires
        first_terminal(s) is Some,
    ensures
        derive_state(s + ext) == derive_state(s),
        derive_state(s) == first_terminal(s)->0,
{
    lemma_first_terminal_concat(s, ext);
    lemma_first_terminal_cases(s);
}

/// The backward walk never yields PendingApproval or Draft once an Approve
/// has been seen at a more recent position.
pub proof fn lemma_backward_approved_not_pending(s: Seq<WitnessView>)
    ensures
        derive_backward(s, true) != TradeState::PendingApproval,
        derive_backward(s, true) != TradeState::Draft,
    decreases s.len(),
{
    if s.len() > 0 {
        if s.last().witness_type is Approve {
            lemma_backward_approved_not_pending(s.drop_last());
        }
    }
}

/// A chain whose backward walk is pending turns Approved the moment the walk
/// starts with an approval in hand.
pub proof fn lemma_backward_pending_to_approved(s: Seq<WitnessView>)
    requires
        derive_backward(s, false) == TradeState::PendingApproval,
    ensures
        derive_backward(s, true) == TradeState::Approved,
    decreases s.len(),
{
    if s.len() > 0 {
        if s.last().witness_type is Approve {
            lemma_backward_approved_not_pending(s.drop_last());
        }
    }
}

/// A chain that derives PendingApproval holds no terminal witness.
pub proof fn lemma_pending_has_no_terminal(s: Seq<WitnessView>)
    requires
        derive_state(s) == TradeState::PendingApproval,
    ensures
        first_terminal(s) is None,
{
    lemma_first_terminal_cases(s);
}

/// A chain that derives Approved holds no terminal witness.
pub proof fn lemma_approved_has_no_terminal(s: Seq<WitnessView>)
    requires
        derive_state(s) == TradeState::Approved,
    ensures
        first_terminal(s) is None,
{
    lemma_first_terminal_cases(s);
}

/// On a chain without terminal witnesses, a Submit immediately followed by an
/// Approve derives Approved.
pub proof fn lemma_submit_then_approve_derives_approved(
    s: Seq<WitnessView>,
    sub: WitnessView,
    app: WitnessView,
)
    requires
        first_terminal(s) is None,
        sub.witness_type is Submit,
        app.witness_type is Approve,
    ensures
        derive_state(s.push(sub).push(app)) == TradeState::Approved,
{
    lemma_first_terminal_push(s, sub);
    lemma_first_terminal_push(s.push(sub), app);
    let t = s.push(sub).push(app);
    assert(t.last() == app);
    assert(t.drop_last() =~= s.push(sub));
    assert(derive_backward(t, false) == derive_backward(s.push(sub), true));
    assert(s.push(sub).last() == sub);
}

/// On a chain without terminal witnesses, an appended Submit or Update
/// derives PendingApproval: an Update invalidates any standing approval.
pub proof fn lemma_gate_derives_pending(s: Seq<WitnessView>, w: WitnessView)
    requires
        first_terminal(s) is None,
        w.witness_type is Submit || w.witness_type is Update,
    ensures
        derive_state(s.push(w)) == TradeState::PendingApproval,
{
    lemma_first_terminal_push(s, w);
    assert(s.push(w).last() == w);
}

/// On a chain that derives Approved, an appended Update reverts the state to
/// PendingApproval: the standing approval is invalidated.
pub proof fn lemma_update_after_approved_derives_pending(s: Seq<WitnessView>, upd: WitnessView)
    requires
        derive_state(s) == TradeState::Approved,
        upd.witness_type is Update,
    ensures
        derive_state(s.push(upd)) == TradeState::PendingApproval,
{
    lemma_approved_has_no_terminal(s);
    lemma_gate_derives_pending(s, upd);
}

/// On a chain that derives PendingApproval, an appended Approve derives
/// Approved.
pub proof fn lemma_approve_after_pending_derives_approved(s: Seq<WitnessView>, app: WitnessView)
    requires
        derive_state(s) == TradeState::PendingApproval,
        app.witness_type is Approve,
    ensures
        derive_state(s.push(app)) == TradeState::Approved,
{
    lemma_pending_has_no_terminal(s);
    lemma_first_terminal_push(s, app);
    assert(s.push(app).last() == app);
    assert(s.push(app).drop_last() =~= s);
    lemma_backward_pending_to_approved(s);
}

/// On a chain without terminal witnesses, an appended SendToExecute derives
/// SentToExecute.
pub proof fn lemma_send_to_execute_derives_sent(s: Seq<WitnessView>, w: WitnessView)
    requires
        first_terminal(s) is None,
        w.witness_type is SendToExecute,
    ensures
        derive_state(s.push(w)) == TradeState::SentToExecute,
{
    lemma_first_terminal_push(s, w);
    assert(s.push(w).last() == w);
}

/// An appended Cancel derives Cancelled, unless an earlier terminal witness
/// has already fixed the state.
pub proof fn lemma_cancel_derives_cancelled(s: Seq<WitnessView>, w: WitnessView)
    requires
        w.witness_type is Cancel,
    ensures
        derive_state(s.push(w)) == (match first_terminal(s) {
            Some(t) => t,
            None => TradeState::Cancelled,
        }),
{
    lemma_first_terminal_push(s, w);
}

/// An appended Book derives Booked, unless an earlier terminal witness has
/// already fixed the state.
pub proof fn lemma_book_derives_booked(s: Seq<WitnessView>, w: WitnessView)
    requires
        w.witness_type is Book,
    ensures
        derive_state(s.push(w)) == (match first_terminal(s) {
            Some(t) => t,
            None => TradeState::Booked,
        }),
{
    lemma_first_terminal_push(s, w);
}

/// Appending a Submit witness makes it the designated approval gate: the
/// expected approver is the one it carries.
pub proof fn lemma_expected_approver_after_submit(s: Seq<WitnessView>, w: WitnessView)
    requires
        w.witness_type is Submit,
    ensures
        expected_approver(s.push(w)) == Some(w.witness_type->Submit_approver_id),
{
    assert(s.push(w).last() == w);
}

/// Appending a witness that is not a Submit leaves the expected approver
/// unchanged.
pub proof fn lemma_expected_approver_skips_non_submit(s: Seq<WitnessView>, w: WitnessView)
    requires
        !(w.witness_type is Submit),
    ensures
        expected_approver(s.push(w)) == expected_approver(s),
{
    assert(s.push(w).last() == w);
    assert(s.push(w).drop_last() =~= s);
}

/// Content addressing is deterministic: two trade details records with
/// identical field values have identical canonical encodings, and therefore
/// identical content hashes.
pub proof fn lemma_identical_details_identical_hash(
    a: crate::trade::TradeDetailsView,
    b: crate::trade::TradeDetailsView,
)
    requires
        a == b,
    ensures
        crate::codec::enc_trade_details(a) == crate::codec::enc_trade_details(b),
        crate::utils::digest_of(crate::codec::enc_trade_details(a)) == crate::utils::digest_of(
            crate::codec::enc_trade_details(b),
        ),
{
}

/// State derivation depends only on a context's value: a context that decodes
/// back to the same value — as `decode_trade_context` ensures of every
/// encoded context — derives the same state as the original.
pub proof fn lemma_equal_contexts_derive_equally(
    a: crate::context::TradeContextView,
    b: crate::context::TradeContextView,
)
    requires
        a == b,
    ensures
        derive_state(a.witness_set) == derive_state(b.witness_set),
{
}

} // verus!
