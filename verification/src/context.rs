//! The witness chain and the state-derivation engine.
//!
//! A [`TradeContext`] binds a stable trade identifier to an append-only,
//! ordered sequence of [`Witness`] records. The trade's current state is
//! never stored: it is derived by replaying that sequence with
//! [`derive_state`].

use crate::error::ValidationError;
use crate::trade::TimeStamp;
use vstd::prelude::*;

verus! {

/// The lifecycle states a witness chain can derive.
#[derive(Debug, Clone, Copy, PartialEq, Eq, Structural)]
pub enum TradeState {
    /// No Submit witness yet.
    Draft,
    /// The latest action is a Submit or Update awaiting approval.
    PendingApproval,
    /// The latest gate was approved and not invalidated since.
    Approved,
    Cancelled,
    SentToExecute,
    Executed,
    Booked,
}

/// The abstract value of a [`WitnessType`].
pub enum WitnessTypeView {
    Submit { details_hash: Seq<char>, requester_id: Seq<char>, approver_id: Seq<char> },
    Approve,
    Cancel,
    Update { details_hash: Seq<char> },
    SendToExecute,
    Book { strike: u64 },
}

/// The action a witness records, with its payload.
#[derive(Debug, Clone, PartialEq, Eq)]
pub enum WitnessType {
    /// The first action: binds a details hash and designates the single
    /// authorized approver.
    Submit { details_hash: String, requester_id: String, approver_id: String },
    /// The approver ratifies the currently pending details.
    Approve,
    /// Terminates the trade permanently.
    Cancel,
    /// Supersedes the prior details with a new hash; standing approval is
    /// invalidated.
    Update { details_hash: String },
    /// Marks an approved trade as sent to the counterparty.
    SendToExecute,
    /// Terminates the trade permanently with a final strike price.
    Book { strike: u64 },
}

impl View for WitnessType {
    type V = WitnessTypeView;

    open spec fn view(&self) -> WitnessTypeView {
        match self {
            WitnessType::Submit { details_hash, requester_id, approver_id } => {
                WitnessTypeView::Submit {
                    details_hash: details_hash@,
                    requester_id: requester_id@,
                    approver_id: approver_id@,
                }
            },
            WitnessType::Approve => WitnessTypeView::Approve,
            WitnessType::Cancel => WitnessTypeView::Cancel,
            WitnessType::Update { details_hash } => {
                WitnessTypeView::Update { details_hash: details_hash@ }
            },
            WitnessType::SendToExecute => WitnessTypeView::SendToExecute,
            WitnessType::Book { strike } => WitnessTypeView::Book { strike: *strike },
        }
    }
}

impl WitnessType {
    pub fn new_submit(details_hash: String, requester_id: String, approver_id: String) -> (r:
        WitnessType)
        ensures
            r@ == (WitnessTypeView::Submit {
                details_hash: details_hash@,
                requester_id: requester_id@,
                approver_id: approver_id@,
            }),
    {
        WitnessType::Submit { details_hash, requester_id, approver_id }
    }

    pub fn new_update(details_hash: String) -> (r: WitnessType)
        ensures
            r@ == (WitnessTypeView::Update { details_hash: details_hash@ }),
    {
        WitnessType::Update { details_hash }
    }

    pub fn new_book(strike: u64) -> (r: WitnessType)
        ensures
            r@ == (WitnessTypeView::Book { strike }),
    {
        WitnessType::Book { strike }
    }
}

/// The abstract value of a [`Witness`].
pub struct WitnessView {
    pub trade_id: Seq<char>,
    pub user_id: Seq<char>,
    pub user_timestamp: TimeStamp,
    pub witness_type: WitnessTypeView,
}

/// An immutable record of one workflow action taken on a trade.
#[derive(Debug, Clone, PartialEq, Eq)]
pub struct Witness {
    /// Reference to the owning trade context.
    pub trade_id: String,
    /// The actor who created this witness.
    pub user_id: String,
    /// When the action occurred.
    pub user_timestamp: TimeStamp,
    /// The action performed, with its payload.
    pub witness_type: WitnessType,
}

impl View for Witness {
    type V = WitnessView;

    open spec fn view(&self) -> WitnessView {
        WitnessView {
            trade_id: self.trade_id@,
            user_id: self.user_id@,
            user_timestamp: self.user_timestamp,
            witness_type: self.witness_type@,
        }
    }
}

impl Witness {
    pub fn new(
        trade_id: String,
        user_id: String,
        user_timestamp: TimeStamp,
        witness_type: WitnessType,
    ) -> (r: Witness)
        ensures
            r@ == (WitnessView {
                trade_id: trade_id@,
                user_id: user_id@,
                user_timestamp,
                witness_type: witness_type@,
            }),
    {
        Witness { trade_id, user_id, user_timestamp, witness_type }
    }

    /// The witness's content hash together with its canonical encoding, ready
    /// to be persisted under that hash for audit lookup.
    pub fn serialize_with_hash(&self) -> (r: Result<(String, Vec<u8>), crate::error::TradeError>)
        ensures
            r matches Ok((h, bytes)) && bytes@ == crate::codec::enc_witness(self@) && h@
                == crate::utils::digest_of(crate::codec::enc_witness(self@)),
    {
        let cbor = crate::codec::encode_witness(self);
        let hash = crate::utils::sha256_digest(&cbor);
        Ok((hash, cbor))
    }
}

/// The abstract value of a [`TradeContext`].
pub struct TradeContextView {
    pub trade_id: Seq<char>,
    pub witness_set: Seq<WitnessView>,
}

/// The aggregate root: a stable trade identifier together with the ordered,
/// append-only witness chain recorded for it.
#[derive(Debug, Clone, PartialEq, Eq)]
pub struct TradeContext {
    /// A prefixed, checksummed encoding of a time-ordered random value.
    pub trade_id: String,
    /// The witness chain; insertion order is semantically significant.
    pub witness_set: Vec<Witness>,
}

impl View for TradeContext {
    type V = TradeContextView;

    open spec fn view(&self) -> TradeContextView {
        TradeContextView {
            trade_id: self.trade_id@,
            witness_set: self.witness_set@.map_values(|w: Witness| w@),
        }
    }
}

/// True of the two witness types that terminate a trade permanently.
pub open spec fn is_terminal_witness(w: WitnessView) -> bool {
    w.witness_type is Book || w.witness_type is Cancel
}

/// The terminal state fixed by the first Book or Cancel witness in chain
/// order, if any.
pub open spec fn first_terminal(s: Seq<WitnessView>) -> Option<TradeState>
    decreases s.len(),
{
    if s.len() == 0 {
        None
    } else if s[0].witness_type is Book {
        Some(TradeState::Booked)
    } else if s[0].witness_type is Cancel {
        Some(TradeState::Cancelled)
    } else {
        first_terminal(s.drop_first())
    }
}

/// The backward walk of the derivation algorithm: scan from the most recent
/// witness to the oldest, tracking whether an Approve has been seen at a more
/// recent position.
pub open spec fn derive_backward(s: Seq<WitnessView>, approved: bool) -> TradeState
    decreases s.len(),
{
    if s.len() == 0 {
        if approved {
            TradeState::Approved
        } else {
            TradeState::Draft
        }
    } else {
        match s.last().witness_type {
            WitnessTypeView::SendToExecute => TradeState::SentToExecute,
            WitnessTypeView::Submit { .. } => if approved {
                TradeState::Approved
            } else {
                TradeState::PendingApproval
            },
            WitnessTypeView::Update { .. } => if approved {
                TradeState::Approved
            } else {
                TradeState::PendingApproval
            },
            WitnessTypeView::Approve => derive_backward(s.drop_last(), true),
            // Defensive only: these are never reached when the chain holds no
            // terminal witness.
            WitnessTypeView::Book { .. } => TradeState::Booked,
            WitnessTypeView::Cancel => TradeState::Cancelled,
        }
    }
}

/// The state derived by replaying a witness chain: the first terminal
/// witness, if any, fixes the state permanently; otherwise the backward walk
/// decides.
pub open spec fn derive_state(s: Seq<WitnessView>) -> TradeState {
    match first_terminal(s) {
        Some(t) => t,
        None => derive_backward(s, false),
    }
}

/// The approver designated by the most recent Submit witness, if any; Update
/// witnesses carry no approver and are skipped.
pub open spec fn expected_approver(s: Seq<WitnessView>) -> Option<Seq<char>>
    decreases s.len(),
{
    if s.len() == 0 {
        None
    } else {
        match s.last().witness_type {
            WitnessTypeView::Submit { approver_id, .. } => Some(approver_id),
            _ => expected_approver(s.drop_last()),
        }
    }
}

/// Appending a witness leaves an already-found first terminal unchanged, and
/// otherwise introduces one exactly when the appended witness is terminal.
pub proof fn lemma_first_terminal_push(s: Seq<WitnessView>, w: WitnessView)
    ensures
        first_terminal(s.push(w)) == if first_terminal(s) is Some {
            first_terminal(s)
        } else if w.witness_type is Book {
            Some(TradeState::Booked)
        } else if w.witness_type is Cancel {
            Some(TradeState::Cancelled)
        } else {
            None::<TradeState>
        },
    decreases s.len(),
{
    assert(s.push(w).len() == s.len() + 1);
    if s.len() == 0 {
        assert(s.push(w)[0] == w);
        assert(s.push(w).drop_first() =~= s);
        assert(first_terminal(s) == None::<TradeState>);
        if w.witness_type is Book {
            assert(first_terminal(s.push(w)) == Some(TradeState::Booked));
        } else if w.witness_type is Cancel {
            assert(first_terminal(s.push(w)) == Some(TradeState::Cancelled));
        } else {
            assert(first_terminal(s.push(w)) == first_terminal(s));
        }
    } else {
        assert(s.push(w)[0] == s[0]);
        assert(s.push(w).drop_first() =~= s.drop_first().push(w));
        lemma_first_terminal_push(s.drop_first(), w);
    }
}

/// A chain has no first terminal exactly when no witness in it is terminal.
pub proof fn lemma_first_terminal_none(s: Seq<WitnessView>)
    ensures
        first_terminal(s) is None <==> (forall|i: int|
            0 <= i < s.len() ==> !is_terminal_witness(#[trigger] s[i])),
    decreases s.len(),
{
    if s.len() > 0 {
        lemma_first_terminal_none(s.drop_first());
        if first_terminal(s) is None {
            assert forall|i: int| 0 <= i < s.len() implies !is_terminal_witness(#[trigger] s[i]) by {
                if i > 0 {
                    assert(s.drop_first()[i - 1] == s[i]);
                }
            }
        } else {
            if !(s[0].witness_type is Book) && !(s[0].witness_type is Cancel) {
                let j = choose|j: int|
                    0 <= j < s.drop_first().len() && is_terminal_witness(
                        #[trigger] s.drop_first()[j],
                    );
                assert(s[j + 1] == s.drop_first()[j]);
            }
        }
    }
}

impl TradeContext {
    /// An empty context carrying a freshly generated identifier: the prefix
    /// `trade_`, the separator `'1'`, then 32 data and checksum characters.
    pub fn new() -> (r: TradeContext)
        ensures
            r@.witness_set == Seq::<WitnessView>::empty(),
            r@.trade_id.len() == 39,
            r@.trade_id.subrange(0, 7) == "trade_1"@,
    {
        proof {
            reveal_strlit("trade_");
            reveal_strlit("trade_1");
        }
        let id = match crate::utils::new_uuid_to_bech32("trade_") {
            Ok(s) => s,
            Err(_) => vstd::pervasive::unreached(),
        };
        proof {
            assert(id@.subrange(0, 6) == "trade_"@);
            assert(id@.subrange(0, 7) =~= "trade_1"@);
        }
        TradeContext::new_with(id)
    }

    /// The context's content hash together with its canonical encoding; the
    /// hash serves audit and verification.
    pub fn serialize_with_hash(&self) -> (r: Result<(String, Vec<u8>), crate::error::TradeError>)
        ensures
            r matches Ok((h, bytes)) && bytes@ == crate::codec::enc_trade_context(self@) && h@
                == crate::utils::digest_of(crate::codec::enc_trade_context(self@)),
    {
        let cbor = crate::codec::encode_trade_context(self);
        let hash = crate::utils::sha256_digest(&cbor);
        Ok((hash, cbor))
    }

    /// An empty context carrying the given identifier.
    pub fn new_with(trade_id: String) -> (r: TradeContext)
        ensures
            r@.trade_id == trade_id@,
            r@.witness_set == Seq::<WitnessView>::empty(),
    {
        let r = TradeContext { trade_id, witness_set: Vec::new() };
        proof {
            assert(r@.witness_set =~= Seq::<WitnessView>::empty());
        }
        r
    }

    /// Appends a witness to the chain unconditionally; validation is the
    /// caller's responsibility.
    pub fn insert_witness(&mut self, witness: Witness)
        ensures
            final (self)@.trade_id == old(self)@.trade_id,
            final (self)@.witness_set == old(self)@.witness_set.push(witness@),
    {
        let ghost pre = self@.witness_set;
        self.witness_set.push(witness);
        proof {
            assert(self@.witness_set =~= pre.push(witness@));
        }
    }

    /// Derives the current state by replaying the witness chain.
    pub fn current_state(&self) -> (r: TradeState)
        ensures
            r == derive_state(self@.witness_set),
    {
        let ghost s = self@.witness_set;
        let n = self.witness_set.len();

        // Terminal-state pass: a forward scan keeping the first Book or
        // Cancel encountered. Terminal states are permanent.
        let mut found: Option<TradeState> = None;
        let mut i: usize = 0;
        while i < n
            invariant
                n == s.len(),
                n == self.witness_set.len(),
                s == self@.witness_set,
                0 <= i <= n,
                found == first_terminal(s.take(i as int)),
            decreases n - i,
        {
            proof {
                assert(s.take(i + 1) =~= s.take(i as int).push(s[i as int]));
                lemma_first_terminal_push(s.take(i as int), s[i as int]);
            }
            match &self.witness_set[i].witness_type {
                WitnessType::Book { .. } => {
                    if found.is_none() {
                        found = Some(TradeState::Booked);
                    }
                },
                WitnessType::Cancel => {
                    if found.is_none() {
                        found = Some(TradeState::Cancelled);
                    }
                },
                _ => {},
            }
            i = i + 1;
        }
        proof {
            assert(s.take(n as int) =~= s);
        }
        if let Some(terminal) = found {
            return terminal;
        }
        // No terminal witness: walk backward, tracking whether an Approve was
        // seen at a more recent position.
        let mut approved = false;
        let mut j: usize = n;
        while j > 0
            invariant
                n == s.len(),
                n == self.witness_set.len(),
                s == self@.witness_set,
                0 <= j <= n,
                first_terminal(s) is None,
                derive_backward(s, false) == derive_backward(s.take(j as int), approved),
            decreases j,
        {
            proof {
                lemma_first_terminal_none(s);
                assert(s.take(j as int).last() == s[j - 1]);
                assert(s.take(j as int).drop_last() =~= s.take(j - 1));
            }
            match &self.witness_set[j - 1].witness_type {
                WitnessType::SendToExecute => {
                    return TradeState::SentToExecute;
                },
                WitnessType::Submit { .. } => {
                    return if approved {
                        TradeState::Approved
                    } else {
                        TradeState::PendingApproval
                    };
                },
                WitnessType::Update { .. } => {
                    return if approved {
                        TradeState::Approved
                    } else {
                        TradeState::PendingApproval
                    };
                },
                WitnessType::Approve => {
                    approved = true;
                },
                WitnessType::Book { .. } => {
                    proof {
                        assert(is_terminal_witness(s[j - 1]));
                    }
                    return vstd::pervasive::unreached();
                },
                WitnessType::Cancel => {
                    proof {
                        assert(is_terminal_witness(s[j - 1]));
                    }
                    return vstd::pervasive::unreached();
                },
            }
            j = j - 1;
        }
        proof {
            assert(s.take(0) =~= Seq::<WitnessView>::empty());
        }
        if approved {
            TradeState::Approved
        } else {
            TradeState::Draft
        }
    }

    /// True when the trade needs approval before proceeding.
    pub fn requires_approval(&self) -> (r: bool)
        ensures
            r == (derive_state(self@.witness_set) == TradeState::PendingApproval),
    {
        match self.current_state() {
            TradeState::PendingApproval => true,
            _ => false,
        }
    }

    /// The approver designated by the most recent Submit witness; fails with
    /// [`ValidationError::MissingSubmit`] when no Submit witness exists.
    pub fn get_expected_approver(&self) -> (r: Result<String, ValidationError>)
        ensures
            expected_approver(self@.witness_set) matches Some(a) ==> (r matches Ok(id) && id@
                == a),
            expected_approver(self@.witness_set) is None ==> r == Err::<
                String,
                ValidationError,
            >(ValidationError::MissingSubmit),
    {
        let ghost s = self@.witness_set;
        let n = self.witness_set.len();
        proof {
            assert(s.take(n as int) =~= s);
        }
        let mut j: usize = n;
        while j > 0
            invariant
                n == s.len(),
                n == self.witness_set.len(),
                s == self@.witness_set,
                0 <= j <= n,
                expected_approver(s) == expected_approver(s.take(j as int)),
            decreases j,
        {
            proof {
                assert(s.take(j as int).last() == s[j - 1]);
                assert(s.take(j as int).drop_last() =~= s.take(j - 1));
            }
            match &self.witness_set[j - 1].witness_type {
                WitnessType::Submit { approver_id, .. } => {
                    return Ok(approver_id.clone());
                },
                _ => {},
            }
            j = j - 1;
        }
        proof {
            assert(s.take(0) =~= Seq::<WitnessView>::empty());
        }
        Err(ValidationError::MissingSubmit)
    }
}

} // verus!
