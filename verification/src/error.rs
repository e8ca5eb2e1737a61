//! Error types reported by validation and by the workflow operations.

use crate::context::TradeState;
use crate::trade::TimeStamp;
use vstd::prelude::*;

verus! {

/// Workflow-level validation failures.
#[derive(Debug, Clone, Copy, PartialEq, Eq, Structural)]
pub enum ValidationError {
    /// The dates do not satisfy `trade_date <= value_date <= delivery_date`.
    DateValidation,
    /// The trade contains a Cancel witness.
    IsCanceled,
    /// The trade is missing a valid Approve witness.
    NoApproved,
    /// An Update witness was found without a subsequent Approve.
    PendingApproval,
    /// The trade is missing a Submit witness.
    MissingSubmit,
    /// The trade has already been executed and booked.
    AlreadyExecuted,
}

/// The date field of a trade details record that an error refers to.
#[derive(Debug, Clone, Copy, PartialEq, Eq, Structural)]
pub enum DateField {
    TradeDate,
    ValueDate,
    DeliveryDate,
}

/// Errors raised while validating a trade details record.
#[derive(Debug, Clone, PartialEq, Eq)]
pub enum TradeError {
    /// A date field is unset; carries the field and the value it held.
    InvalidDate(DateField, Option<TimeStamp>),
    /// A trading entity or counterparty reference is unset or malformed.
    InvalidEntity(Option<String>),
    /// A currency field is unset.
    InvalidCurrency,
    /// The direction is unset.
    MissingDirection,
    /// The notional amount is zero.
    ZeroNotionalAmount,
    /// The underlying amount is zero.
    ZeroUnderlyingAmount,
    /// A workflow-level validation failure.
    Validation(ValidationError),
}

/// Errors raised by the workflow operations when a precondition on the
/// derived state does not hold.
#[derive(Debug, Clone, PartialEq, Eq)]
pub enum WorkflowError {
    /// The operation needs the trade to be pending approval; carries the
    /// actual derived state.
    NotPendingApproval(TradeState),
    /// The supplied approver is not the one the Submit witness designates.
    UnauthorizedApprover { expected: String, got: String },
    /// No Submit witness carries approver information.
    MissingSubmit,
    /// The operation needs the trade to be approved; carries the actual
    /// derived state.
    NotApproved(TradeState),
}

} // verus!
