//! The errors that abort a program run, each carrying what a caller
//! needs to report the failure.

use vstd::prelude::*;

verus! {

/// Abstract form of an engine error, over character sequences.
pub enum ErrModel {
    /// A jump target did not parse as a non-negative integer.
    InvalidStep { step: Seq<char> },
    /// An increment amount did not parse as a signed integer.
    InvalidAmount { amount: Seq<char> },
    /// An increment left the signed 64-bit range.
    AmountOverflow,
    /// A sleep duration did not parse as an unsigned integer.
    InvalidDuration { duration: Seq<char> },
    /// A numeric condition operand did not parse as a decimal number.
    InvalidNumber { operand: Seq<char> },
    /// A condition operator outside the recognized set.
    UnknownOperation { operation: Seq<char> },
    /// An absolute jump target outside `[0, len)`.
    JumpOutOfBounds { from: int, target: int, len: int },
    /// A relative jump leaving `[0, len)`.
    RelativeJumpOutOfBounds { from: int, magnitude: int, forward: bool, len: int },
    /// An external collaborator reported failure.
    CollaboratorFailed { message: Seq<char> },
}

/// A fatal error: any of these aborts the whole run at the step where
/// it arose.
#[derive(Debug)]
pub enum EngineError {
    /// A jump target did not parse as a non-negative integer.
    InvalidStep { step: String },
    /// An increment amount did not parse as a signed integer.
    InvalidAmount { amount: String },
    /// An increment left the signed 64-bit range.
    AmountOverflow,
    /// A sleep duration did not parse as an unsigned integer.
    InvalidDuration { duration: String },
    /// A numeric condition operand did not parse as a decimal number.
    InvalidNumber { operand: String },
    /// A condition operator outside the recognized set.
    UnknownOperation { operation: String },
    /// An absolute jump target outside `[0, len)`.
    JumpOutOfBounds { from: usize, target: usize, len: usize },
    /// A relative jump leaving `[0, len)`.
    RelativeJumpOutOfBounds { from: usize, magnitude: usize, forward: bool, len: usize },
    /// An external collaborator reported failure.
    CollaboratorFailed { message: String },
}

impl View for EngineError {
    type V = ErrModel;

    open spec fn view(&self) -> ErrModel {
        match self {
            EngineError::InvalidStep { step } => ErrModel::InvalidStep { step: step@ },
            EngineError::InvalidAmount { amount } => ErrModel::InvalidAmount { amount: amount@ },
            EngineError::AmountOverflow => ErrModel::AmountOverflow,
            EngineError::InvalidDuration { duration } => ErrModel::InvalidDuration {
                duration: duration@,
            },
            EngineError::InvalidNumber { operand } => ErrModel::InvalidNumber {
                operand: operand@,
            },
            EngineError::UnknownOperation { operation } => ErrModel::UnknownOperation {
                operation: operation@,
            },
            EngineError::JumpOutOfBounds { from, target, len } => ErrModel::JumpOutOfBounds {
                from: *from as int,
                target: *target as int,
                len: *len as int,
            },
            EngineError::RelativeJumpOutOfBounds { from, magnitude, forward, len } => {
                ErrModel::RelativeJumpOutOfBounds {
                    from: *from as int,
                    magnitude: *magnitude as int,
                    forward: *forward,
                    len: *len as int,
                }
            },
            EngineError::CollaboratorFailed { message } => ErrModel::CollaboratorFailed {
                message: message@,
            },
        }
    }
}

} // verus!
