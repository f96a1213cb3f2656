//! The ways in which handling an instruction can fail.
//!
//! There are two kinds. A rejection says that the instruction itself is not
//! valid and must be refused. A fault says that the ledger could not do its
//! part: the state store could not be reached, or what it holds for an
//! account is not a balance.
use vstd::prelude::*;
use vstd::string::*;

verus! {

/// Why an instruction is not valid.
#[derive(Clone, Copy, Debug, PartialEq, Eq, Structural)]
pub enum Rejection {
    /// The request names no signer.
    InvalidHeader,
    /// The request carries no payload.
    MissingPayload,
    /// The payload is not UTF-8 text.
    InvalidSerialization,
    /// The payload has fewer than two fields.
    TooFewFields,
    /// The payload has more than three fields.
    TooManyFields,
    /// The action field is empty.
    ActionRequired,
    /// The action field is none of the four keywords.
    InvalidAction,
    /// The amount field is not an unsigned 32-bit decimal number.
    InvalidValue,
    /// A third field is present and empty.
    EmptyBeneficiary,
    /// A transfer names no beneficiary.
    MissingBeneficiary,
    /// A withdrawal asks for more than the account holds.
    WithdrawExceedsBalance,
    /// A transfer asks for more than the sender holds.
    TransferExceedsBalance,
    /// The receiving account's balance would no longer fit in 32 bits.
    BalanceOverflow,
}

impl Rejection {
    /// The message that goes with each rejection.
    pub open spec fn text(self) -> Seq<char> {
        match self {
            Rejection::InvalidHeader => "Invalid header"@,
            Rejection::MissingPayload => "Request must contain a payload"@,
            Rejection::InvalidSerialization => "Invalid payload serialization"@,
            Rejection::TooFewFields => "Payload must have at least 1 comma"@,
            Rejection::TooManyFields => "Payload must have at most 2 commas"@,
            Rejection::ActionRequired => "Action is required"@,
            Rejection::InvalidAction => "Invalid Action"@,
            Rejection::InvalidValue => "Missing integer value"@,
            Rejection::EmptyBeneficiary => "Beneficiary cannot be empty "@,
            Rejection::MissingBeneficiary => {
                "Action: Transfer. beneficiary account doesn't exist."@
            },
            Rejection::WithdrawExceedsBalance => {
                "Action: Withdraw amount is more than account balance."@
            },
            Rejection::TransferExceedsBalance => {
                "Action: Transfer amount is more than customer account balance."@
            },
            Rejection::BalanceOverflow => {
                "Action: amount is more than the receiving account can hold."@
            },
        }
    }

    /// The message that goes with this rejection.
    pub fn message(&self) -> (r: String)
        ensures
            r@ == self.text(),
    {
        match self {
            Rejection::InvalidHeader => String::from_str("Invalid header"),
            Rejection::MissingPayload => String::from_str("Request must contain a payload"),
            Rejection::InvalidSerialization => String::from_str("Invalid payload serialization"),
            Rejection::TooFewFields => String::from_str("Payload must have at least 1 comma"),
            Rejection::TooManyFields => String::from_str("Payload must have at most 2 commas"),
            Rejection::ActionRequired => String::from_str("Action is required"),
            Rejection::InvalidAction => String::from_str("Invalid Action"),
            Rejection::InvalidValue => String::from_str("Missing integer value"),
            Rejection::EmptyBeneficiary => String::from_str("Beneficiary cannot be empty "),
            Rejection::MissingBeneficiary => String::from_str(
                "Action: Transfer. beneficiary account doesn't exist.",
            ),
            Rejection::WithdrawExceedsBalance => String::from_str(
                "Action: Withdraw amount is more than account balance.",
            ),
            Rejection::TransferExceedsBalance => String::from_str(
                "Action: Transfer amount is more than customer account balance.",
            ),
            Rejection::BalanceOverflow => String::from_str(
                "Action: amount is more than the receiving account can hold.",
            ),
        }
    }
}

/// What kept the ledger from handling an instruction.
#[derive(Debug, PartialEq, Eq)]
pub enum Fault {
    /// The value stored for an account is not UTF-8 text.
    InvalidUtf8,
    /// The value stored for an account is text, but not a balance.
    InvalidBalance,
    /// A request to the state store failed; the message is the store's own.
    Store(String),
}

impl Fault {
    /// The message that goes with each fault.
    pub open spec fn text(self) -> Seq<char> {
        match self {
            Fault::InvalidUtf8 => "Invalid UTF-8 sequence"@,
            Fault::InvalidBalance => "Unable to parse UTF-8 String as u32"@,
            Fault::Store(message) => message@,
        }
    }

    /// The message that goes with this fault.
    pub fn message(&self) -> (r: String)
        ensures
            r@ == self.text(),
    {
        match self {
            Fault::InvalidUtf8 => String::from_str("Invalid UTF-8 sequence"),
            Fault::InvalidBalance => String::from_str("Unable to parse UTF-8 String as u32"),
            Fault::Store(message) => message.clone(),
        }
    }
}

/// Why an instruction was not carried out.
#[derive(Debug, PartialEq, Eq)]
pub enum WalletError {
    /// The instruction is not valid and must be refused.
    InvalidTransaction(Rejection),
    /// The state store failed, or holds what is no balance.
    InternalError(Fault),
}

impl WalletError {
    /// The message that goes with each error.
    pub open spec fn text(self) -> Seq<char> {
        match self {
            WalletError::InvalidTransaction(rejection) => rejection.text(),
            WalletError::InternalError(fault) => fault.text(),
        }
    }

    /// Whether the error says that the instruction itself is not valid.
    pub fn is_invalid_transaction(&self) -> (r: bool)
        ensures
            r == (self is InvalidTransaction),
    {
        match self {
            WalletError::InvalidTransaction(_) => true,
            WalletError::InternalError(_) => false,
        }
    }

    /// The message that goes with this error.
    pub fn message(&self) -> (r: String)
        ensures
            r@ == self.text(),
    {
        match self {
            WalletError::InvalidTransaction(rejection) => rejection.message(),
            WalletError::InternalError(fault) => fault.message(),
        }
    }
}

} // verus!
