//! Instructions and their decoding.
//!
//! An instruction is one line of UTF-8 text, `action,amount` or
//! `action,amount,beneficiary`. The action is one of four keywords, the
//! amount an unsigned 32-bit decimal number, the beneficiary the account that
//! a transfer pays into.
use vstd::prelude::*;
use vstd::slice::*;
use vstd::string::*;
use vstd::utf8::*;
use crate::error::Rejection;
use crate::error::WalletError;
use crate::number::parse_amount;
use crate::number::parse_u32;
use crate::text::decode_text;
use crate::text::fields;
use crate::text::find_comma;
use crate::text::lemma_fields_from;
use crate::text::lemma_fields_nonempty;
use crate::text::lemma_split_at_ascii;
use crate::text::same_bytes;
use crate::text::utf8_text;

verus! {

/// What an instruction asks for.
#[derive(Clone, Copy, Debug, PartialEq, Eq, Structural)]
pub enum Action {
    Deposit,
    Withdraw,
    Balance,
    Transfer,
}

impl Action {
    /// The name under which each action is shown.
    pub open spec fn label_text(self) -> Seq<char> {
        match self {
            Action::Deposit => "Action::Deposit"@,
            Action::Withdraw => "Action::Withdraw"@,
            Action::Balance => "Action::Balance"@,
            Action::Transfer => "Action::Transfer"@,
        }
    }

    /// The name under which this action is shown.
    pub fn label(&self) -> (r: String)
        ensures
            r@ == self.label_text(),
    {
        match self {
            Action::Deposit => String::from_str("Action::Deposit"),
            Action::Withdraw => String::from_str("Action::Withdraw"),
            Action::Balance => String::from_str("Action::Balance"),
            Action::Transfer => String::from_str("Action::Transfer"),
        }
    }
}

/// The action that a keyword names. Keywords are matched exactly, lower case.
pub open spec fn action_named(field: Seq<u8>) -> Option<Action> {
    if field == "deposit".spec_bytes() {
        Some(Action::Deposit)
    } else if field == "withdraw".spec_bytes() {
        Some(Action::Withdraw)
    } else if field == "balance".spec_bytes() {
        Some(Action::Balance)
    } else if field == "transfer".spec_bytes() {
        Some(Action::Transfer)
    } else {
        None
    }
}

/// Finds the action that a keyword names.
pub fn parse_action(field: &[u8]) -> (r: Option<Action>)
    ensures
        r == action_named(field@),
{
    if same_bytes(field, "deposit".as_bytes()) {
        Some(Action::Deposit)
    } else if same_bytes(field, "withdraw".as_bytes()) {
        Some(Action::Withdraw)
    } else if same_bytes(field, "balance".as_bytes()) {
        Some(Action::Balance)
    } else if same_bytes(field, "transfer".as_bytes()) {
        Some(Action::Transfer)
    } else {
        None
    }
}

/// What a decoded instruction says.
pub struct Instruction {
    pub action: Action,
    pub value: u32,
    pub beneficiary: Option<Seq<char>>,
}

/// What a payload decodes to. The checks are made in the order in which
/// they stand here, and the first that fails decides the rejection.
pub open spec fn decode(payload: Seq<u8>) -> Result<Instruction, Rejection> {
    let items = fields(payload);
    if !valid_utf8(payload) {
        Err(Rejection::InvalidSerialization)
    } else if items.len() < 2 {
        Err(Rejection::TooFewFields)
    } else if items.len() > 3 {
        Err(Rejection::TooManyFields)
    } else if items[0].len() == 0 {
        Err(Rejection::ActionRequired)
    } else if action_named(items[0]) is None {
        Err(Rejection::InvalidAction)
    } else if parse_u32(items[1]) is None {
        Err(Rejection::InvalidValue)
    } else if items.len() == 3 && items[2].len() == 0 {
        Err(Rejection::EmptyBeneficiary)
    } else {
        Ok(
            Instruction {
                action: action_named(items[0])->Some_0,
                value: parse_u32(items[1])->Some_0,
                beneficiary: if items.len() == 3 {
                    Some(decode_utf8(items[2]))
                } else {
                    None
                },
            },
        )
    }
}

/// A decoded instruction.
#[derive(Debug, PartialEq, Eq)]
pub struct SwPayload {
    action: Action,
    value: u32,
    beneficiary_pubkey: Option<String>,
}

impl View for SwPayload {
    type V = Instruction;

    closed spec fn view(&self) -> Instruction {
        Instruction {
            action: self.action,
            value: self.value,
            beneficiary: match self.beneficiary_pubkey {
                Some(name) => Some(name@),
                None => None,
            },
        }
    }
}

impl SwPayload {
    /// Decodes a payload. A payload that passes every check gives an
    /// instruction, and any other the rejection of the first check it fails.
    pub fn new(payload_data: &[u8]) -> (r: Result<Option<SwPayload>, WalletError>)
        ensures
            match decode(payload_data@) {
                Ok(instruction) => r matches Ok(Some(payload)) && payload@ == instruction,
                Err(rejection) => r matches Err(WalletError::InvalidTransaction(e)) && e
                    == rejection,
            },
    {
        let n: usize = payload_data.len();
        let ghost text = payload_data@;
        if utf8_text(payload_data).is_none() {
            return Err(WalletError::InvalidTransaction(Rejection::InvalidSerialization));
        }
        assert(text.subrange(0, n as int) == text);
        let first: usize = find_comma(payload_data, 0);
        proof {
            lemma_fields_from(text, 0, first as int);
        }
        if first == n {
            return Err(WalletError::InvalidTransaction(Rejection::TooFewFields));
        }
        let second: usize = find_comma(payload_data, first + 1);
        proof {
            lemma_fields_from(text, first + 1, second as int);
        }
        if second < n {
            let third: usize = find_comma(payload_data, second + 1);
            proof {
                lemma_fields_from(text, second + 1, third as int);
            }
            if third < n {
                proof {
                    lemma_fields_nonempty(text.subrange(third + 1, n as int));
                }
                return Err(WalletError::InvalidTransaction(Rejection::TooManyFields));
            }
        }
        assert(fields(text).len() == if second < n {
            3int
        } else {
            2int
        });
        assert(fields(text)[0] == text.subrange(0, first as int));
        assert(fields(text)[1] == text.subrange(first + 1, second as int));
        assert(second < n ==> fields(text)[2] == text.subrange(second + 1, n as int));

        let action_field = slice_subrange(payload_data, 0, first);
        if action_field.len() == 0 {
            return Err(WalletError::InvalidTransaction(Rejection::ActionRequired));
        }
        let action = match parse_action(action_field) {
            Some(action) => action,
            None => {
                return Err(WalletError::InvalidTransaction(Rejection::InvalidAction));
            },
        };
        let value: u32 = match parse_amount(slice_subrange(payload_data, first + 1, second)) {
            Some(value) => value,
            None => {
                return Err(WalletError::InvalidTransaction(Rejection::InvalidValue));
            },
        };
        let mut beneficiary_pubkey: Option<String> = None;
        if second < n {
            let name_field = slice_subrange(payload_data, second + 1, n);
            if name_field.len() == 0 {
                return Err(WalletError::InvalidTransaction(Rejection::EmptyBeneficiary));
            }
            proof {
                lemma_split_at_ascii(text, second as int);
            }
            match decode_text(name_field) {
                Some(name) => {
                    beneficiary_pubkey = Some(name);
                },
                None => {
                    return Err(WalletError::InvalidTransaction(Rejection::InvalidSerialization));
                },
            }
        }
        Ok(Some(SwPayload { action, value, beneficiary_pubkey }))
    }

    /// The action that the instruction asks for.
    pub fn get_action(&self) -> (r: Action)
        ensures
            r == self@.action,
    {
        self.action
    }

    /// The amount that the instruction names.
    pub fn get_value(&self) -> (r: u32)
        ensures
            r == self@.value,
    {
        self.value
    }

    /// The account that the instruction names as beneficiary, if it names one.
    pub fn get_beneficiary(&self) -> (r: &Option<String>)
        ensures
            r is Some <==> self@.beneficiary is Some,
            r matches Some(name) ==> self@.beneficiary == Some(name@),
    {
        &self.beneficiary_pubkey
    }
}

} // verus!
