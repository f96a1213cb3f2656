//! The rules of the ledger.
//!
//! Each operation is described here as a function of what the store holds:
//! either the writes that the operation makes, in order, or the error with
//! which it ends without writing anything.
use vstd::prelude::*;
use vstd::utf8::*;
use crate::address::address_of;
use crate::error::Rejection;
use crate::error::WalletError;
use crate::number::all_digits;
use crate::number::decimal_digits;
use crate::number::is_digit;
use crate::number::lemma_decimal_digits_value;
use crate::number::lemma_parse_formatted;
use crate::state::applied;
use crate::state::balance_write;
use crate::state::lemma_applied_one;
use crate::state::lemma_applied_two;
use crate::state::stored_value;
use crate::state::Entries;
use crate::state::Write;

verus! {

/// The balance of `account`: what is stored for it, and 0 if nothing is.
/// Stored bytes that are no balance are a fault.
pub open spec fn balance_result(entries: Entries, account: Seq<char>) -> Result<u32, WalletError> {
    match stored_value(entries, account) {
        Ok(Some(value)) => Ok(value),
        Ok(None) => Ok(0),
        Err(fault) => Err(WalletError::InternalError(fault)),
    }
}

/// A deposit adds `amount` to the balance of `account`. It is refused if the
/// sum does not fit in 32 bits.
pub open spec fn deposit_writes(entries: Entries, account: Seq<char>, amount: u32) -> Result<
    Seq<Write>,
    WalletError,
> {
    match balance_result(entries, account) {
        Err(error) => Err(error),
        Ok(current) => if current + amount > u32::MAX {
            Err(WalletError::InvalidTransaction(Rejection::BalanceOverflow))
        } else {
            Ok(seq![balance_write(account, (current + amount) as u32)])
        },
    }
}

/// A withdrawal takes `amount` from the balance of `account`. It is refused
/// if the account holds less.
pub open spec fn withdraw_writes(entries: Entries, account: Seq<char>, amount: u32) -> Result<
    Seq<Write>,
    WalletError,
> {
    match balance_result(entries, account) {
        Err(error) => Err(error),
        Ok(current) => if amount > current {
            Err(WalletError::InvalidTransaction(Rejection::WithdrawExceedsBalance))
        } else {
            Ok(seq![balance_write(account, (current - amount) as u32)])
        },
    }
}

/// A transfer takes `amount` from the balance of `sender` and adds it to
/// that of `beneficiary`. Both balances are read before either is written,
/// and the sender's is written first. It is refused if the sender holds less
/// than `amount`, or if the beneficiary's new balance does not fit in 32
/// bits.
pub open spec fn transfer_writes(
    entries: Entries,
    sender: Seq<char>,
    beneficiary: Seq<char>,
    amount: u32,
) -> Result<Seq<Write>, WalletError> {
    match balance_result(entries, sender) {
        Err(error) => Err(error),
        Ok(sender_balance) => match balance_result(entries, beneficiary) {
            Err(error) => Err(error),
            Ok(beneficiary_balance) => if amount > sender_balance {
                Err(WalletError::InvalidTransaction(Rejection::TransferExceedsBalance))
            } else if beneficiary_balance + amount > u32::MAX {
                Err(WalletError::InvalidTransaction(Rejection::BalanceOverflow))
            } else {
                Ok(
                    seq![
                        balance_write(sender, (sender_balance - amount) as u32),
                        balance_write(beneficiary, (beneficiary_balance + amount) as u32),
                    ],
                )
            },
        },
    }
}

/// Text that consists of digits is well-formed UTF-8.
proof fn lemma_digits_are_text(s: Seq<u8>)
    requires
        all_digits(s),
    ensures
        valid_utf8(s),
    decreases s.len(),
{
    if s.len() > 0 {
        let rest = s.subrange(1, s.len() as int);
        assert(is_digit(s[0]));
        assert forall|i: int| 0 <= i < rest.len() implies is_digit(#[trigger] rest[i]) by {
            assert(rest[i] == s[i + 1]);
        }
        lemma_digits_are_text(rest);
        assert(pop_first_scalar(s) == rest);
    }
}

/// A balance that has been written is the balance that is read.
pub proof fn lemma_balance_after_write(entries: Entries, account: Seq<char>, value: u32)
    ensures
        balance_result(entries.insert(address_of(account), decimal_digits(value as nat)), account)
            == Ok::<u32, WalletError>(value),
{
    lemma_decimal_digits_value(value as nat);
    lemma_parse_formatted(value);
    lemma_digits_are_text(decimal_digits(value as nat));
}

/// An account for which nothing is stored has the balance 0.
pub proof fn lemma_unknown_account_is_empty(entries: Entries, account: Seq<char>)
    requires
        !entries.contains_key(address_of(account)),
    ensures
        balance_result(entries, account) == Ok::<u32, WalletError>(0),
{
}

/// After a deposit the account holds what it held before and the amount
/// deposited. A deposit that would take the balance beyond 32 bits is
/// refused.
pub proof fn lemma_deposit_adds(entries: Entries, account: Seq<char>, before: u32, amount: u32)
    requires
        balance_result(entries, account) == Ok::<u32, WalletError>(before),
    ensures
        before + amount <= u32::MAX ==> deposit_writes(entries, account, amount) is Ok
            && balance_result(
            applied(entries, deposit_writes(entries, account, amount)->Ok_0),
            account,
        ) == Ok::<u32, WalletError>((before + amount) as u32),
        before + amount > u32::MAX ==> deposit_writes(entries, account, amount) == Err::<
            Seq<Write>,
            WalletError,
        >(WalletError::InvalidTransaction(Rejection::BalanceOverflow)),
{
    if before + amount <= u32::MAX {
        let value = (before + amount) as u32;
        lemma_applied_one(entries, balance_write(account, value));
        lemma_balance_after_write(entries, account, value);
    }
}

/// A withdrawal of no more than the account holds succeeds and leaves the
/// difference. A withdrawal of more is refused for want of funds.
pub proof fn lemma_withdraw_subtracts(
    entries: Entries,
    account: Seq<char>,
    current: u32,
    amount: u32,
)
    requires
        balance_result(entries, account) == Ok::<u32, WalletError>(current),
    ensures
        amount <= current ==> withdraw_writes(entries, account, amount) is Ok && balance_result(
            applied(entries, withdraw_writes(entries, account, amount)->Ok_0),
            account,
        ) == Ok::<u32, WalletError>((current - amount) as u32),
        amount > current ==> withdraw_writes(entries, account, amount) == Err::<
            Seq<Write>,
            WalletError,
        >(WalletError::InvalidTransaction(Rejection::WithdrawExceedsBalance)),
{
    if amount <= current {
        let value = (current - amount) as u32;
        lemma_applied_one(entries, balance_write(account, value));
        lemma_balance_after_write(entries, account, value);
    }
}

/// A transfer of more than the sender holds fails and writes nothing. If
/// the beneficiary's balance can be read, it is refused for want of funds.
pub proof fn lemma_transfer_needs_funds(
    entries: Entries,
    sender: Seq<char>,
    beneficiary: Seq<char>,
    sender_balance: u32,
    amount: u32,
)
    requires
        balance_result(entries, sender) == Ok::<u32, WalletError>(sender_balance),
        amount > sender_balance,
    ensures
        transfer_writes(entries, sender, beneficiary, amount) is Err,
        balance_result(entries, beneficiary) is Ok ==> transfer_writes(
            entries,
            sender,
            beneficiary,
            amount,
        ) == Err::<Seq<Write>, WalletError>(
            WalletError::InvalidTransaction(Rejection::TransferExceedsBalance),
        ),
{
}

/// A transfer between two accounts with different addresses, of no more than
/// the sender holds and no more than the beneficiary has room for, moves the
/// amount from one to the other: the sender has that much less, the
/// beneficiary that much more, and the two together hold what they held.
pub proof fn lemma_transfer_conserves(
    entries: Entries,
    sender: Seq<char>,
    beneficiary: Seq<char>,
    sender_balance: u32,
    beneficiary_balance: u32,
    amount: u32,
)
    requires
        balance_result(entries, sender) == Ok::<u32, WalletError>(sender_balance),
        balance_result(entries, beneficiary) == Ok::<u32, WalletError>(beneficiary_balance),
        amount <= sender_balance,
        beneficiary_balance + amount <= u32::MAX,
        address_of(sender) != address_of(beneficiary),
    ensures
        transfer_writes(entries, sender, beneficiary, amount) is Ok,
        ({
            let after = applied(
                entries,
                transfer_writes(entries, sender, beneficiary, amount)->Ok_0,
            );
            &&& balance_result(after, sender) == Ok::<u32, WalletError>(
                (sender_balance - amount) as u32,
            )
            &&& balance_result(after, beneficiary) == Ok::<u32, WalletError>(
                (beneficiary_balance + amount) as u32,
            )
            &&& (sender_balance - amount) + (beneficiary_balance + amount) == sender_balance
                + beneficiary_balance
        }),
{
    let debit = (sender_balance - amount) as u32;
    let credit = (beneficiary_balance + amount) as u32;
    let debited = entries.insert(address_of(sender), decimal_digits(debit as nat));
    lemma_applied_two(entries, balance_write(sender, debit), balance_write(beneficiary, credit));
    lemma_balance_after_write(entries, sender, debit);
    lemma_balance_after_write(debited, beneficiary, credit);
}

} // verus!
