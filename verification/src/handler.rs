//! The handler that carries out instructions.
//!
//! A request is handled in three steps, of which the handler does the
//! first and the second. `addresses` names the entries of the store that the
//! request reads. With these loaded into an [`SwState`], `apply` carries the
//! instruction out on that state. The writes that `apply` has recorded are
//! then sent to the store.
use vstd::prelude::*;
use vstd::string::*;
use crate::address::address_of;
use crate::address::calculate_address;
use crate::address::family_name;
use crate::address::get_sw_prefix;
use crate::address::namespace_prefix;
use crate::error::Rejection;
use crate::error::WalletError;
use crate::ledger::balance_result;
use crate::ledger::deposit_writes;
use crate::ledger::transfer_writes;
use crate::ledger::withdraw_writes;
use crate::payload::decode;
use crate::payload::Action;
use crate::payload::SwPayload;
use crate::state::Entries;
use crate::state::SwState;
use crate::state::Write;

verus! {

/// A request to carry out one instruction.
pub struct ProcessRequest {
    /// The account that signed the request, if the request says so.
    pub signer_public_key: Option<String>,
    /// The instruction, as it arrived.
    pub payload: Vec<u8>,
}

/// The signer that a request names, if it names one.
pub open spec fn signer_of(request: &ProcessRequest) -> Option<Seq<char>> {
    match request.signer_public_key {
        Some(signer) => Some(signer@),
        None => None,
    }
}

/// The accounts whose balances a request reads, in the order in which it
/// reads them: the signer's, and for a transfer the beneficiary's. A request
/// that is refused before it reads anything gives the error instead.
pub open spec fn accounts_read(signer: Option<Seq<char>>, payload: Seq<u8>) -> Result<
    Seq<Seq<char>>,
    WalletError,
> {
    match signer {
        None => Err(WalletError::InvalidTransaction(Rejection::InvalidHeader)),
        Some(customer) => match decode(payload) {
            Err(rejection) => Err(WalletError::InvalidTransaction(rejection)),
            Ok(instruction) => match instruction.action {
                Action::Transfer => match instruction.beneficiary {
                    None => Err(WalletError::InvalidTransaction(Rejection::MissingBeneficiary)),
                    Some(beneficiary) => Ok(seq![customer, beneficiary]),
                },
                _ => Ok(seq![customer]),
            },
        },
    }
}

/// What a request leads to: the writes that it makes, in order, together
/// with the balance to report if the instruction asked for one; or the error
/// with which it is refused.
pub open spec fn apply_outcome(
    entries: Entries,
    signer: Option<Seq<char>>,
    payload: Seq<u8>,
) -> Result<(Seq<Write>, Option<u32>), WalletError> {
    match signer {
        None => Err(WalletError::InvalidTransaction(Rejection::InvalidHeader)),
        Some(customer) => match decode(payload) {
            Err(rejection) => Err(WalletError::InvalidTransaction(rejection)),
            Ok(instruction) => match instruction.action {
                Action::Deposit => match deposit_writes(entries, customer, instruction.value) {
                    Ok(writes) => Ok((writes, None)),
                    Err(error) => Err(error),
                },
                Action::Withdraw => match withdraw_writes(entries, customer, instruction.value) {
                    Ok(writes) => Ok((writes, None)),
                    Err(error) => Err(error),
                },
                Action::Balance => match balance_result(entries, customer) {
                    Ok(balance) => Ok((Seq::empty(), Some(balance))),
                    Err(error) => Err(error),
                },
                Action::Transfer => match instruction.beneficiary {
                    None => Err(WalletError::InvalidTransaction(Rejection::MissingBeneficiary)),
                    Some(beneficiary) => match transfer_writes(
                        entries,
                        customer,
                        beneficiary,
                        instruction.value,
                    ) {
                        Ok(writes) => Ok((writes, None)),
                        Err(error) => Err(error),
                    },
                },
            },
        },
    }
}

/// Whether two stores hold the same for `address`.
pub open spec fn same_entry(first: Entries, second: Entries, address: Seq<char>) -> bool {
    &&& first.contains_key(address) == second.contains_key(address)
    &&& first.contains_key(address) ==> first[address] == second[address]
}

/// A request that is refused before it reads anything is refused in the
/// same way whatever the store holds.
pub proof fn lemma_refused_before_reading(
    entries: Entries,
    signer: Option<Seq<char>>,
    payload: Seq<u8>,
)
    requires
        accounts_read(signer, payload) is Err,
    ensures
        apply_outcome(entries, signer, payload) == Err::<(Seq<Write>, Option<u32>), WalletError>(
            accounts_read(signer, payload)->Err_0,
        ),
{
}

/// What a request leads to depends on the store only in the entries of the
/// accounts that it reads: on two stores that hold the same for these, it
/// leads to the same.
pub proof fn lemma_outcome_depends_on_accounts_read(
    first: Entries,
    second: Entries,
    signer: Option<Seq<char>>,
    payload: Seq<u8>,
)
    requires
        accounts_read(signer, payload) is Ok,
        forall|i: int|
            0 <= i < accounts_read(signer, payload)->Ok_0.len() ==> same_entry(
                first,
                second,
                address_of(#[trigger] accounts_read(signer, payload)->Ok_0[i]),
            ),
    ensures
        apply_outcome(first, signer, payload) == apply_outcome(second, signer, payload),
{
    let accounts = accounts_read(signer, payload)->Ok_0;
    assert(same_entry(first, second, address_of(accounts[0])));
    if accounts.len() > 1 {
        assert(same_entry(first, second, address_of(accounts[1])));
    }
}

/// A copy of a list of texts.
fn copy_of(texts: &Vec<String>) -> (r: Vec<String>)
    ensures
        r.deep_view() == texts.deep_view(),
{
    let mut copy: Vec<String> = Vec::new();
    let mut i: usize = 0;
    while i < texts.len()
        invariant
            i <= texts@.len(),
            copy@.len() == i,
            forall|j: int| 0 <= j < i ==> copy@[j]@ == texts@[j]@,
        decreases texts@.len() - i,
    {
        copy.push(texts[i].clone());
        i = i + 1;
    }
    assert(copy.deep_view() =~= texts.deep_view());
    copy
}

/// The handler of the wallet's instructions.
pub struct SwTransactionHandler {
    family_name: String,
    family_versions: Vec<String>,
    namespaces: Vec<String>,
}

impl SwTransactionHandler {
    /// The name of the family of instructions that the handler serves.
    pub closed spec fn name(&self) -> Seq<char> {
        self.family_name@
    }

    /// The versions of the family that the handler serves.
    pub closed spec fn versions(&self) -> Seq<Seq<char>> {
        self.family_versions.deep_view()
    }

    /// The prefixes of the addresses that the handler reads and writes.
    pub closed spec fn prefixes(&self) -> Seq<Seq<char>> {
        self.namespaces.deep_view()
    }

    /// A handler for the wallet's family of instructions, in its version
    /// `1.0`, with the ledger's one prefix.
    pub fn new() -> (r: SwTransactionHandler)
        ensures
            r.name() == family_name(),
            r.versions() == seq!["1.0"@],
            r.prefixes() == seq![namespace_prefix()],
    {
        let mut family_versions: Vec<String> = Vec::new();
        family_versions.push(String::from_str("1.0"));
        let mut namespaces: Vec<String> = Vec::new();
        namespaces.push(get_sw_prefix());
        assert(family_versions.deep_view() =~= seq!["1.0"@]);
        assert(namespaces.deep_view() =~= seq![namespace_prefix()]);
        SwTransactionHandler {
            family_name: String::from_str("simplewallet"),
            family_versions,
            namespaces,
        }
    }

    /// The name of the family of instructions that the handler serves.
    pub fn family_name(&self) -> (r: String)
        ensures
            r@ == self.name(),
    {
        self.family_name.clone()
    }

    /// The versions of the family that the handler serves.
    pub fn family_versions(&self) -> (r: Vec<String>)
        ensures
            r.deep_view() == self.versions(),
    {
        copy_of(&self.family_versions)
    }

    /// The prefixes of the addresses that the handler reads and writes.
    pub fn namespaces(&self) -> (r: Vec<String>)
        ensures
            r.deep_view() == self.prefixes(),
    {
        copy_of(&self.namespaces)
    }

    /// The addresses of the entries that a request reads, in the order in
    /// which it reads them; or, for a request that is refused before it reads
    /// anything, the error.
    pub fn addresses(&self, request: &ProcessRequest) -> (r: Result<Vec<String>, WalletError>)
        ensures
            match accounts_read(signer_of(request), request.payload@) {
                Ok(accounts) => r matches Ok(addresses) && addresses.deep_view() == Seq::new(
                    accounts.len(),
                    |i: int| address_of(accounts[i]),
                ),
                Err(error) => r == Err::<Vec<String>, WalletError>(error),
            },
    {
        let customer_pubkey = match &request.signer_public_key {
            Some(signer) => signer.as_str(),
            None => {
                return Err(WalletError::InvalidTransaction(Rejection::InvalidHeader));
            },
        };
        let payload = match SwPayload::new(request.payload.as_slice())? {
            Some(payload) => payload,
            None => {
                return Err(WalletError::InvalidTransaction(Rejection::MissingPayload));
            },
        };
        let mut addresses: Vec<String> = Vec::new();
        addresses.push(calculate_address(customer_pubkey));
        match payload.get_action() {
            Action::Transfer => match payload.get_beneficiary() {
                Some(beneficiary) => {
                    addresses.push(calculate_address(beneficiary.as_str()));
                },
                None => {
                    return Err(WalletError::InvalidTransaction(Rejection::MissingBeneficiary));
                },
            },
            _ => {},
        }
        proof {
            let accounts = accounts_read(signer_of(request), request.payload@)->Ok_0;
            assert(addresses.deep_view() =~= Seq::new(
                accounts.len(),
                |i: int| address_of(accounts[i]),
            ));
        }
        Ok(addresses)
    }

    /// Reads the balance of an account, and changes nothing.
    pub fn balance(&self, state: &mut SwState, customer_pubkey: &str) -> (r: Result<
        u32,
        WalletError,
    >)
        ensures
            *final(state) == *old(state),
            r == balance_result(old(state).entries(), customer_pubkey@),
    {
        match state.get(customer_pubkey) {
            Ok(Some(value)) => Ok(value),
            Ok(None) => Ok(0),
            Err(error) => Err(error),
        }
    }

    /// Adds `deposit_amount` to the balance of an account.
    ///
    /// Makes the write of `deposit_writes`, or ends with its error and
    /// changes nothing.
    pub fn deposit(&self, state: &mut SwState, customer_pubkey: &str, deposit_amount: u32) -> (r:
        Result<(), WalletError>)
        ensures
            match deposit_writes(old(state).entries(), customer_pubkey@, deposit_amount) {
                Ok(writes) => r is Ok && final(state).follows(old(state), writes),
                Err(error) => r == Err::<(), WalletError>(error) && *final(state) == *old(state),
            },
    {
        let current_balance: u32 = self.balance(state, customer_pubkey)?;
        if deposit_amount > u32::MAX - current_balance {
            return Err(WalletError::InvalidTransaction(Rejection::BalanceOverflow));
        }
        let new_balance: u32 = current_balance + deposit_amount;
        state.set(customer_pubkey, new_balance)
    }

    /// Takes `withdraw_amount` from the balance of an account.
    ///
    /// Makes the write of `withdraw_writes`, or ends with its error and
    /// changes nothing.
    pub fn withdraw(&self, state: &mut SwState, customer_pubkey: &str, withdraw_amount: u32) -> (r:
        Result<(), WalletError>)
        ensures
            match withdraw_writes(old(state).entries(), customer_pubkey@, withdraw_amount) {
                Ok(writes) => r is Ok && final(state).follows(old(state), writes),
                Err(error) => r == Err::<(), WalletError>(error) && *final(state) == *old(state),
            },
    {
        let current_balance: u32 = self.balance(state, customer_pubkey)?;
        if withdraw_amount > current_balance {
            return Err(WalletError::InvalidTransaction(Rejection::WithdrawExceedsBalance));
        }
        let new_balance: u32 = current_balance - withdraw_amount;
        state.set(customer_pubkey, new_balance)
    }

    /// Moves `transfer_amount` from the balance of one account to that of
    /// another.
    ///
    /// Both balances are read and checked before anything is written. Makes
    /// the two writes of `transfer_writes`, the sender's first, or ends with
    /// its error and changes nothing.
    pub fn transfer(
        &self,
        state: &mut SwState,
        customer_pubkey: &str,
        beneficiary_pubkey: &str,
        transfer_amount: u32,
    ) -> (r: Result<(), WalletError>)
        ensures
            match transfer_writes(
                old(state).entries(),
                customer_pubkey@,
                beneficiary_pubkey@,
                transfer_amount,
            ) {
                Ok(writes) => r is Ok && final(state).follows(old(state), writes),
                Err(error) => r == Err::<(), WalletError>(error) && *final(state) == *old(state),
            },
    {
        let current_balance: u32 = self.balance(state, customer_pubkey)?;
        let beneficiary_balance: u32 = self.balance(state, beneficiary_pubkey)?;
        if transfer_amount > current_balance {
            return Err(WalletError::InvalidTransaction(Rejection::TransferExceedsBalance));
        }
        if transfer_amount > u32::MAX - beneficiary_balance {
            return Err(WalletError::InvalidTransaction(Rejection::BalanceOverflow));
        }
        let ghost before = *state;
        state.set(customer_pubkey, current_balance - transfer_amount)?;
        let ghost debited = *state;
        state.set(beneficiary_pubkey, beneficiary_balance + transfer_amount)?;
        proof {
            let writes = transfer_writes(
                before.entries(),
                customer_pubkey@,
                beneficiary_pubkey@,
                transfer_amount,
            )->Ok_0;
            state.lemma_follows_chain(&debited, &before, seq![writes[0]], seq![writes[1]]);
            assert(seq![writes[0]] + seq![writes[1]] =~= writes);
        }
        Ok(())
    }

    /// Carries out the instruction of a request on behalf of its signer, and
    /// returns the signer's balance if the instruction asked for it.
    ///
    /// Makes the writes of `apply_outcome`, or ends with its error and
    /// changes nothing.
    pub fn apply(&self, request: &ProcessRequest, state: &mut SwState) -> (r: Result<
        Option<u32>,
        WalletError,
    >)
        ensures
            match apply_outcome(old(state).entries(), signer_of(request), request.payload@) {
                Ok((writes, report)) => r == Ok::<Option<u32>, WalletError>(report)
                    && final(state).follows(old(state), writes),
                Err(error) => r == Err::<Option<u32>, WalletError>(error)
                    && *final(state) == *old(state),
            },
    {
        let customer_pubkey = match &request.signer_public_key {
            Some(signer) => signer.as_str(),
            None => {
                return Err(WalletError::InvalidTransaction(Rejection::InvalidHeader));
            },
        };
        let payload = match SwPayload::new(request.payload.as_slice())? {
            Some(payload) => payload,
            None => {
                return Err(WalletError::InvalidTransaction(Rejection::MissingPayload));
            },
        };
        match payload.get_action() {
            Action::Deposit => {
                self.deposit(state, customer_pubkey, payload.get_value())?;
                Ok(None)
            },
            Action::Withdraw => {
                self.withdraw(state, customer_pubkey, payload.get_value())?;
                Ok(None)
            },
            Action::Balance => {
                let current_balance: u32 = self.balance(state, customer_pubkey)?;
                proof {
                    state.lemma_follows_itself();
                }
                Ok(Some(current_balance))
            },
            Action::Transfer => {
                let beneficiary_pubkey = match payload.get_beneficiary() {
                    Some(beneficiary) => beneficiary.as_str(),
                    None => {
                        return Err(
                            WalletError::InvalidTransaction(Rejection::MissingBeneficiary),
                        );
                    },
                };
                self.transfer(state, customer_pubkey, beneficiary_pubkey, payload.get_value())?;
                Ok(None)
            },
        }
    }
}

} // verus!
