//! Balances in the state store.
//!
//! The store maps addresses to byte strings. An account's balance is kept at
//! the account's address as decimal text, and an account for which nothing is
//! stored has the balance 0.
//!
//! An instruction works on an [`SwState`]: the entries of the store that it
//! reads, held in memory, together with a record of what it has written.
//! Whoever talks to the store loads the entries before the instruction is
//! carried out and sends the writes afterwards, in the order of the record.
use vstd::prelude::*;
use vstd::utf8::*;
use crate::address::address_of;
use crate::address::calculate_address;
use crate::error::Fault;
use crate::error::WalletError;
use crate::number::decimal_digits;
use crate::number::format_amount;
use crate::number::parse_amount;
use crate::number::parse_u32;
use crate::text::utf8_text;

verus! {

/// What the store holds: for each address that is set, its bytes.
pub type Entries = Map<Seq<char>, Seq<u8>>;

/// A write to the store: an address, and the bytes to set for it.
pub type Write = (Seq<char>, Seq<u8>);

/// An address with the bytes that are set for it.
#[derive(Debug, PartialEq, Eq)]
pub struct Entry {
    pub address: String,
    pub data: Vec<u8>,
}

impl View for Entry {
    type V = Write;

    open spec fn view(&self) -> Write {
        (self.address@, self.data@)
    }
}

/// The writes that a list of entries stands for.
pub open spec fn writes_of(items: Seq<Entry>) -> Seq<Write> {
    Seq::new(items.len(), |i: int| items[i]@)
}

/// The store after a sequence of writes, made in order.
pub open spec fn applied(entries: Entries, writes: Seq<Write>) -> Entries
    decreases writes.len(),
{
    if writes.len() == 0 {
        entries
    } else {
        applied(entries, writes.drop_last()).insert(writes.last().0, writes.last().1)
    }
}

/// The balance that stored bytes stand for.
pub open spec fn stored_amount(data: Seq<u8>) -> Result<u32, Fault> {
    if !valid_utf8(data) {
        Err(Fault::InvalidUtf8)
    } else {
        match parse_u32(data) {
            Some(value) => Ok(value),
            None => Err(Fault::InvalidBalance),
        }
    }
}

/// What is stored for `account`: nothing, a balance, or bytes that are no
/// balance.
pub open spec fn stored_value(entries: Entries, account: Seq<char>) -> Result<Option<u32>, Fault> {
    let address = address_of(account);
    if !entries.contains_key(address) {
        Ok(None)
    } else {
        match stored_amount(entries[address]) {
            Ok(value) => Ok(Some(value)),
            Err(fault) => Err(fault),
        }
    }
}

/// The write that sets the balance of `account` to `value`.
pub open spec fn balance_write(account: Seq<char>, value: u32) -> Write {
    (address_of(account), decimal_digits(value as nat))
}

/// Reads a balance from the bytes that are stored for it.
pub fn unpack_amount(data: &[u8]) -> (r: Result<u32, Fault>)
    ensures
        r == stored_amount(data@),
{
    if utf8_text(data).is_none() {
        return Err(Fault::InvalidUtf8);
    }
    match parse_amount(data) {
        Some(value) => Ok(value),
        None => Err(Fault::InvalidBalance),
    }
}

/// The store after one write.
pub proof fn lemma_applied_one(entries: Entries, write: Write)
    ensures
        applied(entries, seq![write]) == entries.insert(write.0, write.1),
{
    assert(seq![write].drop_last() == Seq::<Write>::empty());
    assert(applied(entries, seq![write].drop_last()) == entries);
}

/// The store after two writes.
pub proof fn lemma_applied_two(entries: Entries, first: Write, second: Write)
    ensures
        applied(entries, seq![first, second]) == entries.insert(first.0, first.1).insert(
            second.0,
            second.1,
        ),
{
    assert(seq![first, second].drop_last() == seq![first]);
    lemma_applied_one(entries, first);
}

/// Making one write after others is an insertion into what they left.
pub proof fn lemma_applied_push(entries: Entries, writes: Seq<Write>, write: Write)
    ensures
        applied(entries, writes.push(write)) == applied(entries, writes).insert(write.0, write.1),
{
    assert(writes.push(write).drop_last() == writes);
}

/// Making two sequences of writes one after the other is making them all.
pub proof fn lemma_applied_concat(entries: Entries, first: Seq<Write>, second: Seq<Write>)
    ensures
        applied(entries, first + second) == applied(applied(entries, first), second),
    decreases second.len(),
{
    if second.len() == 0 {
        assert(first + second == first);
    } else {
        lemma_applied_concat(entries, first, second.drop_last());
        assert((first + second).drop_last() == first + second.drop_last());
    }
}

/// An address that no write names is left as it was.
proof fn lemma_untouched(writes: Seq<Write>, address: Seq<char>)
    requires
        forall|j: int| 0 <= j < writes.len() ==> (#[trigger] writes[j]).0 != address,
    ensures
        !applied(Entries::empty(), writes).contains_key(address),
    decreases writes.len(),
{
    if writes.len() > 0 {
        lemma_untouched(writes.drop_last(), address);
    }
}

/// The last write to an address decides what the store holds for it.
proof fn lemma_last_write(writes: Seq<Write>, at: int)
    requires
        0 <= at < writes.len(),
        forall|j: int| at < j < writes.len() ==> (#[trigger] writes[j]).0 != writes[at].0,
    ensures
        applied(Entries::empty(), writes).contains_key(writes[at].0),
        applied(Entries::empty(), writes)[writes[at].0] == writes[at].1,
    decreases writes.len(),
{
    if at < writes.len() - 1 {
        lemma_last_write(writes.drop_last(), at);
    }
}

/// Replacing the last write to an address by another to the same address
/// is as good as making the other after all of them.
proof fn lemma_replace_write(writes: Seq<Write>, at: int, write: Write)
    requires
        0 <= at < writes.len(),
        write.0 == writes[at].0,
        forall|j: int| at < j < writes.len() ==> (#[trigger] writes[j]).0 != writes[at].0,
    ensures
        applied(Entries::empty(), writes.update(at, write)) == applied(
            Entries::empty(),
            writes,
        ).insert(write.0, write.1),
    decreases writes.len(),
{
    let updated = writes.update(at, write);
    let target = applied(Entries::empty(), writes).insert(write.0, write.1);
    if at == writes.len() - 1 {
        assert(updated.drop_last() == writes.drop_last());
        assert(applied(Entries::empty(), updated) =~= target);
    } else {
        lemma_replace_write(writes.drop_last(), at, write);
        assert(updated.drop_last() == writes.drop_last().update(at, write));
        assert(updated.last() == writes.last());
        assert(writes.last().0 != write.0);
        assert(applied(Entries::empty(), updated) =~= target);
    }
}

/// The part of the store that an instruction works on.
pub struct SwState {
    /// What the store holds, one item for each address that is set.
    items: Vec<Entry>,
    /// What has been written, in order.
    writes: Vec<Entry>,
}

impl SwState {
    /// What the store holds.
    pub closed spec fn entries(&self) -> Entries {
        applied(Entries::empty(), writes_of(self.items@))
    }

    /// What has been written through `set`, in order.
    pub closed spec fn written(&self) -> Seq<Write> {
        writes_of(self.writes@)
    }

    /// Whether the store is `before` with `writes` made on it and added to
    /// its record.
    pub open spec fn follows(&self, before: &SwState, writes: Seq<Write>) -> bool {
        &&& self.entries() == applied(before.entries(), writes)
        &&& self.written() == before.written() + writes
    }

    /// A state follows itself with no write made.
    pub proof fn lemma_follows_itself(&self)
        ensures
            self.follows(self, Seq::<Write>::empty()),
    {
        assert(self.written() + Seq::<Write>::empty() =~= self.written());
    }

    /// What follows a state that follows another, follows that other with
    /// the writes of both, one after the other.
    pub proof fn lemma_follows_chain(
        &self,
        middle: &SwState,
        before: &SwState,
        first: Seq<Write>,
        second: Seq<Write>,
    )
        requires
            middle.follows(before, first),
            self.follows(middle, second),
        ensures
            self.follows(before, first + second),
    {
        lemma_applied_concat(before.entries(), first, second);
        assert(before.written() + (first + second) =~= (before.written() + first) + second);
    }

    /// A store in which nothing is set and nothing has been written.
    pub fn new() -> (r: SwState)
        ensures
            r.entries() == Entries::empty(),
            r.written() == Seq::<Write>::empty(),
    {
        let r = SwState { items: Vec::new(), writes: Vec::new() };
        assert(writes_of(r.items@) =~= Seq::<Write>::empty());
        assert(writes_of(r.writes@) =~= Seq::<Write>::empty());
        r
    }

    /// The position of the item with `address`, if there is one.
    fn find(&self, address: &String) -> (r: Option<usize>)
        ensures
            match r {
                Some(at) => at < self.items@.len() && self.items@[at as int].address@ == address@
                    && forall|j: int|
                    at < j < self.items@.len() ==> (#[trigger] self.items@[j]).address@
                        != address@,
                None => forall|j: int|
                    0 <= j < self.items@.len() ==> (#[trigger] self.items@[j]).address@
                        != address@,
            },
    {
        let mut i: usize = self.items.len();
        while i > 0
            invariant
                i <= self.items@.len(),
                forall|j: int|
                    i <= j < self.items@.len() ==> (#[trigger] self.items@[j]).address@
                        != address@,
            decreases i,
        {
            i = i - 1;
            if self.items[i].address == *address {
                return Some(i);
            }
        }
        None
    }

    /// Takes in an entry that was read from the store. It replaces what the
    /// state held for the address, and is not recorded as a write.
    pub fn load(&mut self, address: String, data: Vec<u8>)
        ensures
            final(self).entries() == old(self).entries().insert(address@, data@),
            final(self).written() == old(self).written(),
    {
        let ghost before = writes_of(self.items@);
        match self.find(&address) {
            Some(at) => {
                let entry = Entry { address, data };
                proof {
                    assert(before[at as int] == self.items@[at as int]@);
                    assert forall|j: int| at < j < before.len() implies (#[trigger] before[j]).0
                        != before[at as int].0 by {
                        assert(before[j] == self.items@[j]@);
                    }
                    lemma_replace_write(before, at as int, entry@);
                }
                self.items.set(at, entry);
                assert(writes_of(self.items@) =~= before.update(at as int, entry@));
            },
            None => {
                let entry = Entry { address, data };
                proof {
                    lemma_applied_push(Entries::empty(), before, entry@);
                }
                self.items.push(entry);
                assert(writes_of(self.items@) =~= before.push(entry@));
            },
        }
    }

    /// The bytes that are set at `address`, if any are.
    pub fn entry(&self, address: &str) -> (r: Option<&Vec<u8>>)
        ensures
            r is Some <==> self.entries().contains_key(address@),
            r matches Some(data) ==> data@ == self.entries()[address@],
    {
        let key = address.to_owned();
        let ghost writes = writes_of(self.items@);
        match self.find(&key) {
            Some(at) => {
                proof {
                    assert(writes[at as int] == self.items@[at as int]@);
                    assert forall|j: int| at < j < writes.len() implies (#[trigger] writes[j]).0
                        != writes[at as int].0 by {
                        assert(writes[j] == self.items@[j]@);
                    }
                    lemma_last_write(writes, at as int);
                }
                Some(&self.items[at].data)
            },
            None => {
                proof {
                    assert forall|j: int| 0 <= j < writes.len() implies (#[trigger] writes[j]).0
                        != address@ by {
                        assert(writes[j] == self.items@[j]@);
                    }
                    lemma_untouched(writes, address@);
                }
                None
            },
        }
    }

    /// What has been written, in order.
    pub fn writes(&self) -> (r: &Vec<Entry>)
        ensures
            writes_of(r@) == self.written(),
    {
        &self.writes
    }

    /// Reads what is stored for the account `name`, and changes nothing.
    pub fn get(&mut self, name: &str) -> (r: Result<Option<u32>, WalletError>)
        ensures
            *final(self) == *old(self),
            match stored_value(old(self).entries(), name@) {
                Ok(found) => r == Ok::<Option<u32>, WalletError>(found),
                Err(fault) => r == Err::<Option<u32>, WalletError>(
                    WalletError::InternalError(fault),
                ),
            },
    {
        let address = calculate_address(name);
        match self.entry(address.as_str()) {
            None => Ok(None),
            Some(data) => match unpack_amount(data.as_slice()) {
                Ok(value) => Ok(Some(value)),
                Err(fault) => Err(WalletError::InternalError(fault)),
            },
        }
    }

    /// Stores `value` as the balance of the account `name`, and records the
    /// write.
    pub fn set(&mut self, name: &str, value: u32) -> (r: Result<(), WalletError>)
        ensures
            r is Ok,
            final(self).follows(old(self), seq![balance_write(name@, value)]),
    {
        let ghost write = balance_write(name@, value);
        let ghost record = writes_of(self.writes@);
        let address = calculate_address(name);
        let data = format_amount(value);
        self.writes.push(Entry { address: address.clone(), data: data.clone() });
        assert(writes_of(self.writes@) =~= record + seq![write]);
        self.load(address, data);
        proof {
            lemma_applied_one(old(self).entries(), write);
        }
        Ok(())
    }
}

} // verus!
