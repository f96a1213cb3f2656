//! Storage addresses.
//!
//! Every account has one address in the state store: a prefix that all
//! accounts of this ledger share, followed by a digest of the account's name.
//! The prefix keeps the ledger's entries apart from those of other users of
//! the same store.
use vstd::prelude::*;
use vstd::string::*;
use vstd::utf8::*;
use crypto::digest::Digest;
use crypto::sha2::Sha512;

verus! {

/// The SHA-512 digest of the UTF-8 bytes of `input`, in hexadecimal.
pub uninterp spec fn sha512_hex(input: Seq<char>) -> Seq<char>;

/// Whether `c` is a digit of lower-case hexadecimal.
pub open spec fn is_hex_digit(c: char) -> bool {
    ('0' <= c <= '9') || ('a' <= c <= 'f')
}

/// Whether `text` is written in lower-case hexadecimal.
pub open spec fn is_hex_text(text: Seq<char>) -> bool {
    forall|i: int| 0 <= i < text.len() ==> is_hex_digit(#[trigger] text[i])
}

/// The number of characters in a digest.
pub const DIGEST_LEN: usize = 128;

/// The number of characters in the prefix of every address.
pub const PREFIX_LEN: usize = 6;

/// The number of characters that an address takes from an account's digest.
pub const NAME_LEN: usize = 64;

/// The number of characters in an address.
pub const ADDRESS_LEN: usize = 70;

/// Computes the digest of a text.
///
/// Feeds the text to `crypto::sha2::Sha512` through `Digest::input_str` and
/// takes the result from `Digest::result_str`. The result depends on the
/// text alone. `result_str` writes two characters for each of the 64 bytes
/// of the digest, each taken from `0123456789abcdef`.
#[verifier::external_body]
pub(crate) fn sha512_digest(input: &str) -> (digest: String)
    ensures
        digest@ == sha512_hex(input@),
        digest@.len() == DIGEST_LEN,
        is_hex_text(digest@),
{
    let mut sha = Sha512::new();
    sha.input_str(input);
    sha.result_str()
}

/// The prefix that a digest of the family's name gives: its first
/// characters.
pub open spec fn prefix_from(family_digest: Seq<char>) -> Seq<char> {
    family_digest.subrange(0, PREFIX_LEN as int)
}

/// The address that two digests give: the prefix from that of the family's
/// name, then the first characters of that of the account's name.
pub open spec fn address_from(family_digest: Seq<char>, account_digest: Seq<char>) -> Seq<char> {
    prefix_from(family_digest) + account_digest.subrange(0, NAME_LEN as int)
}

/// The name from which the ledger's prefix is derived.
pub open spec fn family_name() -> Seq<char> {
    "simplewallet"@
}

/// The prefix of every address of this ledger.
pub open spec fn namespace_prefix() -> Seq<char> {
    prefix_from(sha512_hex(family_name()))
}

/// The address under which the balance of `account` is stored.
pub open spec fn address_of(account: Seq<char>) -> Seq<char> {
    address_from(sha512_hex(family_name()), sha512_hex(account))
}

/// Hexadecimal text is ASCII text.
proof fn lemma_hex_is_ascii(text: Seq<char>)
    requires
        is_hex_text(text),
    ensures
        is_ascii_chars(text),
{
    assert forall|i: int| 0 <= i < text.len() implies '\0' <= #[trigger] text[i] <= '\u{7f}' by {
        assert(is_hex_digit(text[i]));
    }
}

/// Cuts the prefix out of a digest of the family's name.
pub fn cut_prefix(family_digest: &str) -> (r: String)
    requires
        is_hex_text(family_digest@),
        family_digest@.len() >= PREFIX_LEN,
    ensures
        r@ == prefix_from(family_digest@),
{
    proof {
        lemma_hex_is_ascii(family_digest@);
    }
    family_digest.substring_ascii(0, PREFIX_LEN).to_owned()
}

/// Puts an address together from a digest of the family's name and a digest
/// of the account's name.
pub fn join_address(family_digest: &str, account_digest: &str) -> (r: String)
    requires
        is_hex_text(family_digest@),
        family_digest@.len() >= PREFIX_LEN,
        is_hex_text(account_digest@),
        account_digest@.len() >= NAME_LEN,
    ensures
        r@ == address_from(family_digest@, account_digest@),
        r@.len() == ADDRESS_LEN,
        is_hex_text(r@),
{
    proof {
        lemma_hex_is_ascii(account_digest@);
    }
    let tail = account_digest.substring_ascii(0, NAME_LEN);
    cut_prefix(family_digest).concat(tail)
}

/// The prefix of every address of this ledger.
pub fn get_sw_prefix() -> (r: String)
    ensures
        r@ == namespace_prefix(),
        r@.len() == PREFIX_LEN,
        is_hex_text(r@),
{
    let family_digest = sha512_digest("simplewallet");
    cut_prefix(family_digest.as_str())
}

/// The address under which the balance of `name` is stored.
pub fn calculate_address(name: &str) -> (r: String)
    ensures
        r@ == address_of(name@),
        r@.len() == ADDRESS_LEN,
        is_hex_text(r@),
{
    let family_digest = sha512_digest("simplewallet");
    let account_digest = sha512_digest(name);
    join_address(family_digest.as_str(), account_digest.as_str())
}

/// The same account has the same address, whenever it is asked for.
pub proof fn lemma_address_is_a_function(first: Seq<char>, second: Seq<char>)
    requires
        first == second,
    ensures
        address_of(first) == address_of(second),
{
}

} // verus!
