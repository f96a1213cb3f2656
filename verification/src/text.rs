//! Text as bytes: UTF-8 validity and comma-separated fields.
//!
//! A comma is a single byte in UTF-8 and never part of a longer character, so
//! a line of text is split into its fields on the bytes themselves.
use vstd::prelude::*;
use vstd::slice::*;
use vstd::string::*;
use vstd::utf8::*;

verus! {

/// The byte of the character `,`.
pub const COMMA: u8 = 0x2c;

/// Where the first comma of `s` stands; the length of `s` if it has none.
pub open spec fn first_comma(s: Seq<u8>) -> nat
    decreases s.len(),
{
    if s.len() == 0 || s[0] == COMMA {
        0
    } else {
        1 + first_comma(s.drop_first())
    }
}

/// The fields of `s`: the stretches between its commas, in order. A text
/// with n commas has n + 1 fields, some of which may be empty.
pub open spec fn fields(s: Seq<u8>) -> Seq<Seq<u8>>
    decreases s.len(),
{
    let i = first_comma(s) as int;
    if i >= s.len() {
        seq![s]
    } else {
        seq![s.subrange(0, i)] + fields(s.subrange(i + 1, s.len() as int))
    }
}

/// `first_comma` is the least index that holds a comma.
pub proof fn lemma_first_comma(s: Seq<u8>)
    ensures
        first_comma(s) <= s.len(),
        first_comma(s) < s.len() ==> s[first_comma(s) as int] == COMMA,
        forall|j: int| 0 <= j < first_comma(s) ==> #[trigger] s[j] != COMMA,
    decreases s.len(),
{
    if s.len() == 0 || s[0] == COMMA {
    } else {
        let rest = s.drop_first();
        lemma_first_comma(rest);
        assert forall|j: int| 0 <= j < first_comma(s) implies #[trigger] s[j] != COMMA by {
            if j > 0 {
                assert(s[j] == rest[j - 1]);
            }
        }
    }
}

/// An index that holds a comma, with none before it, is `first_comma`.
proof fn lemma_first_comma_is(s: Seq<u8>, k: int)
    requires
        0 <= k <= s.len(),
        k < s.len() ==> s[k] == COMMA,
        forall|j: int| 0 <= j < k ==> #[trigger] s[j] != COMMA,
    ensures
        first_comma(s) == k,
{
    lemma_first_comma(s);
    let f = first_comma(s) as int;
    if f < k {
        assert(s[f] == COMMA);
    } else if k < f {
        assert(s[k] != COMMA);
    }
}

/// Every text has at least one field.
pub proof fn lemma_fields_nonempty(s: Seq<u8>)
    ensures
        fields(s).len() >= 1,
    decreases s.len(),
{
    let i = first_comma(s) as int;
    if i < s.len() {
        lemma_fields_nonempty(s.subrange(i + 1, s.len() as int));
    }
}

/// The fields of what follows position `from`, given where its first comma
/// stands: one field up to the comma, then the fields of what follows it.
pub proof fn lemma_fields_from(s: Seq<u8>, from: int, at: int)
    requires
        0 <= from <= at <= s.len(),
        at - from == first_comma(s.subrange(from, s.len() as int)),
    ensures
        at == s.len() ==> fields(s.subrange(from, s.len() as int)) == seq![
            s.subrange(from, s.len() as int),
        ],
        at < s.len() ==> fields(s.subrange(from, s.len() as int)) == seq![s.subrange(from, at)]
            + fields(s.subrange(at + 1, s.len() as int)),
{
    let tail = s.subrange(from, s.len() as int);
    if at < s.len() {
        assert(tail.subrange(0, at - from) == s.subrange(from, at));
        assert(tail.subrange(at - from + 1, tail.len() as int) == s.subrange(
            at + 1,
            s.len() as int,
        ));
    }
}

/// The position of the first comma at or after `from`; the length of `bytes`
/// if there is none.
pub fn find_comma(bytes: &[u8], from: usize) -> (r: usize)
    requires
        from <= bytes@.len(),
    ensures
        from <= r <= bytes@.len(),
        r - from == first_comma(bytes@.subrange(from as int, bytes@.len() as int)),
        r < bytes@.len() ==> bytes@[r as int] == COMMA,
{
    let n: usize = bytes.len();
    let ghost tail = bytes@.subrange(from as int, n as int);
    let mut i: usize = from;
    while i < n && bytes[i] != COMMA
        invariant
            from <= i <= n,
            n == bytes@.len(),
            tail == bytes@.subrange(from as int, n as int),
            forall|j: int| 0 <= j < i - from ==> #[trigger] tail[j] != COMMA,
        decreases n - i,
    {
        assert(tail[i - from] == bytes@[i as int]);
        i = i + 1;
    }
    proof {
        if i < n {
            assert(tail[i - from] == bytes@[i as int]);
        }
        lemma_first_comma_is(tail, i - from);
    }
    i
}

/// Whether two byte strings are the same.
pub fn same_bytes(a: &[u8], b: &[u8]) -> (r: bool)
    ensures
        r == (a@ == b@),
{
    if a.len() != b.len() {
        return false;
    }
    let n: usize = a.len();
    let mut i: usize = 0;
    while i < n
        invariant
            0 <= i <= n,
            n == a@.len(),
            n == b@.len(),
            forall|j: int| 0 <= j < i ==> a@[j] == b@[j],
        decreases n - i,
    {
        if a[i] != b[i] {
            return false;
        }
        i = i + 1;
    }
    assert(a@ =~= b@);
    true
}

/// Reads `bytes` as UTF-8 text.
///
/// Calls `core::str::from_utf8`, and relies on it for two things: it accepts
/// exactly the byte strings that are well-formed UTF-8, and the text it hands
/// back consists of the very bytes it was given.
#[verifier::external_body]
pub(crate) fn utf8_text(bytes: &[u8]) -> (r: Option<&str>)
    ensures
        r is Some <==> valid_utf8(bytes@),
        r matches Some(text) ==> text.spec_bytes() == bytes@,
{
    core::str::from_utf8(bytes).ok()
}

/// What follows a single-byte character of well-formed UTF-8 text is
/// well-formed too, and so is what stands before it.
pub proof fn lemma_split_at_ascii(bytes: Seq<u8>, at: int)
    requires
        valid_utf8(bytes),
        0 <= at < bytes.len(),
        bytes[at] <= 0x7f,
    ensures
        valid_utf8(bytes.subrange(0, at)),
        valid_utf8(bytes.subrange(at + 1, bytes.len() as int)),
{
    is_char_boundary_iff_not_is_continuation_byte(bytes, at);
    valid_utf8_split(bytes, at);
    let tail = bytes.subrange(at, bytes.len() as int);
    assert(tail[0] == bytes[at]);
    assert(valid_utf8(tail));
    assert(length_of_first_scalar(tail) == 1);
    assert(pop_first_scalar(tail) == bytes.subrange(at + 1, bytes.len() as int));
}

/// The characters of a byte string that is well-formed UTF-8, as owned text.
pub fn decode_text(bytes: &[u8]) -> (r: Option<String>)
    ensures
        r is Some <==> valid_utf8(bytes@),
        r matches Some(text) ==> text@ == decode_utf8(bytes@),
{
    match utf8_text(bytes) {
        Some(text) => {
            proof {
                encode_utf8_decode_utf8(text@);
            }
            Some(text.to_owned())
        },
        None => None,
    }
}

} // verus!
