//! Identifiers: the 128-bit form of a UUID, its textual form and its bytes.

use vstd::prelude::*;

verus! {

/// The nil identifier (all bits zero).
pub const NIL_ID: u128 = 0;

/// Lowercase hexadecimal digit for a value in `0..16`.
pub open spec fn hex_digit(n: int) -> char {
    if n < 10 {
        (48 + n) as char
    } else {
        (87 + n) as char
    }
}

/// The `k`-th four-bit group of `id`, counted from the most significant one.
pub open spec fn nibble(id: u128, k: int) -> int {
    (id as int / vstd::arithmetic::power2::pow2((4 * (31 - k)) as nat) as int) % 16
}

/// How many hyphens precede position `p` of the hyphenated form.
pub open spec fn hyphens_before(p: int) -> int {
    if p < 8 {
        0
    } else if p < 13 {
        1
    } else if p < 18 {
        2
    } else if p < 23 {
        3
    } else {
        4
    }
}

/// The hyphenated lowercase form `xxxxxxxx-xxxx-xxxx-xxxx-xxxxxxxxxxxx`.
pub open spec fn uuid_text(id: u128) -> Seq<char> {
    Seq::new(
        36,
        |p: int|
            if p == 8 || p == 13 || p == 18 || p == 23 {
                '-'
            } else {
                hex_digit(nibble(id, p - hyphens_before(p)))
            },
    )
}

/// The `i`-th byte of the big-endian form of `id`.
pub open spec fn id_byte(id: u128, i: int) -> u8 {
    ((id as int / vstd::arithmetic::power2::pow2((8 * (15 - i)) as nat) as int) % 256) as u8
}

/// The sixteen big-endian bytes of `id`.
pub open spec fn id_bytes(id: u128) -> Seq<u8> {
    Seq::new(16, |i: int| id_byte(id, i))
}

/// Text of an identifier, through `uuid::Uuid::from_u128` and its `Display`
/// impl. The claim: the text is the 36-character lowercase hyphenated form,
/// as `uuid`'s formatter writes it.
#[verifier::external_body]
pub(crate) fn uuid_to_string(id: u128) -> (s: String)
    ensures
        s@ == uuid_text(id),
{
    uuid::Uuid::from_u128(id).to_string()
}

/// Bytes of an identifier, through `uuid::Uuid::from_u128` and `into_bytes`.
/// The claim: the bytes are the big-endian bytes of the value, as
/// `from_u128` documents.
#[verifier::external_body]
pub(crate) fn uuid_bytes(id: u128) -> (b: [u8; 16])
    ensures
        b@ == id_bytes(id),
{
    uuid::Uuid::from_u128(id).into_bytes()
}

} // verus!
