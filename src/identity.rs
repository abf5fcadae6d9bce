use vstd::prelude::*;
use vstd::utf8::encode_utf8;

verus! {

/// The stored identity `owner` names the caller whose raw identity bytes are
/// `caller`: the UTF-8 encoding of the one is exactly the other.
pub open spec fn identity_matches(owner: Seq<char>, caller: Seq<u8>) -> bool {
    encode_utf8(owner) == caller
}

/// The lowercase hexadecimal digits.
pub open spec fn hex_digits() -> Seq<char> {
    seq!['0', '1', '2', '3', '4', '5', '6', '7', '8', '9', 'a', 'b', 'c', 'd', 'e', 'f']
}

/// Two lowercase hex digits for each byte, high nibble first.
pub open spec fn hex_of(b: Seq<u8>) -> Seq<char> {
    Seq::new(
        (2 * b.len()) as nat,
        |i: int|
            if i % 2 == 0 {
                hex_digits()[(b[i / 2] / 16) as int]
            } else {
                hex_digits()[(b[i / 2] % 16) as int]
            },
    )
}

/// Byte-wise comparison of a stored identity with a caller's raw identity.
pub fn is_identity(owner: &str, caller: &[u8]) -> (r: bool)
    ensures
        r == identity_matches(owner@, caller@),
{
    let bytes = owner.as_bytes();
    if bytes.len() != caller.len() {
        proof {
            assert(bytes@.len() != caller@.len());
        }
        return false;
    }
    let mut i: usize = 0;
    while i < bytes.len()
        invariant
            bytes@ == encode_utf8(owner@),
            bytes@.len() == caller@.len(),
            i <= bytes@.len(),
            forall|j: int| 0 <= j < i ==> bytes@[j] == caller@[j],
        decreases bytes@.len() - i,
    {
        if bytes[i] != caller[i] {
            return false;
        }
        i = i + 1;
    }
    proof {
        assert(bytes@ =~= caller@);
    }
    true
}

/// Relies on hex::encode: two lowercase hex digits per byte, high nibble first.
#[verifier::external_body]
fn hex_encode(b: &[u8]) -> (r: String)
    ensures
        r@ == hex_of(b@),
{
    hex::encode(b)
}

/// The patient id under which a caller's pool submissions are filed: the
/// lowercase hex encoding of the caller's raw identity bytes.
pub fn patient_id_from_identity(caller: &[u8]) -> (r: String)
    ensures
        r@ == hex_of(caller@),
{
    hex_encode(caller)
}

} // verus!
