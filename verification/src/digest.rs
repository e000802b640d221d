//! The content digest of a scenario: SHA-256 over the canonical bytes of
//! its payload, in lower-case hexadecimal.

use sha2::{Digest, Sha256};
use vstd::prelude::*;
use vstd::string::StringExecFns;

verus! {

/// The SHA-256 digest of a sequence of bytes, as the `sha2` crate computes
/// it.
pub uninterp spec fn sha256(bytes: Seq<u8>) -> Seq<u8>;

/// The canonical bytes of a JSON text: what `serde_json` writes, in its
/// compact form, for the value that it reads from the text; `None` where it
/// reads no value.
pub uninterp spec fn canonical_json(text: Seq<char>) -> Option<Seq<u8>>;

/// The error of `serde_json`. Nothing is read from it here but its words.
#[verifier::external_type_specification]
#[verifier::external_body]
pub struct ExJsonError(serde_json::Error);

/// Calls `sha2::Sha256::digest`. The digest depends on the bytes alone and
/// is named `sha256`; it is 32 bytes long.
#[verifier::external_body]
fn sha256_digest(bytes: &[u8]) -> (digest: Vec<u8>)
    ensures
        digest@ == sha256(bytes@),
        digest@.len() == 32,
{
    Sha256::digest(bytes).to_vec()
}

/// Reads a JSON text with `serde_json::from_str` and writes the value back
/// with `serde_json::to_vec`. The bytes depend on the text alone and are
/// named `canonical_json`; the error is that of `serde_json`.
#[verifier::external_body]
fn canonical_bytes(text: &str) -> (r: Result<Vec<u8>, serde_json::Error>)
    ensures
        match canonical_json(text@) {
            Some(bytes) => r is Ok && r->Ok_0@ == bytes,
            None => r is Err,
        },
{
    match serde_json::from_str::<serde_json::Value>(text) {
        Ok(value) => serde_json::to_vec(&value),
        Err(e) => Err(e),
    }
}

/// The sixteen digits of lower-case hexadecimal.
pub open spec fn hex_digits() -> Seq<char> {
    "0123456789abcdef"@
}

/// The two digits of a byte, the high half first.
pub open spec fn hex_pair(byte: u8) -> Seq<char> {
    seq![hex_digits()[(byte / 16) as int], hex_digits()[(byte % 16) as int]]
}

/// Bytes in lower-case hexadecimal: two digits for each byte, in order.
pub open spec fn hex_lower(bytes: Seq<u8>) -> Seq<char> {
    Seq::new(
        2 * bytes.len(),
        |i: int|
            if i % 2 == 0 {
                hex_digits()[(bytes[i / 2] / 16) as int]
            } else {
                hex_digits()[(bytes[i / 2] % 16) as int]
            },
    )
}

/// The digest of canonical bytes, as it is stored with a scenario.
pub open spec fn digest_of(canonical: Seq<u8>) -> Seq<char> {
    hex_lower(sha256(canonical))
}

/// Writing one more byte appends its two digits.
pub proof fn lemma_hex_lower_push(bytes: Seq<u8>, byte: u8)
    ensures
        hex_lower(bytes.push(byte)) == hex_lower(bytes) + hex_pair(byte),
{
    let left = hex_lower(bytes.push(byte));
    let right = hex_lower(bytes) + hex_pair(byte);
    assert(left.len() == right.len());
    assert forall|i: int| 0 <= i < left.len() implies left[i] == right[i] by {
        if i < 2 * bytes.len() {
            assert(bytes.push(byte)[i / 2] == bytes[i / 2]);
        } else {
            assert(bytes.push(byte)[i / 2] == byte);
        }
    }
    assert(left =~= right);
}

/// One digit as a text.
fn digit_text(nibble: u8) -> (t: &'static str)
    requires
        nibble < 16,
    ensures
        t@ == seq![hex_digits()[nibble as int]],
{
    proof {
        reveal_strlit("0123456789abcdef");
        reveal_strlit("0");
        reveal_strlit("1");
        reveal_strlit("2");
        reveal_strlit("3");
        reveal_strlit("4");
        reveal_strlit("5");
        reveal_strlit("6");
        reveal_strlit("7");
        reveal_strlit("8");
        reveal_strlit("9");
        reveal_strlit("a");
        reveal_strlit("b");
        reveal_strlit("c");
        reveal_strlit("d");
        reveal_strlit("e");
        reveal_strlit("f");
    }
    let t = match nibble {
        0 => "0",
        1 => "1",
        2 => "2",
        3 => "3",
        4 => "4",
        5 => "5",
        6 => "6",
        7 => "7",
        8 => "8",
        9 => "9",
        10 => "a",
        11 => "b",
        12 => "c",
        13 => "d",
        14 => "e",
        _ => "f",
    };
    assert(t@ =~= seq![hex_digits()[nibble as int]]);
    t
}

/// Writes bytes in lower-case hexadecimal.
pub fn to_hex(bytes: &[u8]) -> (hex: String)
    ensures
        hex@ == hex_lower(bytes@),
        hex@.len() == 2 * bytes@.len(),
{
    let mut hex = String::new();
    let mut i: usize = 0;
    assert(hex_lower(bytes@.take(0)) =~= Seq::<char>::empty());
    while i < bytes.len()
        invariant
            i <= bytes.len(),
            hex@ == hex_lower(bytes@.take(i as int)),
        decreases bytes.len() - i,
    {
        let byte = bytes[i];
        proof {
            lemma_hex_lower_push(bytes@.take(i as int), byte);
            assert(bytes@.take(i as int).push(byte) =~= bytes@.take(i + 1));
            assert(hex_pair(byte) =~= seq![hex_digits()[(byte / 16) as int]] + seq![
                hex_digits()[(byte % 16) as int],
            ]);
        }
        hex.append(digit_text(byte / 16));
        hex.append(digit_text(byte % 16));
        i += 1;
    }
    assert(bytes@.take(bytes.len() as int) =~= bytes@);
    hex
}

/// The digest of canonical bytes: 64 hexadecimal digits.
pub fn digest_hex(canonical: &[u8]) -> (hash: String)
    ensures
        hash@ == digest_of(canonical@),
        hash@.len() == 64,
{
    let digest = sha256_digest(canonical);
    to_hex(digest.as_slice())
}

/// The canonical bytes of a payload given as JSON text, or the words in
/// which `serde_json` refuses the text.
pub fn canonicalize(payload: &str) -> (r: Result<Vec<u8>, String>)
    ensures
        match canonical_json(payload@) {
            Some(bytes) => r is Ok && r->Ok_0@ == bytes,
            None => r is Err,
        },
{
    match canonical_bytes(payload) {
        Ok(bytes) => Ok(bytes),
        Err(e) => Err(e.to_string()),
    }
}

} // verus!
