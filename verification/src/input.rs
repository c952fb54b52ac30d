//! From bytes to the characters of a program.
//!
//! A program is read as UTF-8. Where the bytes stop being valid UTF-8 the program
//! ends: what stands before that place is the program, and nothing is reported.

use vstd::prelude::*;
use vstd::slice::slice_to_vec;
use vstd::utf8::{decode_utf8, valid_utf8};

verus! {

/// The length of the longest prefix of `bytes` that is valid UTF-8 and not longer
/// than `n`.
pub open spec fn valid_up_to(bytes: Seq<u8>, n: nat) -> nat
    decreases n,
{
    if n == 0 || (n <= bytes.len() && valid_utf8(bytes.take(n as int))) {
        n
    } else {
        valid_up_to(bytes, (n - 1) as nat)
    }
}

/// The characters that `bytes` encode, up to the first place where they are not
/// valid UTF-8.
pub open spec fn decoded(bytes: Seq<u8>) -> Seq<char> {
    decode_utf8(bytes.take(valid_up_to(bytes, bytes.len()) as int))
}

/// The prefix that `valid_up_to` measures is a prefix, it is valid, and no longer
/// one within the bound is.
pub proof fn lemma_valid_up_to(bytes: Seq<u8>, n: nat)
    requires
        n <= bytes.len(),
    ensures
        valid_up_to(bytes, n) <= n,
        valid_utf8(bytes.take(valid_up_to(bytes, n) as int)),
        forall|m: int| valid_up_to(bytes, n) < m <= n ==> !valid_utf8(#[trigger] bytes.take(m)),
    decreases n,
{
    if n == 0 {
    } else if !valid_utf8(bytes.take(n as int)) {
        lemma_valid_up_to(bytes, (n - 1) as nat);
    }
}

/// `core::str::from_utf8`, and `Utf8Error::valid_up_to` where it fails: the
/// length of the longest prefix of the bytes that is valid UTF-8, which is the
/// whole length where all of them are.
#[verifier::external_body]
fn measure_valid(bytes: &[u8]) -> (n: usize)
    ensures
        n == valid_up_to(bytes@, bytes@.len()),
{
    match core::str::from_utf8(bytes) {
        Ok(_) => bytes.len(),
        Err(error) => error.valid_up_to(),
    }
}

/// `String::from_utf8` on bytes that are valid UTF-8: the string of the
/// characters that the bytes encode.
#[verifier::external_body]
fn string_from_utf8(bytes: Vec<u8>) -> (text: String)
    requires
        valid_utf8(bytes@),
    ensures
        text@ == decode_utf8(bytes@),
{
    String::from_utf8(bytes).unwrap_or_default()
}

/// The text of a program given as bytes: the characters up to the first place
/// where the bytes are not valid UTF-8.
pub fn decode(bytes: &[u8]) -> (text: String)
    ensures
        text@ == decoded(bytes@),
{
    let n = measure_valid(bytes);
    let mut valid = slice_to_vec(bytes);
    proof {
        lemma_valid_up_to(bytes@, bytes@.len());
    }
    valid.truncate(n);
    string_from_utf8(valid)
}

} // verus!
