//! Session credentials: random bytes from the system's generator, written in
//! lowercase hexadecimal.

use vstd::prelude::*;

verus! {

/// The number of random bytes in a credential.
pub const KEY_BYTES: usize = 32;

/// The lowercase hexadecimal digit of a value below 16.
pub open spec fn hex_digit(n: int) -> char {
    if n < 10 {
        (0x30 + n) as u8 as char
    } else {
        (0x61 + n - 10) as u8 as char
    }
}

/// The lowercase hexadecimal form of `bytes`: two digits for each byte, the
/// high half first.
pub open spec fn hex_of(bytes: Seq<u8>) -> Seq<char> {
    Seq::new(
        2 * bytes.len(),
        |i: int|
            if i % 2 == 0 {
                hex_digit(bytes[i / 2] as int / 16)
            } else {
                hex_digit(bytes[i / 2] as int % 16)
            },
    )
}

/// `c` is one of `0`..`9`, `a`..`f`.
pub open spec fn is_lower_hex(c: char) -> bool {
    ('0' <= c && c <= '9') || ('a' <= c && c <= 'f')
}

/// `key` has the form of a credential: 64 lowercase hexadecimal digits.
pub open spec fn is_session_key(key: Seq<char>) -> bool {
    &&& key.len() == 2 * KEY_BYTES
    &&& forall|i: int| 0 <= i < key.len() ==> is_lower_hex(#[trigger] key[i])
}

/// The hexadecimal form of 32 bytes is a credential.
pub proof fn lemma_hex_is_session_key(bytes: Seq<u8>)
    requires
        bytes.len() == KEY_BYTES,
    ensures
        is_session_key(hex_of(bytes)),
{
    let key = hex_of(bytes);
    assert forall|i: int| 0 <= i < key.len() implies is_lower_hex(#[trigger] key[i]) by {
        let b = bytes[i / 2] as int;
        let n = if i % 2 == 0 {
            b / 16
        } else {
            b % 16
        };
        assert(0 <= n < 16);
        assert(key[i] == hex_digit(n));
        lemma_hex_digit(n);
    }
}

/// Every hexadecimal digit is one of `0`..`9`, `a`..`f`.
pub proof fn lemma_hex_digit(n: int)
    requires
        0 <= n < 16,
    ensures
        is_lower_hex(hex_digit(n)),
{
    if n < 10 {
        assert(0x30 <= 0x30 + n <= 0x39);
    } else {
        assert(0x61 <= 0x61 + n - 10 <= 0x66);
    }
}

/// `rand::thread_rng` and `RngCore::fill_bytes`: `n` bytes from the
/// thread-local generator, which the system seeds. Only their number is
/// claimed. The generator panics where the system gives it no seed.
#[verifier::external_body]
pub(crate) fn random_bytes(n: usize) -> (bytes: Vec<u8>)
    ensures
        bytes@.len() == n,
{
    let mut bytes = vec![0u8; n];
    rand::RngCore::fill_bytes(&mut rand::thread_rng(), &mut bytes);
    bytes
}

/// `hex::encode`: each byte as two lowercase hexadecimal digits, the high
/// half first, twice as many characters as bytes.
#[verifier::external_body]
pub(crate) fn hex_encode(bytes: &[u8]) -> (text: String)
    ensures
        text@ == hex_of(bytes@),
{
    hex::encode(bytes)
}

/// The credential that stands for `bytes`.
pub fn session_key_of(bytes: &[u8]) -> (key: String)
    ensures
        key@ == hex_of(bytes@),
        bytes@.len() == KEY_BYTES ==> is_session_key(key@),
{
    proof {
        if bytes@.len() == KEY_BYTES {
            lemma_hex_is_session_key(bytes@);
        }
    }
    hex_encode(bytes)
}

/// A fresh credential: 256 random bits in hexadecimal.
pub fn generate_session_key() -> (key: String)
    ensures
        is_session_key(key@),
{
    let random_bytes = random_bytes(KEY_BYTES);
    session_key_of(random_bytes.as_slice())
}

} // verus!
