//! Identifiers of consoles: the letter `X` and twelve hexadecimal digits.

use vstd::prelude::*;
use vstd::string::*;

verus! {

/// `rand::Rng::gen` on `rand::thread_rng()`: six bytes from the thread's
/// random number generator. Any six bytes may come back.
#[verifier::external_body]
fn random_bytes() -> (r: [u8; 6]) {
    rand::Rng::gen(&mut rand::thread_rng())
}

/// `hex::encode`: the bytes of `data` in order, each as two lower-case
/// hexadecimal digits, the high one first.
#[verifier::external_body]
fn hex_encode(data: &[u8]) -> (r: String)
    ensures
        r@ == hex_text(data@),
{
    hex::encode(data)
}

/// The lower-case hexadecimal digit for `n`, for `n` below sixteen.
pub open spec fn hex_digit(n: int) -> char {
    if n == 0 {
        '0'
    } else if n == 1 {
        '1'
    } else if n == 2 {
        '2'
    } else if n == 3 {
        '3'
    } else if n == 4 {
        '4'
    } else if n == 5 {
        '5'
    } else if n == 6 {
        '6'
    } else if n == 7 {
        '7'
    } else if n == 8 {
        '8'
    } else if n == 9 {
        '9'
    } else if n == 10 {
        'a'
    } else if n == 11 {
        'b'
    } else if n == 12 {
        'c'
    } else if n == 13 {
        'd'
    } else if n == 14 {
        'e'
    } else {
        'f'
    }
}

/// The bytes of `data` in order, each as two hexadecimal digits.
pub open spec fn hex_text(data: Seq<u8>) -> Seq<char> {
    Seq::new(
        2 * data.len(),
        |i: int|
            if i % 2 == 0 {
                hex_digit(data[i / 2] as int / 16)
            } else {
                hex_digit(data[i / 2] as int % 16)
            },
    )
}

/// The identifier that is made of these bytes.
pub open spec fn console_id_text(bytes: Seq<u8>) -> Seq<char> {
    "X"@ + hex_text(bytes)
}

/// The identifier that is made of six given bytes.
pub fn console_id_from_bytes(bytes: &[u8; 6]) -> (id: String)
    ensures
        id@ == console_id_text(bytes@),
{
    let mut id = String::from_str("X");
    let digits = hex_encode(bytes.as_slice());
    id.append(digits.as_str());
    id
}

/// A fresh identifier, made of six random bytes.
pub fn generate_random_console_id() -> (id: String)
    ensures
        exists|bytes: [u8; 6]| id@ == console_id_text(bytes@),
        id@.len() == 13,
        id@[0] == 'X',
{
    let bytes = random_bytes();
    let id = console_id_from_bytes(&bytes);
    proof {
        reveal_strlit("X");
        assert(id@ == console_id_text(bytes@));
    }
    id
}

} // verus!
