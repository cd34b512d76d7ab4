//! Values drawn at random.
use rand::distributions::Alphanumeric;
use rand::Rng;
use vstd::prelude::*;

verus! {

/// Number of characters of a session token.
pub const TOKEN_LEN: usize = 32;

/// Whether a character is an ASCII letter or digit.
pub open spec fn is_alphanumeric(c: char) -> bool {
    ||| 48 <= c as int <= 57
    ||| 65 <= c as int <= 90
    ||| 97 <= c as int <= 122
}

/// Whether a text can be a session token: as many ASCII letters and digits as a
/// token has characters.
pub open spec fn is_token(text: Seq<char>) -> bool {
    &&& text.len() == TOKEN_LEN
    &&& forall|i: int| 0 <= i < text.len() ==> is_alphanumeric(#[trigger] text[i])
}

/// Draws a nonce with `Rng::gen` from `rand::thread_rng`.
///
/// Claims nothing of the bytes, which any call may draw anew.
#[verifier::external_body]
pub(crate) fn random_nonce() -> (nonce: [u8; 12]) {
    rand::thread_rng().gen::<[u8; 12]>()
}

/// Draws a number with `Rng::gen` from `rand::thread_rng`.
///
/// Claims nothing of the number, which any call may draw anew.
#[verifier::external_body]
pub(crate) fn random_number() -> (number: u64) {
    rand::thread_rng().gen::<u64>()
}

/// Draws a byte with `Rng::sample` from `rand::thread_rng`, distributed as
/// `rand::distributions::Alphanumeric`.
///
/// Claims that the byte is an ASCII letter or digit, and nothing of how likely each
/// of them is.
#[verifier::external_body]
fn random_alphanumeric() -> (byte: u8)
    ensures
        is_alphanumeric(byte as char),
{
    rand::thread_rng().sample(Alphanumeric)
}

/// Draws a session token.
pub fn random_token() -> (token: String)
    ensures
        is_token(token@),
{
    let mut token = String::new();
    let mut i: usize = 0;
    while i < TOKEN_LEN
        invariant
            i <= TOKEN_LEN,
            token@.len() == i,
            forall|j: int| 0 <= j < i ==> is_alphanumeric(#[trigger] token@[j]),
        decreases TOKEN_LEN - i,
    {
        let byte = random_alphanumeric();
        token.push(byte as char);
        i = i + 1;
    }
    token
}

/// A token has thirty-two characters, each of them a digit or a letter without
/// accents, and any such text can be one.
pub proof fn law_tokens_are_digits_and_letters(text: Seq<char>)
    ensures
        is_token(text) <==> text.len() == 32 && (forall|i: int|
            0 <= i < text.len() ==> ('0' <= #[trigger] text[i] <= '9' || 'A' <= text[i] <= 'Z'
                || 'a' <= text[i] <= 'z')),
{
    if is_token(text) {
        assert forall|i: int| 0 <= i < text.len() implies ('0' <= #[trigger] text[i] <= '9' || 'A'
            <= text[i] <= 'Z' || 'a' <= text[i] <= 'z') by {
            assert(is_alphanumeric(text[i]));
        }
    }
}

} // verus!
