use std::str::FromStr;

use solana_program::pubkey::{ParsePubkeyError, Pubkey};
use vstd::prelude::*;
use vstd::utf8::encode_utf8;

verus! {

/// The number of bytes of a public key.
pub const PUBKEY_BYTES: usize = 32;

/// The longest base58 text that `Pubkey::from_str` accepts, in bytes.
pub const MAX_BASE58_LEN: usize = 44;

#[verifier::external_type_specification]
#[verifier::external_body]
pub struct ExDecodeError(bs58::decode::Error);

#[verifier::external_type_specification]
#[verifier::external_body]
pub struct ExParsePubkeyError(ParsePubkeyError);

/// What `bs58::decode(input).into_vec()` gives for the text `input`: the
/// decoded bytes, or `None` when the text is not base58.
pub uninterp spec fn bs58_decoded(input: Seq<char>) -> Option<Seq<u8>>;

/// Whether the 32 bytes are the compressed form of a point of the ed25519
/// curve, as `Pubkey::is_on_curve` decides it.
pub uninterp spec fn curve_point(bytes: Seq<u8>) -> bool;

/// Calls `bs58::decode(input).into_vec()`. Claimed: the call succeeds exactly
/// when `bs58_decoded` names some bytes, and then returns those bytes.
#[verifier::external_body]
fn bs58_decode(input: &str) -> (r: Result<Vec<u8>, bs58::decode::Error>)
    ensures
        r is Ok <==> bs58_decoded(input@) is Some,
        r matches Ok(v) ==> bs58_decoded(input@) == Some(v@),
{
    bs58::decode(input).into_vec()
}

/// Why a textual public key is refused by `Pubkey::from_str`.
#[derive(Debug, Clone, Copy, PartialEq, Eq)]
pub enum PubkeyParseError {
    /// The text or the decoded bytes do not have the length of a key.
    WrongSize,
    /// The text is not base58.
    Invalid,
}

/// What `Pubkey::from_str` returns for the text `s`, as its source shows:
/// a text of more than 44 bytes is refused for its size, a text that is not
/// base58 is invalid, and the decoded bytes must be 32.
pub open spec fn pubkey_from_str_spec(s: Seq<char>) -> Result<Seq<u8>, PubkeyParseError> {
    if encode_utf8(s).len() > MAX_BASE58_LEN {
        Err(PubkeyParseError::WrongSize)
    } else {
        match bs58_decoded(s) {
            None => Err(PubkeyParseError::Invalid),
            Some(v) => if v.len() == PUBKEY_BYTES {
                Ok(v)
            } else {
                Err(PubkeyParseError::WrongSize)
            },
        }
    }
}

/// Calls `Pubkey::from_str(s)` and hands out the key's bytes. Claimed, from
/// its source: texts longer than 44 bytes are refused as `WrongSize`, texts
/// that `bs58` does not decode as `Invalid`, decodings of other than 32 bytes
/// as `WrongSize`; otherwise the key holds the decoded bytes.
#[verifier::external_body]
fn pubkey_from_str(s: &str) -> (r: Result<[u8; 32], PubkeyParseError>)
    ensures
        match r {
            Ok(b) => pubkey_from_str_spec(s@) == Ok::<Seq<u8>, PubkeyParseError>(b@),
            Err(e) => pubkey_from_str_spec(s@) == Err::<Seq<u8>, PubkeyParseError>(e),
        },
{
    match Pubkey::from_str(s) {
        Ok(p) => Ok(p.to_bytes()),
        Err(ParsePubkeyError::WrongSize) => Err(PubkeyParseError::WrongSize),
        Err(ParsePubkeyError::Invalid) => Err(PubkeyParseError::Invalid),
    }
}

/// Calls `Pubkey::new_from_array(bytes).is_on_curve()`. Claimed: the answer
/// is `curve_point` of the bytes.
#[verifier::external_body]
fn pubkey_is_on_curve(bytes: [u8; 32]) -> (r: bool)
    ensures
        r == curve_point(bytes@),
{
    Pubkey::new_from_array(bytes).is_on_curve()
}

/// Calls `Pubkey::default().to_string()`. Claimed, from the sources of
/// `Pubkey` and `bs58`: the default key is 32 zero bytes, whose base58 text
/// is 32 times the character `1`.
#[verifier::external_body]
fn default_pubkey_text() -> (r: String)
    ensures
        r@ == Seq::new(32, |i: int| '1'),
{
    Pubkey::default().to_string()
}

/// The text of the default public key.
pub fn default_pubkey_string() -> (r: String)
    ensures
        r@ == Seq::new(32, |i: int| '1'),
{
    default_pubkey_text()
}

/// Parses a textual public key as `Pubkey::from_str` does.
pub fn parse_pubkey_text(s: &str) -> (r: Result<[u8; 32], PubkeyParseError>)
    ensures
        match r {
            Ok(b) => pubkey_from_str_spec(s@) == Ok::<Seq<u8>, PubkeyParseError>(b@),
            Err(e) => pubkey_from_str_spec(s@) == Err::<Seq<u8>, PubkeyParseError>(e),
        },
{
    pubkey_from_str(s)
}

/// Whether a key lies on the ed25519 curve.
pub fn is_on_curve(bytes: [u8; 32]) -> (r: bool)
    ensures
        r == curve_point(bytes@),
{
    pubkey_is_on_curve(bytes)
}

/// Why `parse_pubkey` refuses a text.
#[derive(Debug, Clone, Copy, PartialEq, Eq)]
pub enum PubkeyError {
    /// The text is not base58.
    DecodeFailed,
    /// The decoded bytes are not 32; the field is their number.
    WrongLength(usize),
}

/// What `parse_pubkey` returns for a decoding result.
pub open spec fn pubkey_from_decoded_spec(decoded: Option<Seq<u8>>) -> Result<Seq<u8>, PubkeyError> {
    match decoded {
        None => Err(PubkeyError::DecodeFailed),
        Some(v) => if v.len() == PUBKEY_BYTES {
            Ok(v)
        } else {
            Err(PubkeyError::WrongLength(v.len() as usize))
        },
    }
}

/// The bytes held by an optional vector.
pub open spec fn bytes_view(o: Option<Vec<u8>>) -> Option<Seq<u8>> {
    match o {
        Some(v) => Some(v@),
        None => None,
    }
}

/// Turns the result of base58 decoding into the 32 bytes of a public key.
pub fn pubkey_from_decoded(decoded: Option<Vec<u8>>) -> (r: Result<[u8; 32], PubkeyError>)
    ensures
        match r {
            Ok(b) => pubkey_from_decoded_spec(bytes_view(decoded)) == Ok::<
                Seq<u8>,
                PubkeyError,
            >(b@),
            Err(e) => pubkey_from_decoded_spec(bytes_view(decoded)) == Err::<
                Seq<u8>,
                PubkeyError,
            >(e),
        },
{
    match decoded {
        None => Err(PubkeyError::DecodeFailed),
        Some(v) => {
            if v.len() != PUBKEY_BYTES {
                return Err(PubkeyError::WrongLength(v.len()));
            }
            let mut bytes: [u8; 32] = [0u8; 32];
            let mut i: usize = 0;
            while i < PUBKEY_BYTES
                invariant
                    0 <= i <= PUBKEY_BYTES,
                    v@.len() == PUBKEY_BYTES,
                    forall|j: int| 0 <= j < i ==> bytes@[j] == v@[j],
                decreases PUBKEY_BYTES - i,
            {
                bytes[i] = v[i];
                i = i + 1;
            }
            assert(bytes@ =~= v@);
            Ok(bytes)
        },
    }
}

/// Parses a textual public key (base58) into its 32 bytes, from which the
/// `Pubkey` constructor is generated.
pub fn parse_pubkey(input: &str) -> (r: Result<[u8; 32], PubkeyError>)
    ensures
        match r {
            Ok(b) => pubkey_from_decoded_spec(bs58_decoded(input@)) == Ok::<Seq<u8>, PubkeyError>(
                b@,
            ),
            Err(e) => pubkey_from_decoded_spec(bs58_decoded(input@)) == Err::<
                Seq<u8>,
                PubkeyError,
            >(e),
        },
{
    let decoded = match bs58_decode(input) {
        Ok(v) => Some(v),
        Err(_) => None,
    };
    pubkey_from_decoded(decoded)
}

} // verus!
