//! Keys and other secrets.

use crate::codec::{base64_encode, base64_text, hex_encode, hex_text};
use p256::ecdsa::SigningKey;
use p256::elliptic_curve::rand_core::OsRng;
use p256::pkcs8::{DecodePrivateKey, EncodePrivateKey, EncodePublicKey};
use ring::rand::SecureRandom;
use vstd::prelude::*;

verus! {

/// Why a secret could not be made.
#[derive(Debug)]
pub enum CryptoError {
    KeyGenError(String),
    EncodeError(String),
    RandomError(String),
}

impl CryptoError {
    /// How the error reads.
    pub fn text(&self) -> (text: String)
        ensures
            text@ == match *self {
                CryptoError::KeyGenError(why) => "failed to generate key: "@ + why@,
                CryptoError::EncodeError(why) => "failed to encode key: "@ + why@,
                CryptoError::RandomError(why) => "random generation failed: "@ + why@,
            },
    {
        match self {
            CryptoError::KeyGenError(why) => String::from_str("failed to generate key: ").concat(
                why.as_str(),
            ),
            CryptoError::EncodeError(why) => String::from_str("failed to encode key: ").concat(
                why.as_str(),
            ),
            CryptoError::RandomError(why) => String::from_str("random generation failed: ").concat(
                why.as_str(),
            ),
        }
    }
}

/// A key pair: the private key as PKCS#8, the public key as a `SubjectPublicKeyInfo`, both in DER,
/// and the private number itself.
#[derive(Debug)]
pub struct EcKeyPair {
    pub private_key_der: Vec<u8>,
    pub public_key_der: Vec<u8>,
    pub scalar: Vec<u8>,
}

/// The private number in an SEC1 private key, as p256 reads it.
pub uninterp spec fn sec1_scalar(der: Seq<u8>) -> Option<Seq<u8>>;

/// The private number in a PKCS#8 private key, as p256 reads it, or how it describes what is wrong.
pub uninterp spec fn pkcs8_scalar(der: Seq<u8>) -> Result<Seq<u8>, Seq<char>>;

/// The PKCS#8 private key for a private number, as p256 writes it, or how it describes what is
/// wrong.
pub uninterp spec fn pkcs8_of(scalar: Seq<u8>) -> Result<Seq<u8>, Seq<char>>;

/// The public key for a private number, as p256 writes it, or how it describes what is wrong.
pub uninterp spec fn public_key_of(scalar: Seq<u8>) -> Result<Seq<u8>, Seq<char>>;

/// `SecretKey::from_sec1_der` of p256: a function of the bytes.
#[verifier::external_body]
fn read_sec1(der: &[u8]) -> (res: Option<Vec<u8>>)
    ensures
        match res {
            Some(scalar) => sec1_scalar(der@) == Some(scalar@),
            None => sec1_scalar(der@) is None,
        },
{
    p256::SecretKey::from_sec1_der(der).ok().map(|key| key.to_bytes().to_vec())
}

/// `SigningKey::from_pkcs8_der` of p256: a function of the bytes.
#[verifier::external_body]
fn read_pkcs8(der: &[u8]) -> (res: Result<Vec<u8>, String>)
    ensures
        match res {
            Ok(scalar) => pkcs8_scalar(der@) == Ok::<Seq<u8>, Seq<char>>(scalar@),
            Err(why) => pkcs8_scalar(der@) == Err::<Seq<u8>, Seq<char>>(why@),
        },
{
    SigningKey::from_pkcs8_der(der).map(|key| key.to_bytes().to_vec()).map_err(|e| e.to_string())
}

/// `SigningKey::to_pkcs8_der` of p256, for the key with this number: a function of the number.
/// What it writes for a number of 32 bytes is read as PKCS#8 to the same number again, and is no
/// SEC1 private key.
#[verifier::external_body]
fn write_pkcs8(scalar: &[u8]) -> (res: Result<Vec<u8>, String>)
    ensures
        match res {
            Ok(der) => pkcs8_of(scalar@) == Ok::<Seq<u8>, Seq<char>>(der@) && (scalar@.len() == 32
                ==> pkcs8_scalar(der@) == Ok::<Seq<u8>, Seq<char>>(scalar@) && sec1_scalar(
                der@,
            ) is None),
            Err(why) => pkcs8_of(scalar@) == Err::<Seq<u8>, Seq<char>>(why@),
        },
{
    let key = SigningKey::from_slice(scalar).map_err(|e| e.to_string())?;
    key.to_pkcs8_der().map(|der| der.as_bytes().to_vec()).map_err(|e| e.to_string())
}

/// `VerifyingKey::to_public_key_der` of p256, for the key with this number: a function of the
/// number.
#[verifier::external_body]
fn write_public_key(scalar: &[u8]) -> (res: Result<Vec<u8>, String>)
    ensures
        match res {
            Ok(der) => public_key_of(scalar@) == Ok::<Seq<u8>, Seq<char>>(der@),
            Err(why) => public_key_of(scalar@) == Err::<Seq<u8>, Seq<char>>(why@),
        },
{
    let key = SigningKey::from_slice(scalar).map_err(|e| e.to_string())?;
    key.verifying_key().to_public_key_der().map(|der| der.to_vec()).map_err(|e| e.to_string())
}

/// `SigningKey::random` of p256: some private number, of 32 bytes.
#[verifier::external_body]
fn random_scalar() -> (scalar: Vec<u8>)
    ensures
        scalar@.len() == 32,
{
    SigningKey::random(&mut OsRng).to_bytes().to_vec()
}

/// `SystemRandom::fill` of ring: `len` bytes, or the only thing that ring says of what went wrong.
#[verifier::external_body]
pub(crate) fn random_bytes(len: usize) -> (res: Result<Vec<u8>, String>)
    ensures
        match res {
            Ok(bytes) => bytes@.len() == len,
            Err(why) => why@ == "ring::error::Unspecified"@,
        },
{
    let mut bytes = vec![0u8; len];
    ring::rand::SystemRandom::new().fill(&mut bytes).map_err(|e| e.to_string())?;
    Ok(bytes)
}

/// Whether there were no random bytes.
pub open spec fn no_random_bytes(e: CryptoError) -> bool {
    e matches CryptoError::RandomError(why) && why@ == "ring::error::Unspecified"@
}

/// The private number in a private key: SEC1 is tried first, then PKCS#8.
pub open spec fn private_number(der: Seq<u8>) -> Result<Seq<u8>, Seq<char>> {
    match sec1_scalar(der) {
        Some(scalar) => Ok(scalar),
        None => pkcs8_scalar(der),
    }
}

/// The private number in a private key, given what it is as SEC1 and as PKCS#8.
pub fn choose_scalar(sec1: Option<Vec<u8>>, pkcs8: Result<Vec<u8>, String>) -> (res: Result<
    Vec<u8>,
    String,
>)
    ensures
        match sec1 {
            Some(scalar) => res matches Ok(chosen) && chosen@ == scalar@,
            None => match pkcs8 {
                Ok(scalar) => res matches Ok(chosen) && chosen@ == scalar@,
                Err(why) => res matches Err(told) && told@ == why@,
            },
        },
{
    match sec1 {
        Some(scalar) => Ok(scalar),
        None => pkcs8,
    }
}

/// The private number in a private key: SEC1 is tried first, then PKCS#8.
pub fn read_private_key(der: &[u8]) -> (res: Result<Vec<u8>, String>)
    ensures
        match res {
            Ok(scalar) => private_number(der@) == Ok::<Seq<u8>, Seq<char>>(scalar@),
            Err(why) => private_number(der@) == Err::<Seq<u8>, Seq<char>>(why@),
        },
{
    let sec1 = read_sec1(der);
    let pkcs8 = read_pkcs8(der);
    choose_scalar(sec1, pkcs8)
}

/// The public key for a private number.
pub fn public_key(scalar: &[u8]) -> (res: Result<Vec<u8>, String>)
    ensures
        match res {
            Ok(der) => public_key_of(scalar@) == Ok::<Seq<u8>, Seq<char>>(der@),
            Err(why) => public_key_of(scalar@) == Err::<Seq<u8>, Seq<char>>(why@),
        },
{
    write_public_key(scalar)
}

/// The private and the public key of a private number, in DER, or why there are none: the private
/// key is written first.
pub open spec fn key_ders(scalar: Seq<u8>) -> Result<(Seq<u8>, Seq<u8>), Seq<char>> {
    match pkcs8_of(scalar) {
        Ok(private_key) => match public_key_of(scalar) {
            Ok(public_key) => Ok((private_key, public_key)),
            Err(why) => Err(why),
        },
        Err(why) => Err(why),
    }
}

/// Whether an error says why a private number has no keys.
pub open spec fn tells_why(e: CryptoError, scalar: Seq<u8>) -> bool {
    e matches CryptoError::EncodeError(why) && key_ders(scalar) == Err::<
        (Seq<u8>, Seq<u8>),
        Seq<char>,
    >(why@)
}

/// The key pair of a private number.
pub fn key_pair_of(scalar: Vec<u8>) -> (res: Result<EcKeyPair, CryptoError>)
    ensures
        match res {
            Ok(pair) => {
                &&& pair.scalar@ == scalar@
                &&& pkcs8_of(scalar@) == Ok::<Seq<u8>, Seq<char>>(pair.private_key_der@)
                &&& public_key_of(scalar@) == Ok::<Seq<u8>, Seq<char>>(pair.public_key_der@)
                &&& scalar@.len() == 32 ==> private_number(pair.private_key_der@) == Ok::<
                    Seq<u8>,
                    Seq<char>,
                >(scalar@)
            },
            Err(CryptoError::EncodeError(why)) => {
                ||| pkcs8_of(scalar@) == Err::<Seq<u8>, Seq<char>>(why@)
                ||| pkcs8_of(scalar@) is Ok && public_key_of(scalar@) == Err::<
                    Seq<u8>,
                    Seq<char>,
                >(why@)
            },
            Err(_) => false,
        },
{
    let private_key_der: Vec<u8> = match write_pkcs8(scalar.as_slice()) {
        Ok(der) => der,
        Err(why) => {
            return Err(CryptoError::EncodeError(why));
        },
    };
    let public_key_der: Vec<u8> = match write_public_key(scalar.as_slice()) {
        Ok(der) => der,
        Err(why) => {
            return Err(CryptoError::EncodeError(why));
        },
    };
    Ok(EcKeyPair { private_key_der, public_key_der, scalar })
}

/// A new key pair. Its private key is read back to the number that its public key belongs to. There
/// is none only where p256 cannot write the keys of the number that it chose.
pub fn generate_ec_key_pair() -> (res: Result<EcKeyPair, CryptoError>)
    ensures
        match res {
            Ok(pair) => {
                &&& pair.scalar@.len() == 32
                &&& pkcs8_of(pair.scalar@) == Ok::<Seq<u8>, Seq<char>>(pair.private_key_der@)
                &&& public_key_of(pair.scalar@) == Ok::<Seq<u8>, Seq<char>>(pair.public_key_der@)
                &&& private_number(pair.private_key_der@) == Ok::<Seq<u8>, Seq<char>>(pair.scalar@)
            },
            Err(e) => exists|scalar: Seq<u8>| scalar.len() == 32 && #[trigger] tells_why(e, scalar),
        },
{
    let scalar: Vec<u8> = random_scalar();
    let ghost number = scalar@;
    let res = key_pair_of(scalar);
    assert(res matches Err(e) ==> tells_why(e, number));
    res
}

/// A Curve25519 key pair: the private key, and the public key in base64.
#[derive(Debug)]
pub struct WgKeyPair {
    pub private_key: Vec<u8>,
    pub public_key_base64: String,
}

/// The Curve25519 public key for a private key.
pub uninterp spec fn x25519_key(private_key: Seq<u8>) -> Seq<u8>;

/// `PublicKey::from` of x25519-dalek, as gotatun gives it, for the private key with these bytes: a
/// function of the bytes.
#[verifier::external_body]
fn x25519_public(private_key: &[u8]) -> (key: Vec<u8>)
    requires
        private_key@.len() == 32,
    ensures
        key@ == x25519_key(private_key@),
        key@.len() == 32,
{
    let mut bytes = [0u8; 32];
    bytes.copy_from_slice(private_key);
    let secret = gotatun::x25519::StaticSecret::from(bytes);
    gotatun::x25519::PublicKey::from(&secret).as_bytes().to_vec()
}

/// The Curve25519 key pair of a private key.
pub fn wg_key_pair_of(private_key: Vec<u8>) -> (pair: WgKeyPair)
    requires
        private_key@.len() == 32,
    ensures
        pair.private_key@ == private_key@,
        pair.public_key_base64@ == base64_text(x25519_key(private_key@)),
{
    let key: Vec<u8> = x25519_public(private_key.as_slice());
    WgKeyPair { private_key, public_key_base64: base64_encode(key.as_slice()) }
}

/// A new Curve25519 key pair.
pub fn generate_wg_key_pair() -> (res: Result<WgKeyPair, CryptoError>)
    ensures
        match res {
            Ok(pair) => pair.private_key@.len() == 32 && pair.public_key_base64@ == base64_text(
                x25519_key(pair.private_key@),
            ),
            Err(e) => no_random_bytes(e),
        },
{
    match random_bytes(32) {
        Ok(bytes) => Ok(wg_key_pair_of(bytes)),
        Err(why) => Err(CryptoError::RandomError(why)),
    }
}

/// A WireGuard public key with these bytes, in base64.
pub fn wg_pubkey_text(bytes: &[u8]) -> (text: String)
    ensures
        text@ == base64_text(bytes@),
{
    base64_encode(bytes)
}

/// A serial number with these bytes, in hexadecimal.
pub fn serial_text(bytes: &[u8]) -> (text: String)
    ensures
        text@ == hex_text(bytes@),
{
    hex_encode(bytes)
}

/// A random WireGuard public key, in base64.
pub fn generate_random_wg_pubkey() -> (res: Result<String, CryptoError>)
    ensures
        match res {
            Ok(text) => exists|bytes: Seq<u8>|
                bytes.len() == 32 && text@ == #[trigger] base64_text(bytes),
            Err(e) => no_random_bytes(e),
        },
{
    match random_bytes(32) {
        Ok(bytes) => {
            let text: String = wg_pubkey_text(bytes.as_slice());
            assert(text@ == base64_text(bytes@));
            Ok(text)
        },
        Err(why) => Err(CryptoError::RandomError(why)),
    }
}

/// A random serial number, in hexadecimal.
pub fn generate_random_serial() -> (res: Result<String, CryptoError>)
    ensures
        match res {
            Ok(text) => text@.len() == 16 && exists|bytes: Seq<u8>|
                bytes.len() == 8 && text@ == #[trigger] hex_text(bytes),
            Err(e) => no_random_bytes(e),
        },
{
    match random_bytes(8) {
        Ok(bytes) => {
            let text: String = serial_text(bytes.as_slice());
            assert(text@ == hex_text(bytes@));
            Ok(text)
        },
        Err(why) => Err(CryptoError::RandomError(why)),
    }
}

/// How a time is written for Cloudflare.
pub open spec fn cf_time_pattern() -> Seq<char> {
    "%Y-%m-%dT%H:%M:%S%.3f%:z"@
}

/// A time as chrono writes it by a pattern: `secs` seconds and `nanos` nanoseconds since 1970, at a
/// place `offset` seconds east of Greenwich. `None` where chrono knows no such time or place.
pub uninterp spec fn chrono_text(secs: i64, nanos: u32, offset: i32, pattern: Seq<char>) -> Option<
    Seq<char>,
>;

/// `DateTime::format` of chrono: a function of the time, the place and the pattern. `None` where
/// chrono knows no such time or place.
#[verifier::external_body]
fn format_time(secs: i64, nanos: u32, offset: i32, pattern: &str) -> (res: Option<String>)
    requires
        pattern@ == cf_time_pattern(),
    ensures
        match res {
            Some(text) => chrono_text(secs, nanos, offset, pattern@) == Some(text@),
            None => chrono_text(secs, nanos, offset, pattern@) is None,
        },
{
    let place = chrono::FixedOffset::east_opt(offset)?;
    let time = chrono::DateTime::from_timestamp(secs, nanos)?;
    Some(time.with_timezone(&place).format(pattern).to_string())
}

/// A time as Cloudflare wants it. `None` where there is no such time or place.
pub fn time_as_cf_string(secs: i64, nanos: u32, offset: i32) -> (res: Option<String>)
    ensures
        match res {
            Some(text) => chrono_text(secs, nanos, offset, cf_time_pattern()) == Some(text@),
            None => chrono_text(secs, nanos, offset, cf_time_pattern()) is None,
        },
{
    format_time(secs, nanos, offset, "%Y-%m-%dT%H:%M:%S%.3f%:z")
}

/// A private key is read as the form that it has; one that has both is read as SEC1.
pub proof fn a_private_key_has_a_form(der: Seq<u8>)
    ensures
        sec1_scalar(der) is Some ==> private_number(der) == Ok::<Seq<u8>, Seq<char>>(
            sec1_scalar(der)->0,
        ),
        sec1_scalar(der) is None ==> private_number(der) == pkcs8_scalar(der),
{
}

/// A key pair is there if and only if both of its keys can be written.
pub proof fn a_pair_needs_both_keys(scalar: Seq<u8>)
    ensures
        key_ders(scalar) is Ok <==> pkcs8_of(scalar) is Ok && public_key_of(scalar) is Ok,
        key_ders(scalar) matches Ok(keys) ==> pkcs8_of(scalar) == Ok::<Seq<u8>, Seq<char>>(keys.0)
            && public_key_of(scalar) == Ok::<Seq<u8>, Seq<char>>(keys.1),
{
}

/// A want of random bytes is told in the words of the source of randomness.
pub proof fn how_missing_random_bytes_are_told(e: CryptoError)
    requires
        no_random_bytes(e),
    ensures
        e is RandomError,
        (e->RandomError_0)@ == "ring::error::Unspecified"@,
{
}

} // verus!
