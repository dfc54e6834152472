//! Keys, secrets and passwords.
//!
//! A secret is kept as a nonce of twelve bytes followed by its ciphertext,
//! which ends in a tag of sixteen bytes.

use aes_gcm::aead::Aead;
use aes_gcm::KeyInit;
use rand::Rng;
use rand::RngCore;
use vstd::prelude::*;
use vstd::string::*;
use vstd::utf8::{decode_utf8, encode_utf8, encode_utf8_decode_utf8, encode_utf8_valid_utf8, valid_utf8};

use crate::encoding::{base64_bytes, base64_decode, base64_decoded, base64_encode, base64_text};
use crate::text::{chars_of, join2};

verus! {

// --- What comes from outside ---------------------------------------------------------

/// What AES-256-GCM encrypts a message to, with a key, a nonce and associated
/// data.
pub uninterp spec fn sealed_with(key: Seq<u8>, nonce: Seq<u8>, message: Seq<u8>, aad: Seq<u8>) -> Option<Seq<u8>>;

/// What AES-256-GCM decrypts a ciphertext to, with a key, a nonce and
/// associated data, where the ciphertext is authentic.
pub uninterp spec fn opened_with(key: Seq<u8>, nonce: Seq<u8>, ciphertext: Seq<u8>, aad: Seq<u8>) -> Option<Seq<u8>>;

/// Whether bcrypt accepts a password for a hash; `None` where the text is no
/// hash.
pub uninterp spec fn bcrypt_verdict(password: Seq<char>, hash: Seq<char>) -> Option<bool>;

/// How long a message and its associated data may be.
pub const LONGEST_MESSAGE: u64 = 68_719_476_736;

/// Calls `aes_gcm::aead::Aead::encrypt` of `Aes256Gcm`; `None` stands for its
/// error, which comes where the message or the associated data is too long.
/// The ciphertext is sixteen bytes longer than the message, and decrypts to it.
#[verifier::external_body]
fn seal(key: &Vec<u8>, nonce: &Vec<u8>, message: &[u8], aad: &[u8]) -> (r: Option<Vec<u8>>)
    requires
        key@.len() == 32,
        nonce@.len() == 12,
    ensures
        r is Some == (message@.len() <= LONGEST_MESSAGE && aad@.len() <= LONGEST_MESSAGE),
        match r {
            Some(c) => {
                &&& sealed_with(key@, nonce@, message@, aad@) == Some(c@)
                &&& c@.len() == message@.len() + 16
                &&& opened_with(key@, nonce@, c@, aad@) == Some(message@)
            },
            None => sealed_with(key@, nonce@, message@, aad@) is None,
        },
{
    let cipher = aes_gcm::Aes256Gcm::new(aes_gcm::Key::<aes_gcm::Aes256Gcm>::from_slice(key));
    let payload = aes_gcm::aead::Payload { msg: message, aad };
    cipher.encrypt(aes_gcm::Nonce::from_slice(nonce), payload).ok()
}

/// Calls `aes_gcm::aead::Aead::decrypt` of `Aes256Gcm`; `None` stands for its
/// error.
#[verifier::external_body]
fn open(key: &Vec<u8>, nonce: &Vec<u8>, ciphertext: &Vec<u8>, aad: &[u8]) -> (r: Option<Vec<u8>>)
    requires
        key@.len() == 32,
        nonce@.len() == 12,
    ensures
        match r {
            Some(m) => opened_with(key@, nonce@, ciphertext@, aad@) == Some(m@),
            None => opened_with(key@, nonce@, ciphertext@, aad@) is None,
        },
{
    let cipher = aes_gcm::Aes256Gcm::new(aes_gcm::Key::<aes_gcm::Aes256Gcm>::from_slice(key));
    let payload = aes_gcm::aead::Payload { msg: ciphertext, aad };
    cipher.decrypt(aes_gcm::Nonce::from_slice(nonce), payload).ok()
}

/// The description of the error of bytes that are not UTF-8.
pub uninterp spec fn utf8_fault(bytes: Seq<u8>) -> Seq<char>;

/// Calls `String::from_utf8`, and hands out the description of its error, which
/// comes where the bytes are not UTF-8.
#[verifier::external_body]
fn text_from_utf8(bytes: Vec<u8>) -> (r: Result<String, String>)
    ensures
        match r {
            Ok(s) => valid_utf8(bytes@) && s@ == decode_utf8(bytes@),
            Err(e) => !valid_utf8(bytes@) && e@ == utf8_fault(bytes@),
        },
{
    String::from_utf8(bytes).map_err(|e| e.to_string())
}

/// Calls `bcrypt::verify`; `None` stands for its error.
#[verifier::external_body]
fn bcrypt_verify(password: &str, hash: &str) -> (r: Option<bool>)
    ensures
        r == bcrypt_verdict(password@, hash@),
{
    bcrypt::verify(password, hash).ok()
}

/// Calls `bcrypt::hash` with `bcrypt::DEFAULT_COST`; `None` stands for its
/// error. The hash depends on a random salt; the password is accepted for it.
#[verifier::external_body]
fn bcrypt_hash(password: &str) -> (r: Option<String>)
    ensures
        r matches Some(h) ==> bcrypt_verdict(password@, h@) == Some(true),
{
    bcrypt::hash(password, bcrypt::DEFAULT_COST).ok()
}

/// Calls `rand::Rng::random_range` of the thread's generator on the numbers
/// below `n`. Nothing else is claimed of the result.
#[verifier::external_body]
fn random_below(n: usize) -> (r: usize)
    requires
        n > 0,
    ensures
        r < n,
{
    rand::rng().random_range(0..n)
}

/// Calls `rand::random` for twelve bytes. Nothing is claimed of the bytes.
#[verifier::external_body]
fn random_nonce() -> (r: Vec<u8>)
    ensures
        r@.len() == 12,
{
    rand::random::<[u8; 12]>().to_vec()
}

/// Calls `rand::RngCore::fill_bytes` of the thread's generator for 32 bytes.
/// Nothing is claimed of the bytes.
#[verifier::external_body]
fn random_key_bytes() -> (r: Vec<u8>)
    ensures
        r@.len() == 32,
{
    let mut key = [0u8; 32];
    rand::rng().fill_bytes(&mut key);
    key.to_vec()
}

/// A letter or a digit.
pub open spec fn is_alphanumeric(c: char) -> bool {
    ('a' <= c && c <= 'z') || ('A' <= c && c <= 'Z') || ('0' <= c && c <= '9')
}

/// Calls `rand::Rng::sample` of the thread's generator with `Alphanumeric`.
/// Nothing else is claimed of the result.
#[verifier::external_body]
fn random_alphanumeric() -> (r: char)
    ensures
        is_alphanumeric(r),
{
    char::from(rand::rng().sample(rand::distr::Alphanumeric))
}

// --- Secrets -------------------------------------------------------------------------

/// A key that decodes to a number of bytes other than that of AES-256.
pub open spec fn has_wrong_length(key_b64: Seq<char>) -> bool {
    base64_bytes(key_b64) matches Some(k) && k.len() != 32
}

/// A secret can be encrypted: the key can be decoded, and neither the secret
/// nor its associated data is too long.
pub open spec fn is_sealable(plaintext: Seq<char>, key_b64: Seq<char>, aad: Seq<char>) -> bool {
    base64_bytes(key_b64) is Some && encode_utf8(plaintext).len() <= LONGEST_MESSAGE
        && encode_utf8(aad).len() <= LONGEST_MESSAGE
}

/// What the encryption of a secret gives, with a nonce.
pub open spec fn encrypted(
    plaintext: Seq<char>,
    key_b64: Seq<char>,
    aad: Seq<char>,
    nonce: Seq<u8>,
) -> Result<Seq<u8>, Seq<char>> {
    match base64_decoded(key_b64) {
        Err(e) => Err("decode encryption key: "@ + e),
        Ok(key) => match sealed_with(key, nonce, encode_utf8(plaintext), encode_utf8(aad)) {
            Some(c) => Ok(nonce + c),
            None => Err("encrypt: aead::Error"@),
        },
    }
}

/// The text of a decrypted secret.
pub open spec fn secret_text(bytes: Seq<u8>) -> Result<Seq<char>, Seq<char>> {
    if valid_utf8(bytes) {
        Ok(decode_utf8(bytes))
    } else {
        Err("decrypted secret is not valid UTF-8: "@ + utf8_fault(bytes))
    }
}

/// What the decryption of a secret gives. The secret is authentic with its
/// associated data, or, in its earlier form, without any.
pub open spec fn decrypted(bytes: Seq<u8>, key_b64: Seq<char>, aad: Seq<char>) -> Result<
    Seq<char>,
    Seq<char>,
> {
    if bytes.len() < 28 {
        Err("ciphertext too short (need at least 12-byte nonce + 16-byte auth tag)"@)
    } else {
        match base64_decoded(key_b64) {
            Err(e) => Err("decode encryption key: "@ + e),
            Ok(key) => match opened_with(key, bytes.take(12), bytes.skip(12), encode_utf8(aad)) {
                Some(m) => secret_text(m),
                None => match opened_with(key, bytes.take(12), bytes.skip(12), Seq::empty()) {
                    Some(m) => secret_text(m),
                    None => Err("decrypt: aead::Error"@),
                },
            },
        }
    }
}

/// The model of a fallible list of bytes.
pub open spec fn res_bytes(r: Result<Vec<u8>, String>) -> Result<Seq<u8>, Seq<char>> {
    match r {
        Ok(v) => Ok(v@),
        Err(e) => Err(e@),
    }
}

/// The model of a fallible text.
pub open spec fn res_string(r: Result<String, String>) -> Result<Seq<char>, Seq<char>> {
    match r {
        Ok(v) => Ok(v@),
        Err(e) => Err(e@),
    }
}

/// Encrypts a secret with a nonce. What is encrypted decrypts to the secret.
pub fn encrypt_secret(plaintext: &str, key_b64: &str, aad: &str, nonce: &Vec<u8>) -> (r: Result<
    Vec<u8>,
    String,
>)
    requires
        nonce@.len() == 12,
        !has_wrong_length(key_b64@),
    ensures
        res_bytes(r) == encrypted(plaintext@, key_b64@, aad@, nonce@),
        r is Ok == is_sealable(plaintext@, key_b64@, aad@),
        r matches Ok(v) ==> v@.len() == encode_utf8(plaintext@).len() + 28 && decrypted(
            v@,
            key_b64@,
            aad@,
        ) == Ok::<Seq<char>, Seq<char>>(plaintext@),
{
    let key = match base64_decode(key_b64) {
        Ok(k) => k,
        Err(e) => {
            return Err(join2("decode encryption key: ", e.as_str()));
        },
    };
    match seal(&key, nonce, plaintext.as_bytes(), aad.as_bytes()) {
        None => Err("encrypt: aead::Error".to_owned()),
        Some(c) => {
            let ghost sealed = c@;
            let mut out = crate::bson::copy_bytes(nonce);
            let mut c = c;
            out.append(&mut c);
            proof {
                assert(out@ =~= nonce@ + sealed);
                assert(out@.take(12) =~= nonce@);
                assert(out@.skip(12) =~= sealed);
                encode_utf8_valid_utf8(plaintext@);
                encode_utf8_decode_utf8(plaintext@);
            }
            Ok(out)
        },
    }
}

/// Encrypts a secret with a nonce, where the key has the right length.
pub fn encrypt_secret_checked(plaintext: &str, key_b64: &str, aad: &str, nonce: &Vec<u8>) -> (r:
    Option<Result<Vec<u8>, String>>)
    requires
        nonce@.len() == 12,
    ensures
        r is None == has_wrong_length(key_b64@),
        r matches Some(x) ==> res_bytes(x) == encrypted(plaintext@, key_b64@, aad@, nonce@)
            && x is Ok == is_sealable(plaintext@, key_b64@, aad@),
        r matches Some(Ok(v)) ==> v@.len() == encode_utf8(plaintext@).len() + 28 && decrypted(
            v@,
            key_b64@,
            aad@,
        ) == Ok::<Seq<char>, Seq<char>>(plaintext@),
{
    if let Ok(k) = base64_decode(key_b64) {
        if k.len() != 32 {
            return None;
        }
    }
    Some(encrypt_secret(plaintext, key_b64, aad, nonce))
}

/// Encrypts a secret with a new nonce, where the key has the right length.
pub fn seal_secret(plaintext: &str, key_b64: &str, aad: &str) -> (r: Option<
    Result<Vec<u8>, String>,
>)
    ensures
        r is None == has_wrong_length(key_b64@),
        r matches Some(x) ==> x is Ok == is_sealable(plaintext@, key_b64@, aad@),
        r matches Some(Err(e)) ==> exists|nonce: Seq<u8>|
            #[trigger] encrypted(plaintext@, key_b64@, aad@, nonce) == Err::<Seq<u8>, Seq<char>>(
                e@,
            ),
        r matches Some(Ok(v)) ==> v@.len() == encode_utf8(plaintext@).len() + 28 && encrypted(
            plaintext@,
            key_b64@,
            aad@,
            v@.take(12),
        ) == Ok::<Seq<u8>, Seq<char>>(v@) && decrypted(v@, key_b64@, aad@) == Ok::<
            Seq<char>,
            Seq<char>,
        >(plaintext@),
{
    let nonce = random_nonce();
    let r = encrypt_secret_checked(plaintext, key_b64, aad, &nonce);
    assert(r matches Some(Ok(v)) ==> v@.take(12) =~= nonce@);
    assert(r matches Some(Err(e)) ==> encrypted(plaintext@, key_b64@, aad@, nonce@) == Err::<
        Seq<u8>,
        Seq<char>,
    >(e@));
    r
}

fn read_secret(bytes: Vec<u8>) -> (r: Result<String, String>)
    ensures
        res_string(r) == secret_text(bytes@),
{
    match text_from_utf8(bytes) {
        Ok(s) => Ok(s),
        Err(e) => Err(join2("decrypted secret is not valid UTF-8: ", e.as_str())),
    }
}

/// The bytes from one place to another.
fn part(bytes: &Vec<u8>, from: usize, to: usize) -> (r: Vec<u8>)
    requires
        from <= to <= bytes@.len(),
    ensures
        r@ == bytes@.subrange(from as int, to as int),
{
    let mut out: Vec<u8> = Vec::new();
    let mut i: usize = from;
    while i < to
        invariant
            from <= i <= to <= bytes@.len(),
            out@ == bytes@.subrange(from as int, i as int),
        decreases to - i,
    {
        out.push(bytes[i]);
        assert(bytes@.subrange(from as int, i as int).push(bytes@[i as int]) =~= bytes@.subrange(
            from as int,
            i + 1,
        ));
        i += 1;
    }
    out
}

/// Decrypts a secret.
pub fn decrypt_secret(encrypted: &Vec<u8>, key_b64: &str, aad: &str) -> (r: Result<String, String>)
    requires
        encrypted@.len() < 28 || !has_wrong_length(key_b64@),
    ensures
        res_string(r) == decrypted(encrypted@, key_b64@, aad@),
{
    if encrypted.len() < 28 {
        return Err(
            "ciphertext too short (need at least 12-byte nonce + 16-byte auth tag)".to_owned(),
        );
    }
    let key = match base64_decode(key_b64) {
        Ok(k) => k,
        Err(e) => {
            return Err(join2("decode encryption key: ", e.as_str()));
        },
    };
    let nonce = part(encrypted, 0, 12);
    let ciphertext = part(encrypted, 12, encrypted.len());
    assert(nonce@ =~= encrypted@.take(12));
    assert(ciphertext@ =~= encrypted@.skip(12));
    if let Some(m) = open(&key, &nonce, &ciphertext, aad.as_bytes()) {
        return read_secret(m);
    }
    let none: Vec<u8> = Vec::new();
    assert(none@ =~= Seq::empty());
    match open(&key, &nonce, &ciphertext, none.as_slice()) {
        Some(m) => read_secret(m),
        None => Err("decrypt: aead::Error".to_owned()),
    }
}

/// Decrypts a secret, where it is too short for one or the key has the right
/// length.
pub fn decrypt_secret_checked(encrypted: &Vec<u8>, key_b64: &str, aad: &str) -> (r: Option<
    Result<String, String>,
>)
    ensures
        r is None == (encrypted@.len() >= 28 && has_wrong_length(key_b64@)),
        r matches Some(x) ==> res_string(x) == decrypted(encrypted@, key_b64@, aad@),
{
    if encrypted.len() >= 28 {
        if let Ok(k) = base64_decode(key_b64) {
            if k.len() != 32 {
                return None;
            }
        }
    }
    Some(decrypt_secret(encrypted, key_b64, aad))
}

/// A new encryption key, of the right length.
pub fn new_encryption_key() -> (r: String)
    ensures
        base64_bytes(r@) matches Some(k) && k.len() == 32 && r@ == base64_text(k),
        !has_wrong_length(r@),
{
    let bytes = random_key_bytes();
    base64_encode(&bytes)
}

// --- Passwords -----------------------------------------------------------------------

/// Whether a password is accepted for a hash.
pub open spec fn is_accepted(password: Seq<char>, hash: Seq<char>) -> bool {
    bcrypt_verdict(password, hash) == Some(true)
}

/// Whether a password is accepted for a hash.
pub fn password_matches(password: &str, hash: &str) -> (r: bool)
    ensures
        r == is_accepted(password@, hash@),
{
    match bcrypt_verify(password, hash) {
        Some(b) => b,
        None => false,
    }
}

/// The hash of a password, for which the password is accepted.
pub fn hash_password(password: &str) -> (r: Option<String>)
    ensures
        r matches Some(h) ==> is_accepted(password@, h@),
{
    bcrypt_hash(password)
}

/// How many characters a new password has.
pub const PASSWORD_LENGTH: usize = 24;

/// A new password of letters and digits.
pub fn new_password() -> (r: String)
    ensures
        r@.len() == PASSWORD_LENGTH,
        forall|i: int| 0 <= i < r@.len() ==> is_alphanumeric(#[trigger] r@[i]),
{
    let mut s = String::new();
    let mut i: usize = 0;
    while i < PASSWORD_LENGTH
        invariant
            i <= PASSWORD_LENGTH,
            s@.len() == i,
            forall|j: int| 0 <= j < i ==> is_alphanumeric(#[trigger] s@[j]),
        decreases PASSWORD_LENGTH - i,
    {
        s.push(random_alphanumeric());
        i += 1;
    }
    s
}

// --- Access keys ---------------------------------------------------------------------

/// The characters of the identifier of an access key.
pub open spec fn key_id_characters() -> Seq<char> {
    "ABCDEFGHIJKLMNOPQRSTUVWXYZ0123456789"@
}

/// The characters of a secret access key.
pub open spec fn secret_characters() -> Seq<char> {
    "ABCDEFGHIJKLMNOPQRSTUVWXYZabcdefghijklmnopqrstuvwxyz0123456789+/"@
}

/// The characters that numbers pick from a list.
pub open spec fn picked(from: Seq<char>, picks: Seq<usize>) -> Seq<char> {
    Seq::new(picks.len(), |i: int| from[picks[i] as int])
}

/// All numbers pick a character from a list.
pub open spec fn all_below(picks: Seq<usize>, n: nat) -> bool {
    forall|i: int| 0 <= i < picks.len() ==> #[trigger] picks[i] < n
}

fn pick(from: &str, picks: &Vec<usize>) -> (r: String)
    requires
        all_below(picks@, from@.len()),
    ensures
        r@ == picked(from@, picks@),
{
    let chars = chars_of(from);
    let mut s = String::new();
    let mut i: usize = 0;
    while i < picks.len()
        invariant
            i <= picks.len(),
            chars@ == from@,
            all_below(picks@, from@.len()),
            s@ == picked(from@, picks@).take(i as int),
        decreases picks.len() - i,
    {
        let k: usize = picks[i];
        assert(picks@[i as int] < from@.len());
        s.push(chars[k]);
        assert(picked(from@, picks@).take(i as int).push(from@[k as int]) =~= picked(
            from@,
            picks@,
        ).take(i + 1));
        i += 1;
    }
    assert(picked(from@, picks@).take(picks@.len() as int) =~= picked(from@, picks@));
    s
}

/// The identifier of an access key, from the numbers that pick its characters.
pub fn access_key_id_from(picks: &Vec<usize>) -> (r: String)
    requires
        all_below(picks@, 36),
    ensures
        r@ == "AKIAEXTENDDB"@ + picked(key_id_characters(), picks@),
{
    proof {
        reveal_strlit("ABCDEFGHIJKLMNOPQRSTUVWXYZ0123456789");
        assert(key_id_characters().len() == 36);
    }
    let suffix = pick("ABCDEFGHIJKLMNOPQRSTUVWXYZ0123456789", picks);
    join2("AKIAEXTENDDB", suffix.as_str())
}

/// A secret access key, from the numbers that pick its characters.
pub fn secret_key_from(picks: &Vec<usize>) -> (r: String)
    requires
        all_below(picks@, 64),
    ensures
        r@ == "extenddb"@ + picked(secret_characters(), picks@),
{
    proof {
        reveal_strlit("ABCDEFGHIJKLMNOPQRSTUVWXYZabcdefghijklmnopqrstuvwxyz0123456789+/");
        assert(secret_characters().len() == 64);
    }
    let suffix = pick(
        "ABCDEFGHIJKLMNOPQRSTUVWXYZabcdefghijklmnopqrstuvwxyz0123456789+/",
        picks,
    );
    join2("extenddb", suffix.as_str())
}

fn draw(count: usize, n: usize) -> (r: Vec<usize>)
    requires
        n > 0,
    ensures
        r@.len() == count,
        all_below(r@, n as nat),
{
    let mut out: Vec<usize> = Vec::new();
    let mut i: usize = 0;
    while i < count
        invariant
            i <= count,
            n > 0,
            out@.len() == i,
            all_below(out@, n as nat),
        decreases count - i,
    {
        out.push(random_below(n));
        i += 1;
    }
    out
}

/// A new identifier of an access key.
pub fn generate_access_key_id() -> (r: String)
    ensures
        exists|picks: Seq<usize>|
            picks.len() == 8 && all_below(picks, 36) && r@ == "AKIAEXTENDDB"@ + #[trigger] picked(
                key_id_characters(),
                picks,
            ),
{
    let picks = draw(8, 36);
    access_key_id_from(&picks)
}

/// A new secret access key.
pub fn generate_secret_key() -> (r: String)
    ensures
        exists|picks: Seq<usize>|
            picks.len() == 32 && all_below(picks, 64) && r@ == "extenddb"@ + #[trigger] picked(
                secret_characters(),
                picks,
            ),
{
    let picks = draw(32, 64);
    secret_key_from(&picks)
}

// --- Laws --------------------------------------------------------------------------

/// A new access key is one of a user: its identifier begins with the letters
/// by which those are told apart.
pub proof fn law_new_key_belongs_to_user(picks: Seq<usize>)
    ensures
        "AKIA"@.is_prefix_of("AKIAEXTENDDB"@ + picked(key_id_characters(), picks)),
{
    reveal_strlit("AKIA");
    reveal_strlit("AKIAEXTENDDB");
    let id = "AKIAEXTENDDB"@ + picked(key_id_characters(), picks);
    assert("AKIA"@ =~= id.subrange(0, 4));
}

/// What is too short for a nonce and a tag is never decrypted.
pub proof fn law_short_secret_is_refused(bytes: Seq<u8>, key_b64: Seq<char>, aad: Seq<char>)
    requires
        bytes.len() < 28,
    ensures
        decrypted(bytes, key_b64, aad) is Err,
{
}

} // verus!
