//! Wrappers for working with cryptographic primitives, and the secret from
//! which passwords are derived.

use aes::Aes256;
use block_modes::block_padding::Pkcs7;
use block_modes::{BlockMode, BlockModeError, Cbc, InvalidKeyIvLength};
use rand::rngs::ThreadRng;
use rand::Rng;
use sha3::{Digest, Sha3_256};
use vstd::prelude::*;
use vstd::utf8::encode_utf8;

verus! {

/// Length in bytes of a SHA3-256 digest.
pub const DIGEST_LENGTH_IN_BYTES: usize = 32;

/// Key length for AES 256
pub const KEY_LENGTH_FOR_AES_256_IN_BYTES: usize = 32;

/// Initial Vector length for AES 256
pub const IV_LENGTH_FOR_AES_256_IN_BYTES: usize = 16;

/// Number of characters that a password is drawn from.
pub const ASCII_RANGE_SIZE: u8 = 92;

/// Code of the first character that a password is drawn from: `!`.
pub const ASCII_RANGE_START: u8 = 33;

// ------------------------------ Outside items --------------------------------
/// The error that `block_modes` reports when a ciphertext cannot be decrypted.
#[verifier::external_type_specification]
#[verifier::external_body]
pub struct ExBlockModeError(BlockModeError);

/// The error that `block_modes` reports when it is given a key or an IV of a
/// length that the cipher does not take.
#[verifier::external_type_specification]
#[verifier::external_body]
pub struct ExInvalidKeyIvLength(InvalidKeyIvLength);

/// The handle of `rand` to the generator of the current thread.
#[verifier::external_type_specification]
#[verifier::external_body]
pub struct ExThreadRng(ThreadRng);

/// The SHA3-256 digest of `data`, as `sha3::Sha3_256::digest` computes it.
pub uninterp spec fn sha3_256(data: Seq<u8>) -> Seq<u8>;

/// The ciphertext that `block_modes::Cbc<aes::Aes256, Pkcs7>`, made from `key`
/// and `iv`, gives for `plaintext` in `encrypt_vec`.
pub uninterp spec fn aes256_cbc_encrypt(key: Seq<u8>, iv: Seq<u8>, plaintext: Seq<u8>) -> Seq<u8>;

/// The plaintext that `block_modes::Cbc<aes::Aes256, Pkcs7>`, made from `key`
/// and `iv`, gives for `ciphertext` in `decrypt_vec`, or `None` where it
/// reports an error.
pub uninterp spec fn aes256_cbc_decrypt(key: Seq<u8>, iv: Seq<u8>, ciphertext: Seq<u8>) -> Option<
    Seq<u8>,
>;

/// Calls `sha3::Sha3_256::digest`. Trusted: the result is the SHA3-256 digest
/// of `data`, which is 32 bytes long for every input.
#[verifier::external_body]
fn sha3_256_digest(data: &[u8]) -> (digest: Vec<u8>)
    ensures
        digest@ == sha3_256(data@),
        digest@.len() == DIGEST_LENGTH_IN_BYTES,
{
    Sha3_256::digest(data).to_vec()
}

/// Calls `block_modes::BlockMode::new_var` for AES-256 in CBC mode and drops
/// the cipher it makes. Trusted: it accepts a key of 32 bytes with an IV of 16
/// bytes, and nothing else.
#[verifier::external_body]
fn cbc_new_var(key: &[u8], iv: &[u8]) -> (accepted: Result<(), InvalidKeyIvLength>)
    ensures
        accepted is Ok <==> (key@.len() == KEY_LENGTH_FOR_AES_256_IN_BYTES && iv@.len()
            == IV_LENGTH_FOR_AES_256_IN_BYTES),
{
    match Cbc::<Aes256, Pkcs7>::new_var(key, iv) {
        Ok(_) => Ok(()),
        Err(err) => Err(err),
    }
}

/// Calls `block_modes::BlockMode::encrypt_vec` on the AES-256 CBC cipher of
/// `key` and `iv`. Trusted: the result depends on the three arguments alone,
/// and `decrypt_vec` under the same key and IV gives the plaintext back.
#[verifier::external_body]
fn cbc_encrypt_vec(key: &[u8], iv: &[u8], plaintext: &[u8]) -> (ciphertext: Vec<u8>)
    requires
        key@.len() == KEY_LENGTH_FOR_AES_256_IN_BYTES,
        iv@.len() == IV_LENGTH_FOR_AES_256_IN_BYTES,
    ensures
        ciphertext@ == aes256_cbc_encrypt(key@, iv@, plaintext@),
        aes256_cbc_decrypt(key@, iv@, ciphertext@) == Some(plaintext@),
{
    Cbc::<Aes256, Pkcs7>::new_var(key, iv).unwrap().encrypt_vec(plaintext)
}

/// Calls `block_modes::BlockMode::decrypt_vec` on the AES-256 CBC cipher of
/// `key` and `iv`. Trusted: the outcome depends on the three arguments alone.
#[verifier::external_body]
fn cbc_decrypt_vec(key: &[u8], iv: &[u8], ciphertext: &[u8]) -> (plaintext: Result<
    Vec<u8>,
    BlockModeError,
>)
    requires
        key@.len() == KEY_LENGTH_FOR_AES_256_IN_BYTES,
        iv@.len() == IV_LENGTH_FOR_AES_256_IN_BYTES,
    ensures
        match plaintext {
            Ok(bytes) => aes256_cbc_decrypt(key@, iv@, ciphertext@) == Some(bytes@),
            Err(_) => aes256_cbc_decrypt(key@, iv@, ciphertext@) is None,
        },
{
    Cbc::<Aes256, Pkcs7>::new_var(key, iv).unwrap().decrypt_vec(ciphertext)
}

/// `rand::thread_rng` hands out the generator of the current thread. Nothing
/// is claimed of it.
pub assume_specification[ rand::thread_rng ]() -> ThreadRng;

/// Calls `rand::Rng::gen` for one byte. Nothing is claimed of the byte.
#[verifier::external_body]
fn random_byte(rng: &mut ThreadRng) -> u8 {
    rng.gen::<u8>()
}

/// `String::push` appends the given character to the end of the string.
pub assume_specification[ String::push ](text: &mut String, ch: char)
    ensures
        final(text)@ == old(text)@.push(ch),
;

// --------------------------------- Errors ------------------------------------
#[derive(Debug)]
pub enum CryptoError {
    FailedToDecrypt(BlockModeError),
    InvalidKeyIvLength(InvalidKeyIvLength),
}

impl From<BlockModeError> for CryptoError {
    fn from(err: BlockModeError) -> (error: Self) {
        CryptoError::FailedToDecrypt(err)
    }
}

impl vstd::std_specs::convert::FromSpecImpl<BlockModeError> for CryptoError {
    open spec fn obeys_from_spec() -> bool {
        true
    }

    open spec fn from_spec(err: BlockModeError) -> Self {
        CryptoError::FailedToDecrypt(err)
    }
}

impl From<InvalidKeyIvLength> for CryptoError {
    fn from(err: InvalidKeyIvLength) -> (error: Self) {
        CryptoError::InvalidKeyIvLength(err)
    }
}

impl vstd::std_specs::convert::FromSpecImpl<InvalidKeyIvLength> for CryptoError {
    open spec fn obeys_from_spec() -> bool {
        true
    }

    open spec fn from_spec(err: InvalidKeyIvLength) -> Self {
        CryptoError::InvalidKeyIvLength(err)
    }
}

// ---------------------------------- Model ------------------------------------
/// The key bytes that a cipher works with for a raw key: the digest of its
/// UTF-8 encoding.
pub open spec fn key_material(raw_key: Seq<char>) -> Seq<u8> {
    sha3_256(encode_utf8(raw_key))
}

/// The IV bytes that a cipher works with for a raw IV: the first 16 bytes of
/// the digest of its UTF-8 encoding.
pub open spec fn iv_material(raw_iv: Seq<char>) -> Seq<u8> {
    sha3_256(encode_utf8(raw_iv)).take(IV_LENGTH_FOR_AES_256_IN_BYTES as int)
}

/// The character that stands for a digest byte in a password.
pub open spec fn printable(byte: u8) -> char {
    (ASCII_RANGE_START + byte % ASCII_RANGE_SIZE) as char
}

/// The text that stands for a sequence of bytes, byte by byte.
pub open spec fn ascii_range(bytes: Seq<u8>) -> Seq<char> {
    bytes.map_values(|byte: u8| printable(byte))
}

/// The smaller of two lengths.
pub open spec fn shortest(one: usize, other: usize) -> usize {
    if one < other {
        one
    } else {
        other
    }
}

/// The first `length` items of `items`, or all of them where there are fewer.
pub open spec fn at_most<T>(items: Seq<T>, length: usize) -> Seq<T> {
    if length < items.len() {
        items.take(length as int)
    } else {
        items
    }
}

/// The password of `length` characters that a decrypted secret stands for.
pub open spec fn password_of(secret: Seq<u8>, length: usize) -> Seq<char> {
    ascii_range(at_most(sha3_256(secret), length))
}

/// A character of the range that passwords are drawn from, `!` to `|`.
pub open spec fn in_ascii_range(c: char) -> bool {
    '!' <= c <= '|'
}

/// Every byte stands for a printable character other than the space.
pub proof fn lemma_printable_in_range(byte: u8)
    ensures
        in_ascii_range(printable(byte)),
        printable(byte) as int == 33 + byte as int % 92,
{
}

/// A password holds as many characters as were asked for, as far as the
/// digest reaches, and each of them is printable.
pub proof fn lemma_password_shape(secret: Seq<u8>, length: usize)
    ensures
        password_of(secret, length).len() == at_most(sha3_256(secret), length).len(),
        length <= sha3_256(secret).len() ==> password_of(secret, length).len() == length,
        forall|i: int|
            0 <= i < password_of(secret, length).len() ==> in_ascii_range(
                #[trigger] password_of(secret, length)[i],
            ),
{
    assert forall|i: int| 0 <= i < password_of(secret, length).len() implies in_ascii_range(
        #[trigger] password_of(secret, length)[i],
    ) by {
        lemma_printable_in_range(at_most(sha3_256(secret), length)[i]);
    }
}

/// A shorter password of a secret is the start of a longer one.
pub proof fn lemma_password_is_prefix(secret: Seq<u8>, shorter: usize, longer: usize)
    requires
        shorter <= longer,
    ensures
        password_of(secret, shorter) == at_most(password_of(secret, longer), shorter),
{
}

// --------------------------------- Cipher ------------------------------------
/// AES-256 in Cipher Block Chaining mode with PKCS#7 padding, under a key and
/// an initial vector.
pub struct Cipher {
    key: Vec<u8>,
    iv: Vec<u8>,
}

impl Cipher {
    /// A cipher holds a key and an IV of the lengths that AES 256 takes.
    #[verifier::type_invariant]
    spec fn well_formed(self) -> bool {
        &&& self.key@.len() == KEY_LENGTH_FOR_AES_256_IN_BYTES
        &&& self.iv@.len() == IV_LENGTH_FOR_AES_256_IN_BYTES
    }

    /// The key bytes.
    pub closed spec fn key(&self) -> Seq<u8> {
        self.key@
    }

    /// The IV bytes.
    pub closed spec fn iv(&self) -> Seq<u8> {
        self.iv@
    }

    /// Returns a new Cipher given a key and initial vector IV.
    pub fn new(key: &str, iv: &str) -> (cipher: Result<Cipher, CryptoError>)
        ensures
            cipher matches Ok(c) && c.key() == key_material(key@) && c.iv() == iv_material(iv@),
    {
        let key = Self::hash(key);
        let mut iv = Self::hash(iv);
        iv.truncate(IV_LENGTH_FOR_AES_256_IN_BYTES);
        Self::from_key_material(key, iv)
    }

    /// Returns a new Cipher that works with the given key and IV bytes, where
    /// AES 256 takes them.
    pub fn from_key_material(key: Vec<u8>, iv: Vec<u8>) -> (cipher: Result<Cipher, CryptoError>)
        ensures
            cipher is Ok <==> (key@.len() == KEY_LENGTH_FOR_AES_256_IN_BYTES && iv@.len()
                == IV_LENGTH_FOR_AES_256_IN_BYTES),
            cipher matches Ok(c) ==> c.key() == key@ && c.iv() == iv@,
            cipher matches Err(e) ==> e is InvalidKeyIvLength,
    {
        match cbc_new_var(key.as_slice(), iv.as_slice()) {
            Ok(_) => Ok(Cipher { key, iv }),
            Err(err) => Err(CryptoError::from(err)),
        }
    }

    /// Encrypts a plain text
    pub fn encrypt(self, plaintext: &Vec<u8>) -> (ciphertext: Vec<u8>)
        ensures
            ciphertext@ == aes256_cbc_encrypt(self.key(), self.iv(), plaintext@),
            aes256_cbc_decrypt(self.key(), self.iv(), ciphertext@) == Some(plaintext@),
    {
        proof {
            use_type_invariant(&self);
        }
        cbc_encrypt_vec(self.key.as_slice(), self.iv.as_slice(), plaintext.as_slice())
    }

    /// Decrypts a cipher text
    pub fn decrypt(self, ciphertext: &Vec<u8>) -> (plaintext: Result<Vec<u8>, CryptoError>)
        ensures
            match aes256_cbc_decrypt(self.key(), self.iv(), ciphertext@) {
                Some(bytes) => plaintext matches Ok(decrypted) && decrypted@ == bytes,
                None => plaintext matches Err(e) && e is FailedToDecrypt,
            },
    {
        proof {
            use_type_invariant(&self);
        }
        match cbc_decrypt_vec(self.key.as_slice(), self.iv.as_slice(), ciphertext.as_slice()) {
            Ok(plaintext) => Ok(plaintext),
            Err(err) => Err(CryptoError::from(err)),
        }
    }

    /// Hashes a given string slice to 256 bits or 32 bytes
    pub fn hash(data: &str) -> (digest: Vec<u8>)
        ensures
            digest@ == sha3_256(encode_utf8(data@)),
            digest@.len() == DIGEST_LENGTH_IN_BYTES,
    {
        sha3_256_digest(data.as_bytes())
    }
}

// ------------------------------ Password generation --------------------------
/// Parameters that affect the generated password.
pub struct PasswordParam<'a> {
    pub domain: &'a str,
    pub username: &'a str,
    pub length: usize,
    pub version: usize,
}

/// What password parameters say, apart from where their text is kept.
pub ghost struct PasswordParamView {
    pub domain: Seq<char>,
    pub username: Seq<char>,
    pub length: usize,
    pub version: usize,
}

impl<'a> View for PasswordParam<'a> {
    type V = PasswordParamView;

    open spec fn view(&self) -> PasswordParamView {
        PasswordParamView {
            domain: self.domain@,
            username: self.username@,
            length: self.length,
            version: self.version,
        }
    }
}

/// Defines the interface for generating passwords.
pub trait PasswordGenerator {
    /// Password generation is deterministic.
    /// We can use the Key to decrypt the secret that become an input to the password generator
    /// along with the other password paramters.
    fn get(&self, key: &str, param: PasswordParam) -> Result<String, CryptoError>;
}

/// What a Secret holds: the encrypted bytes, and the IV under which they were
/// encrypted.
pub ghost struct SecretView {
    pub encrypted_secret: Seq<u8>,
    pub iv: Seq<char>,
}

/// The bytes that a secret gives under a raw key, or `None` where the key does
/// not decrypt it.
pub open spec fn decrypted(secret: SecretView, key: Seq<char>) -> Option<Seq<u8>> {
    aes256_cbc_decrypt(key_material(key), iv_material(secret.iv), secret.encrypted_secret)
}

/// What encrypting `plain` under a raw key and IV leaves in a secret.
pub open spec fn sealed(key: Seq<char>, iv: Seq<char>, plain: Seq<u8>) -> SecretView {
    SecretView {
        encrypted_secret: aes256_cbc_encrypt(key_material(key), iv_material(iv), plain),
        iv,
    }
}

/// The secret keeps some `length` bytes encrypted under a raw key and IV.
pub open spec fn keeps_bytes(
    secret: SecretView,
    key: Seq<char>,
    iv: Seq<char>,
    length: usize,
) -> bool {
    exists|plain: Seq<u8>|
        plain.len() == length && secret == #[trigger] sealed(key, iv, plain)
            && decrypted(secret, key) == Some(plain)
}

/// The password that a secret gives under a raw key, or `None` where the key
/// does not decrypt it. Of the parameters only the length has a part in it.
pub open spec fn derived(secret: SecretView, key: Seq<char>, length: usize) -> Option<Seq<char>> {
    match decrypted(secret, key) {
        Some(plain) => Some(password_of(plain, length)),
        None => None,
    }
}

/// Derivation is deterministic: secrets that hold the same give the same
/// password under the same key, whatever the domain, username and version
/// that it is asked for.
pub proof fn lemma_derivation_is_deterministic(
    one: SecretView,
    other: SecretView,
    key: Seq<char>,
    param: PasswordParamView,
    other_param: PasswordParamView,
)
    requires
        one == other,
        param.length == other_param.length,
    ensures
        derived(one, key, param.length) == derived(other, key, other_param.length),
{
}

/// A secret that was sealed under a key gives its password under that key.
pub proof fn lemma_sealed_secret_derives(
    secret: SecretView,
    key: Seq<char>,
    plain: Seq<u8>,
    length: usize,
)
    requires
        decrypted(secret, key) == Some(plain),
    ensures
        derived(secret, key, length) == Some(password_of(plain, length)),
{
}

/// # Secret
/// Implements PasswordGenerator trait so it can be used to create passwords.
#[derive(Debug, PartialEq, Eq)]
pub struct Secret {
    encrypted_secret: Vec<u8>,
    iv: String,
}

impl View for Secret {
    type V = SecretView;

    closed spec fn view(&self) -> SecretView {
        SecretView { encrypted_secret: self.encrypted_secret@, iv: self.iv@ }
    }
}

impl Secret {
    /// Creates a secret given a key, initial vector IV and expected secret length.
    ///
    /// The secret is `length` random bytes, kept encrypted under the key; the
    /// key under which it was made decrypts it again.
    pub fn new(key: &str, iv: &str, length: usize) -> (secret: Result<Secret, CryptoError>)
        ensures
            secret matches Ok(s) && keeps_bytes(s@, key@, iv@, length),
    {
        let plain = Self::random_secret(length);
        Self::seal(key, iv, &plain)
    }

    /// Creates a secret that keeps the given bytes encrypted under a key and
    /// initial vector IV.
    pub fn seal(key: &str, iv: &str, plain: &Vec<u8>) -> (secret: Result<Secret, CryptoError>)
        ensures
            secret matches Ok(s) && s@ == sealed(key@, iv@, plain@)
                && decrypted(s@, key@) == Some(plain@),
    {
        match Cipher::new(key, iv) {
            Ok(cipher) => {
                let encrypted_secret = cipher.encrypt(plain);
                let iv = iv.to_owned();
                Ok(Secret { encrypted_secret, iv })
            },
            Err(err) => Err(err),
        }
    }

    /// Puts a secret together from what was stored of it.
    pub fn from_parts(encrypted_secret: Vec<u8>, iv: String) -> (secret: Secret)
        ensures
            secret@ == (SecretView { encrypted_secret: encrypted_secret@, iv: iv@ }),
    {
        Secret { encrypted_secret, iv }
    }

    /// The encrypted bytes, as they are stored.
    pub fn encrypted_secret(&self) -> (bytes: &Vec<u8>)
        ensures
            bytes@ == self@.encrypted_secret,
    {
        &self.encrypted_secret
    }

    /// The IV under which the bytes were encrypted.
    pub fn iv(&self) -> (iv: &String)
        ensures
            iv@ == self@.iv,
    {
        &self.iv
    }

    /// Returns a sequence of random bytes of the given length
    fn random_secret(length: usize) -> (secret: Vec<u8>)
        ensures
            secret@.len() == length,
    {
        let mut rng = rand::thread_rng();
        let mut secret: Vec<u8> = Vec::new();
        let mut i: usize = 0;
        while i < length
            invariant
                i <= length,
                secret@.len() == i,
            decreases length - i,
        {
            secret.push(random_byte(&mut rng));
            i += 1;
        }
        secret
    }

    /// Maps bytes to a subset of ascii character range.
    pub fn to_ascii_range(v: Vec<u8>) -> (text: String)
        ensures
            text@ == ascii_range(v@),
    {
        let mut text = String::new();
        let mut i: usize = 0;
        while i < v.len()
            invariant
                i <= v.len(),
                text@ == ascii_range(v@.take(i as int)),
            decreases v.len() - i,
        {
            let byte: u8 = v[i];
            text.push((byte % ASCII_RANGE_SIZE + ASCII_RANGE_START) as char);
            i += 1;
            assert(v@.take(i as int) == v@.take(i - 1).push(byte));
        }
        text
    }

    /// Hashs data to 256 bits or 32 bytes.
    pub fn hash(data: &Vec<u8>) -> (digest: Vec<u8>)
        ensures
            digest@ == sha3_256(data@),
            digest@.len() == DIGEST_LENGTH_IN_BYTES,
    {
        sha3_256_digest(data.as_slice())
    }
}

impl PasswordGenerator for Secret {
    /// Decrypts the secret with the key and draws the password from its
    /// digest: as many characters as the parameters ask for, and no more than
    /// the digest has bytes. Fails where the key does not decrypt the secret.
    fn get(&self, key: &str, param: PasswordParam) -> (generated: Result<String, CryptoError>)
        ensures
            match derived(self@, key@, param.length) {
                Some(password) => generated matches Ok(text) && text@ == password,
                None => generated matches Err(e) && e is FailedToDecrypt,
            },
            generated matches Ok(text) ==> text@.len() == shortest(
                param.length,
                DIGEST_LENGTH_IN_BYTES,
            ) && forall|i: int| 0 <= i < text@.len() ==> in_ascii_range(#[trigger] text@[i]),
    {
        let cipher = match Cipher::new(key, self.iv.as_str()) {
            Ok(cipher) => cipher,
            Err(err) => { return Err(err); },
        };
        let secret = match cipher.decrypt(&self.encrypted_secret) {
            Ok(secret) => secret,
            Err(err) => { return Err(err); },
        };
        let mut digest = Self::hash(&secret);
        if param.length < digest.len() {
            digest.truncate(param.length);
        }
        proof {
            lemma_password_shape(secret@, param.length);
        }
        Ok(Self::to_ascii_range(digest))
    }
}

} // verus!
