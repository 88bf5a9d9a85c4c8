//! The encryption format: the bytes of an inner format sealed with XChaCha20-Poly1305 under a key
//! derived from a password with Argon2id.
//!
//! Sealed bytes are laid out as: the magic header `1N4`, the salt length as 8 little-endian
//! bytes, the salt, the nonce length as 8 little-endian bytes, the nonce, then the ciphertext.

use argon2::password_hash::SaltString;
use argon2::{Algorithm, Argon2, Params, Version};
use chacha20poly1305::aead::{Aead, OsRng};
use chacha20poly1305::{AeadCore, KeyInit, XChaCha20Poly1305};
use vstd::bytes::{spec_u64_from_le_bytes, spec_u64_to_le_bytes, u64_from_le_bytes, u64_to_le_bytes};
use vstd::prelude::*;
use zeroize::Zeroize;

use crate::storage::format::{extension_with_suffix, DataFormat};

verus! {

/// `argon2::Error`, carried through from key derivation.
#[verifier::external_type_specification]
#[verifier::external_body]
pub struct ExArgon2Error(argon2::Error);

/// `chacha20poly1305::Error`, carried through from sealing and opening.
#[verifier::external_type_specification]
#[verifier::external_body]
pub struct ExAeadError(chacha20poly1305::Error);

/// The 32-byte key that Argon2id (version 0x13, default parameters) derives from a password and a
/// salt, or `None` when the inputs are refused.
pub uninterp spec fn argon2id_key(password: Seq<u8>, salt: Seq<u8>) -> Option<Seq<u8>>;

/// The ciphertext that XChaCha20-Poly1305 produces for `plaintext` under `key` and `nonce`, or
/// `None` when the plaintext is refused.
pub uninterp spec fn xchacha_sealed(key: Seq<u8>, nonce: Seq<u8>, plaintext: Seq<u8>) -> Option<Seq<u8>>;

/// The plaintext that XChaCha20-Poly1305 recovers from `ciphertext` under `key` and `nonce`, or
/// `None` when authentication fails.
pub uninterp spec fn xchacha_opened(key: Seq<u8>, nonce: Seq<u8>, ciphertext: Seq<u8>) -> Option<Seq<u8>>;

/// Builds the error that `Read::read_exact` gives when the bytes end early, with
/// `std::io::Error::from(ErrorKind::UnexpectedEof)`. The error is opaque here: that its kind is
/// `UnexpectedEof` is not stated.
#[verifier::external_body]
fn unexpected_eof() -> (r: std::io::Error) {
    std::io::Error::from(std::io::ErrorKind::UnexpectedEof)
}

/// Generates a salt with `SaltString::generate` from the operating system's random source, as the
/// bytes of its B64 text: 16 random bytes encode as 22 characters. Nothing is promised of the
/// characters beyond their number.
#[verifier::external_body]
fn random_salt() -> (r: Vec<u8>)
    ensures
        r@.len() == 22,
{
    SaltString::generate(OsRng).to_string().into_bytes()
}

/// Generates a 24-byte nonce with `XChaCha20Poly1305::generate_nonce` from the operating system's
/// random source. Nothing is promised of its bytes beyond their number.
#[verifier::external_body]
fn random_nonce() -> (r: Vec<u8>)
    ensures
        r@.len() == 24,
{
    XChaCha20Poly1305::generate_nonce(OsRng).to_vec()
}

/// Derives a key with `Argon2::hash_password_into` (Argon2id, version 0x13, default parameters)
/// into a 32-byte buffer.
#[verifier::external_body]
fn argon2id_derive(password: &[u8], salt: &[u8]) -> (r: Result<Vec<u8>, argon2::Error>)
    ensures
        r matches Ok(key) ==> argon2id_key(password@, salt@) == Some(key@) && key@.len() == 32,
        r is Err ==> argon2id_key(password@, salt@) is None,
{
    let mut key = vec![0_u8; 32];
    Argon2::new(Algorithm::Argon2id, Version::V0x13, Params::default())
        .hash_password_into(password, salt, &mut key)
        .map(|()| key)
}

/// Encrypts with `XChaCha20Poly1305::encrypt`. A ciphertext that is produced opens back, under the
/// same key and nonce, to the plaintext.
#[verifier::external_body]
fn xchacha_encrypt(key: &[u8], nonce: &[u8], plaintext: &[u8]) -> (r: Result<Vec<u8>, chacha20poly1305::Error>)
    requires
        key@.len() == 32,
        nonce@.len() == 24,
    ensures
        r matches Ok(c) ==> xchacha_sealed(key@, nonce@, plaintext@) == Some(c@),
        r matches Ok(c) ==> xchacha_opened(key@, nonce@, c@) == Some(plaintext@),
        r is Err ==> xchacha_sealed(key@, nonce@, plaintext@) is None,
{
    XChaCha20Poly1305::new(key.into()).encrypt(nonce.into(), plaintext)
}

/// Decrypts with `XChaCha20Poly1305::decrypt`.
#[verifier::external_body]
fn xchacha_decrypt(key: &[u8], nonce: &[u8], ciphertext: &[u8]) -> (r: Result<Vec<u8>, chacha20poly1305::Error>)
    requires
        key@.len() == 32,
        nonce@.len() == 24,
    ensures
        r matches Ok(p) ==> xchacha_opened(key@, nonce@, ciphertext@) == Some(p@),
        r is Err ==> xchacha_opened(key@, nonce@, ciphertext@) is None,
{
    XChaCha20Poly1305::new(key.into()).decrypt(nonce.into(), ciphertext)
}

/// Overwrites the bytes with zeros through `Zeroize::zeroize`, which then empties the vector.
#[verifier::external_body]
fn wipe(bytes: &mut Vec<u8>)
    ensures
        final(bytes)@ == Seq::<u8>::empty(),
{
    bytes.zeroize();
}

/// The magic header of sealed bytes: `1N4`.
pub open spec fn spec_magic() -> Seq<u8> {
    seq![0x31u8, 0x4Eu8, 0x34u8]
}

/// The sealed layout of a salt, a nonce and a ciphertext.
pub open spec fn spec_frame(salt: Seq<u8>, nonce: Seq<u8>, ciphertext: Seq<u8>) -> Seq<u8> {
    spec_magic() + spec_u64_to_le_bytes(salt.len() as u64) + salt + spec_u64_to_le_bytes(
        nonce.len() as u64,
    ) + nonce + ciphertext
}

/// Why sealed bytes could not be opened or produced.
#[derive(Clone, Copy, Debug, PartialEq, Eq, Structural)]
pub enum EncryptErrorKind {
    /// An I/O error: the bytes end before their header says.
    Io,
    /// The key could not be derived.
    Argon2,
    /// The data could not be encrypted or decrypted.
    ChaCha20Poly1305,
    /// A password was not set.
    MissingPassword,
    /// The given bytes are missing the magic header.
    InvalidMagic,
}

/// An encryption format error.
#[derive(Debug)]
pub enum EncryptError {
    /// An I/O error: the bytes end before their header says, an error of the kind
    /// `UnexpectedEof`.
    Io(std::io::Error),
    /// An Argon2 error.
    Argon2(argon2::Error),
    /// A `ChaCha20Poly1305` error.
    ChaCha20Poly1305(chacha20poly1305::Error),
    /// A password was not set.
    MissingPassword,
    /// The given bytes are missing the magic header.
    InvalidMagic,
}

impl EncryptError {
    /// The kind of this error.
    pub open spec fn spec_kind(&self) -> EncryptErrorKind {
        match self {
            EncryptError::Io(_) => EncryptErrorKind::Io,
            EncryptError::Argon2(_) => EncryptErrorKind::Argon2,
            EncryptError::ChaCha20Poly1305(_) => EncryptErrorKind::ChaCha20Poly1305,
            EncryptError::MissingPassword => EncryptErrorKind::MissingPassword,
            EncryptError::InvalidMagic => EncryptErrorKind::InvalidMagic,
        }
    }

    /// Returns the kind of this error.
    pub fn kind(&self) -> (r: EncryptErrorKind)
        ensures
            r == self.spec_kind(),
    {
        match self {
            EncryptError::Io(_) => EncryptErrorKind::Io,
            EncryptError::Argon2(_) => EncryptErrorKind::Argon2,
            EncryptError::ChaCha20Poly1305(_) => EncryptErrorKind::ChaCha20Poly1305,
            EncryptError::MissingPassword => EncryptErrorKind::MissingPassword,
            EncryptError::InvalidMagic => EncryptErrorKind::InvalidMagic,
        }
    }
}

/// The parts of sealed bytes.
#[derive(Debug)]
pub struct Frame {
    /// The salt the key was derived with.
    pub salt: Vec<u8>,
    /// The nonce the data was sealed with.
    pub nonce: Vec<u8>,
    /// The sealed data.
    pub ciphertext: Vec<u8>,
}

/// What reading the parts of sealed bytes gives: the salt, the nonce and the ciphertext.
pub open spec fn spec_parse_frame(bytes: Seq<u8>) -> Result<(Seq<u8>, Seq<u8>, Seq<u8>), EncryptErrorKind> {
    if bytes.len() < 3 || bytes.subrange(0, 3) != spec_magic() {
        Err(EncryptErrorKind::InvalidMagic)
    } else if bytes.len() < 11 {
        Err(EncryptErrorKind::Io)
    } else {
        let salt_len = spec_u64_from_le_bytes(bytes.subrange(3, 11)) as int;
        if bytes.len() - 11 < salt_len {
            Err(EncryptErrorKind::Io)
        } else {
            let at = 11 + salt_len;
            if bytes.len() - at < 8 {
                Err(EncryptErrorKind::Io)
            } else {
                let nonce_len = spec_u64_from_le_bytes(bytes.subrange(at, at + 8)) as int;
                if bytes.len() - (at + 8) < nonce_len {
                    Err(EncryptErrorKind::Io)
                } else {
                    Ok(
                        (
                            bytes.subrange(11, at),
                            bytes.subrange(at + 8, at + 8 + nonce_len),
                            bytes.subrange(at + 8 + nonce_len, bytes.len() as int),
                        ),
                    )
                }
            }
        }
    }
}

/// What opening sealed bytes with a password gives.
pub open spec fn spec_open(password: Option<Seq<u8>>, bytes: Seq<u8>) -> Result<Seq<u8>, EncryptErrorKind> {
    match spec_parse_frame(bytes) {
        Err(e) => Err(e),
        Ok((salt, nonce, ciphertext)) => match password {
            None => Err(EncryptErrorKind::MissingPassword),
            Some(p) => match argon2id_key(p, salt) {
                None => Err(EncryptErrorKind::Argon2),
                Some(key) => match xchacha_opened(key, nonce, ciphertext) {
                    None => Err(EncryptErrorKind::ChaCha20Poly1305),
                    Some(plaintext) => Ok(plaintext),
                },
            },
        },
    }
}

/// What sealing gives under a password, with a given salt and nonce: the key is derived from the
/// password and the salt, the bytes are encrypted under that key and the nonce, and the salt, the
/// nonce and the ciphertext are laid out as sealed bytes.
pub open spec fn spec_seal_with(password: Seq<u8>, salt: Seq<u8>, nonce: Seq<u8>, plaintext: Seq<u8>) -> Result<
    Seq<u8>,
    EncryptErrorKind,
> {
    match argon2id_key(password, salt) {
        None => Err(EncryptErrorKind::Argon2),
        Some(key) => match xchacha_sealed(key, nonce, plaintext) {
            None => Err(EncryptErrorKind::ChaCha20Poly1305),
            Some(ciphertext) => Ok(spec_frame(salt, nonce, ciphertext)),
        },
    }
}

/// Seals bytes under a password with the given salt and 24-byte nonce. The password is wiped once
/// the key is derived, and the key once the bytes are encrypted.
///
/// # Errors
///
/// This function will return an error if the key cannot be derived or the data cannot be
/// encrypted.
pub fn seal_with(password: Vec<u8>, salt: &[u8], nonce: &[u8], plaintext: &[u8]) -> (r: Result<Vec<u8>, EncryptError>)
    requires
        nonce@.len() == 24,
    ensures
        match spec_seal_with(password@, salt@, nonce@, plaintext@) {
            Ok(out) => r matches Ok(x) && x@ == out,
            Err(e) => r matches Err(x) && x.spec_kind() == e,
        },
        r matches Ok(out) ==> spec_open(Some(password@), out@) == Ok::<Seq<u8>, EncryptErrorKind>(plaintext@),
        r matches Ok(out) ==> spec_openable(out@),
{
    let mut password = password;
    let ghost password_bytes = password@;
    let mut key = match argon2id_derive(password.as_slice(), salt) {
        Ok(key) => key,
        Err(e) => {
            return Err(EncryptError::Argon2(e));
        },
    };
    wipe(&mut password);
    let sealed = xchacha_encrypt(key.as_slice(), nonce, plaintext);
    let ghost key_bytes = key@;
    wipe(&mut key);
    let ciphertext = match sealed {
        Ok(c) => c,
        Err(e) => {
            return Err(EncryptError::ChaCha20Poly1305(e));
        },
    };
    let output = frame(salt, nonce, ciphertext.as_slice());
    let salt_len = salt.len();
    let nonce_len = nonce.len();
    let ciphertext_len = ciphertext.len();
    proof {
        assert(salt@.len() == salt_len && nonce@.len() == nonce_len && ciphertext@.len() == ciphertext_len);
        lemma_parse_frame_of_frame(salt@, nonce@, ciphertext@);
        assert(argon2id_key(password_bytes, salt@) == Some(key_bytes));
    }
    Ok(output)
}

/// Whether sealed bytes may be handed to `open`: a nonce they hold is 24 bytes long.
pub open spec fn spec_openable(bytes: Seq<u8>) -> bool {
    spec_parse_frame(bytes) matches Ok((_, nonce, _)) ==> nonce.len() == 24
}

/// Copies a slice into a new vector.
fn copy_bytes(src: &[u8]) -> (r: Vec<u8>)
    ensures
        r@ == src@,
{
    vstd::slice::slice_to_vec(src)
}

/// Appends a slice to a vector.
fn append_bytes(out: &mut Vec<u8>, src: &[u8])
    ensures
        final(out)@ == old(out)@ + src@,
{
    out.extend_from_slice(src);
    assert(out@ =~= old(out)@ + src@);
}

/// Lays a salt, a nonce and a ciphertext out as sealed bytes.
pub fn frame(salt: &[u8], nonce: &[u8], ciphertext: &[u8]) -> (r: Vec<u8>)
    ensures
        r@ == spec_frame(salt@, nonce@, ciphertext@),
{
    let mut out: Vec<u8> = Vec::new();
    out.push(0x31u8);
    out.push(0x4Eu8);
    out.push(0x34u8);
    let salt_len = u64_to_le_bytes(salt.len() as u64);
    append_bytes(&mut out, salt_len.as_slice());
    append_bytes(&mut out, salt);
    let nonce_len = u64_to_le_bytes(nonce.len() as u64);
    append_bytes(&mut out, nonce_len.as_slice());
    append_bytes(&mut out, nonce);
    append_bytes(&mut out, ciphertext);
    assert(out@ =~= spec_frame(salt@, nonce@, ciphertext@));
    out
}

/// Reads the parts of sealed bytes.
///
/// # Errors
///
/// This function will return an error if the magic header is missing or the bytes end early.
pub fn parse_frame(bytes: &[u8]) -> (r: Result<Frame, EncryptError>)
    ensures
        match spec_parse_frame(bytes@) {
            Ok((salt, nonce, ciphertext)) => r matches Ok(f) && f.salt@ == salt && f.nonce@ == nonce
                && f.ciphertext@ == ciphertext,
            Err(e) => r matches Err(x) && x.spec_kind() == e,
        },
{
    let n = bytes.len();
    if n < 3 || bytes[0] != 0x31u8 || bytes[1] != 0x4Eu8 || bytes[2] != 0x34u8 {
        proof {
            if n >= 3 && bytes@.subrange(0, 3) == spec_magic() {
                assert(bytes@.subrange(0, 3)[0] == bytes@[0]);
                assert(bytes@.subrange(0, 3)[1] == bytes@[1]);
                assert(bytes@.subrange(0, 3)[2] == bytes@[2]);
            }
        }
        return Err(EncryptError::InvalidMagic);
    }
    assert(bytes@.subrange(0, 3) =~= spec_magic());
    if n < 11 {
        return Err(EncryptError::Io(unexpected_eof()));
    }
    let salt_len_bytes = &bytes[3..11];
    assert(salt_len_bytes@ =~= bytes@.subrange(3, 11));
    let salt_len = u64_from_le_bytes(salt_len_bytes);
    if ((n - 11) as u64) < salt_len {
        return Err(EncryptError::Io(unexpected_eof()));
    }
    let salt_len = salt_len as usize;
    let at = 11 + salt_len;
    if n - at < 8 {
        return Err(EncryptError::Io(unexpected_eof()));
    }
    let nonce_len_bytes = &bytes[at..at + 8];
    assert(nonce_len_bytes@ =~= bytes@.subrange(at as int, at + 8));
    let nonce_len = u64_from_le_bytes(nonce_len_bytes);
    if ((n - (at + 8)) as u64) < nonce_len {
        return Err(EncryptError::Io(unexpected_eof()));
    }
    let nonce_len = nonce_len as usize;
    let salt = copy_bytes(&bytes[11..at]);
    let nonce = copy_bytes(&bytes[at + 8..at + 8 + nonce_len]);
    let ciphertext = copy_bytes(&bytes[at + 8 + nonce_len..n]);
    assert(salt@ =~= bytes@.subrange(11, at as int));
    assert(nonce@ =~= bytes@.subrange(at + 8, at + 8 + nonce_len));
    assert(ciphertext@ =~= bytes@.subrange(at + 8 + nonce_len, n as int));
    Ok(Frame { salt, nonce, ciphertext })
}

/// Reading the parts of laid-out sealed bytes gives back the parts.
pub proof fn lemma_parse_frame_of_frame(salt: Seq<u8>, nonce: Seq<u8>, ciphertext: Seq<u8>)
    requires
        salt.len() <= u64::MAX,
        nonce.len() <= u64::MAX,
    ensures
        spec_parse_frame(spec_frame(salt, nonce, ciphertext)) == Ok::<
            (Seq<u8>, Seq<u8>, Seq<u8>),
            EncryptErrorKind,
        >((salt, nonce, ciphertext)),
{
    vstd::bytes::lemma_auto_spec_u64_to_from_le_bytes();
    let b = spec_frame(salt, nonce, ciphertext);
    let sl = spec_u64_to_le_bytes(salt.len() as u64);
    let nl = spec_u64_to_le_bytes(nonce.len() as u64);
    assert(b.subrange(0, 3) =~= spec_magic());
    assert(b.subrange(3, 11) =~= sl);
    let at: int = 11 + salt.len() as int;
    assert(b.subrange(at, at + 8) =~= nl);
    assert(b.subrange(11, at) =~= salt);
    assert(b.subrange(at + 8, at + 8 + nonce.len() as int) =~= nonce);
    assert(b.subrange(at + 8 + nonce.len() as int, b.len() as int) =~= ciphertext);
}

/// Encrypts the wrapped format.
#[derive(Clone, Copy, Debug, Default, PartialEq, Eq)]
pub struct Encrypt<F> {
    /// The inner format.
    inner: F,
}

impl<F> Encrypt<F> {
    /// The inner format.
    pub closed spec fn spec_inner(&self) -> F {
        self.inner
    }

    /// Creates a new [`Encrypt<F>`].
    pub fn new(inner: F) -> (r: Encrypt<F>)
        ensures
            r.spec_inner() == inner,
    {
        Encrypt { inner }
    }

    /// Returns the inner format.
    pub fn inner(&self) -> (r: &F)
        ensures
            *r == self.spec_inner(),
    {
        &self.inner
    }

    /// Seals the bytes an inner format encoded, with a key derived from the password and a fresh
    /// salt, under a fresh nonce.
    ///
    /// # Errors
    ///
    /// This function will return an error if no password is given, the key cannot be derived, or
    /// the data cannot be encrypted.
    pub fn seal(&self, password: Option<Vec<u8>>, plaintext: &[u8]) -> (r: Result<Vec<u8>, EncryptError>)
        ensures
            password is None ==> r matches Err(EncryptError::MissingPassword),
            r matches Ok(out) ==> exists|salt: Seq<u8>, nonce: Seq<u8>, key: Seq<u8>, ciphertext: Seq<u8>|
                {
                    &&& salt.len() == 22
                    &&& nonce.len() == 24
                    &&& password matches Some(p) && argon2id_key(p@, salt) == Some(key)
                    &&& xchacha_sealed(key, nonce, plaintext@) == Some(ciphertext)
                    &&& out@ == spec_frame(salt, nonce, ciphertext)
                },
            r matches Ok(out) ==> (password matches Some(p) && spec_open(Some(p@), out@) == Ok::<
                Seq<u8>,
                EncryptErrorKind,
            >(plaintext@)),
            r matches Ok(out) ==> spec_openable(out@),
            r matches Err(EncryptError::Argon2(_)) ==> exists|salt: Seq<u8>|
                salt.len() == 22 && (password matches Some(p) && argon2id_key(p@, salt) is None),
            r matches Err(EncryptError::ChaCha20Poly1305(_)) ==> exists|salt: Seq<u8>, nonce: Seq<u8>, key: Seq<u8>|
                {
                    &&& salt.len() == 22
                    &&& nonce.len() == 24
                    &&& password matches Some(p) && argon2id_key(p@, salt) == Some(key)
                    &&& xchacha_sealed(key, nonce, plaintext@) is None
                },
            !(r matches Err(EncryptError::Io(_))),
            !(r matches Err(EncryptError::InvalidMagic)),
            password is Some ==> !(r matches Err(EncryptError::MissingPassword)),
    {
        let mut salt = random_salt();
        let password = match password {
            Some(p) => p,
            None => {
                return Err(EncryptError::MissingPassword);
            },
        };
        let ghost password_bytes = password@;
        let mut nonce = random_nonce();
        let ghost salt_bytes = salt@;
        let ghost nonce_bytes = nonce@;
        let sealed = seal_with(password, salt.as_slice(), nonce.as_slice(), plaintext);
        proof {
            match argon2id_key(password_bytes, salt_bytes) {
                None => {},
                Some(key) => {
                    assert(argon2id_key(password_bytes, salt_bytes) == Some(key));
                    match xchacha_sealed(key, nonce_bytes, plaintext@) {
                        None => {},
                        Some(c) => {
                            assert(xchacha_sealed(key, nonce_bytes, plaintext@) == Some(c));
                        },
                    }
                },
            }
        }
        wipe(&mut salt);
        wipe(&mut nonce);
        sealed
    }

    /// Opens sealed bytes into the bytes the inner format decodes.
    ///
    /// # Errors
    ///
    /// This function will return an error if the bytes are not sealed bytes, no password is given,
    /// the key cannot be derived, or the data fails to authenticate.
    pub fn open(&self, password: Option<Vec<u8>>, bytes: &[u8]) -> (r: Result<Vec<u8>, EncryptError>)
        requires
            spec_openable(bytes@),
        ensures
            match spec_open(
                match password {
                    Some(p) => Some(p@),
                    None => None,
                },
                bytes@,
            ) {
                Ok(plaintext) => r matches Ok(out) && out@ == plaintext,
                Err(e) => r matches Err(x) && x.spec_kind() == e,
            },
    {
        let f = parse_frame(bytes)?;
        let mut salt = f.salt;
        let mut nonce = f.nonce;
        let mut password = match password {
            Some(p) => p,
            None => {
                return Err(EncryptError::MissingPassword);
            },
        };
        let mut key = match argon2id_derive(password.as_slice(), salt.as_slice()) {
            Ok(key) => key,
            Err(e) => {
                return Err(EncryptError::Argon2(e));
            },
        };
        wipe(&mut password);
        wipe(&mut salt);
        let opened = xchacha_decrypt(key.as_slice(), nonce.as_slice(), f.ciphertext.as_slice());
        wipe(&mut key);
        wipe(&mut nonce);
        match opened {
            Ok(plaintext) => Ok(plaintext),
            Err(e) => Err(EncryptError::ChaCha20Poly1305(e)),
        }
    }
}

impl<F: DataFormat> DataFormat for Encrypt<F> {
    open spec fn spec_extension(&self) -> Seq<char> {
        self.spec_inner().spec_extension() + ".cha"@
    }

    fn extension(&self) -> (r: String) {
        let inner = self.inner.extension();
        proof {
            reveal_strlit(".cha");
        }
        extension_with_suffix(inner.as_str(), ".cha")
    }
}

} // verus!
