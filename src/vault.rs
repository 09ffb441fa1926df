//! Encrypted storage of the replication settings: AES-256-GCM with a fresh
//! nonce per write, the nonce stored in front of the sealed bytes, the whole
//! kept as base64 text. Reading and writing the files is the caller's part.
use vstd::prelude::*;
use aes_gcm::aead::{Aead, KeyInit};
use vstd::string::StringSliceAdditionalSpecFns;
use crate::text::{is_white_space, is_white_space_char};

verus! {

pub const KEY_SIZE: usize = 32;

pub const NONCE_SIZE: usize = 12;

/// The authentication tag that AES-GCM appends.
pub const TAG_SIZE: usize = 16;

/// The longest plaintext that AES-GCM seals.
pub const MAX_PLAINTEXT: u64 = 68719476736;

/// AES-256-GCM with key `key` and nonce `nonce` applied to `plaintext`,
/// without associated data: the ciphertext followed by the tag.
pub uninterp spec fn aes_gcm_sealed(key: Seq<u8>, nonce: Seq<u8>, plaintext: Seq<u8>) -> Seq<u8>;

/// AES-256-GCM decryption of `sealed`: the plaintext when the tag checks.
pub uninterp spec fn aes_gcm_opened(key: Seq<u8>, nonce: Seq<u8>, sealed: Seq<u8>) -> Option<Seq<u8>>;

/// Standard base64, padded, of `bytes`.
pub uninterp spec fn base64_text(bytes: Seq<u8>) -> Seq<char>;

/// The bytes that padded standard base64 `text` stands for, if it is valid.
pub uninterp spec fn base64_bytes(text: Seq<char>) -> Option<Seq<u8>>;

/// How many white-space characters `text` begins with.
pub open spec fn leading_white(text: Seq<char>) -> nat
    decreases text.len(),
{
    if text.len() > 0 && is_white_space(text[0]) {
        1 + leading_white(text.drop_first())
    } else {
        0
    }
}

/// How many white-space characters `text` ends with.
pub open spec fn trailing_white(text: Seq<char>) -> nat
    decreases text.len(),
{
    if text.len() > 0 && is_white_space(text.last()) {
        1 + trailing_white(text.drop_last())
    } else {
        0
    }
}

/// `text` without leading and trailing white space.
pub open spec fn trimmed(text: Seq<char>) -> Seq<char> {
    let rest = text.skip(leading_white(text) as int);
    rest.take(rest.len() - trailing_white(rest))
}

/// Relies on `Aes256Gcm::new_from_slice` (which accepts a 32-byte key) and
/// `Aead::encrypt`: the sealed bytes are the plaintext's length plus the
/// 16-byte tag, and only a plaintext over `MAX_PLAINTEXT` is refused.
#[verifier::external_body]
fn aes_seal(key: &[u8], nonce: &[u8], plaintext: &[u8]) -> (r: Option<Vec<u8>>)
    requires
        key@.len() == KEY_SIZE,
        nonce@.len() == NONCE_SIZE,
    ensures
        r.is_some() == (plaintext@.len() <= MAX_PLAINTEXT),
        r matches Some(c) ==> c@ == aes_gcm_sealed(key@, nonce@, plaintext@),
        r matches Some(c) ==> c@.len() == plaintext@.len() + TAG_SIZE,
{
    match aes_gcm::Aes256Gcm::new_from_slice(key) {
        #[allow(deprecated)]
        Ok(cipher) => cipher.encrypt(aes_gcm::Nonce::from_slice(nonce), plaintext).ok(),
        Err(_) => None,
    }
}

/// Relies on `Aes256Gcm::new_from_slice` and `Aead::decrypt`: the plaintext
/// when the tag checks, nothing otherwise.
#[verifier::external_body]
fn aes_open(key: &[u8], nonce: &[u8], sealed: &[u8]) -> (r: Option<Vec<u8>>)
    requires
        key@.len() == KEY_SIZE,
        nonce@.len() == NONCE_SIZE,
    ensures
        match r {
            Some(p) => aes_gcm_opened(key@, nonce@, sealed@) == Some(p@),
            None => aes_gcm_opened(key@, nonce@, sealed@).is_none(),
        },
{
    match aes_gcm::Aes256Gcm::new_from_slice(key) {
        #[allow(deprecated)]
        Ok(cipher) => cipher.decrypt(aes_gcm::Nonce::from_slice(nonce), sealed).ok(),
        Err(_) => None,
    }
}

/// Relies on `rand::Rng::fill` with `rand::thread_rng`: `n` random bytes.
#[verifier::external_body]
fn random_bytes(n: usize) -> (r: Vec<u8>)
    ensures
        r@.len() == n,
{
    let mut buf = vec![0u8; n];
    rand::Rng::fill(&mut rand::thread_rng(), &mut buf[..]);
    buf
}

/// Relies on `base64::Engine::encode` with the `STANDARD` engine.
#[verifier::external_body]
fn base64_encode(bytes: &[u8]) -> (r: String)
    ensures
        r@ == base64_text(bytes@),
{
    base64::Engine::encode(&base64::engine::general_purpose::STANDARD, bytes)
}

/// Relies on `base64::Engine::decode` with the `STANDARD` engine.
#[verifier::external_body]
fn base64_decode(text: &str) -> (r: Option<Vec<u8>>)
    ensures
        match r {
            Some(b) => base64_bytes(text@) == Some(b@),
            None => base64_bytes(text@).is_none(),
        },
{
    base64::Engine::decode(&base64::engine::general_purpose::STANDARD, text).ok()
}

proof fn lemma_leading_white(text: Seq<char>, i: int)
    requires
        0 <= i <= text.len(),
        forall|k: int| 0 <= k < i ==> is_white_space(#[trigger] text[k]),
        i == text.len() || !is_white_space(text[i]),
    ensures
        leading_white(text) == i,
    decreases i,
{
    if i > 0 {
        lemma_leading_white(text.drop_first(), i - 1);
    }
}

proof fn lemma_trailing_white(text: Seq<char>, m: int)
    requires
        0 <= m <= text.len(),
        forall|k: int| text.len() - m <= k < text.len() ==> is_white_space(#[trigger] text[k]),
        m == text.len() || !is_white_space(text[text.len() - m - 1]),
    ensures
        trailing_white(text) == m,
    decreases m,
{
    if m > 0 {
        lemma_trailing_white(text.drop_last(), m - 1);
    }
}

/// `text` without leading and trailing white space.
fn trim_text(text: &str) -> (r: &str)
    ensures
        r@ == trimmed(text@),
{
    let n = text.unicode_len();
    let mut a: usize = 0;
    while a < n && is_white_space_char(text.get_char(a))
        invariant
            n == text@.len(),
            a <= n,
            forall|k: int| 0 <= k < a ==> is_white_space(#[trigger] text@[k]),
        decreases n - a,
    {
        a = a + 1;
    }
    let mut b: usize = n;
    while b > a && is_white_space_char(text.get_char(b - 1))
        invariant
            n == text@.len(),
            a <= b <= n,
            forall|k: int| b <= k < n ==> is_white_space(#[trigger] text@[k]),
        decreases b,
    {
        b = b - 1;
    }
    proof {
        lemma_leading_white(text@, a as int);
        let rest = text@.skip(a as int);
        assert forall|k: int| rest.len() - (n - b) <= k < rest.len() implies is_white_space(
            #[trigger] rest[k],
        ) by {
            assert(rest[k] == text@[a + k]);
        }
        if b > a {
            assert(rest[rest.len() - (n - b) - 1] == text@[b - 1]);
        }
        lemma_trailing_white(rest, (n - b) as int);
        assert(rest.take(rest.len() - (n - b)) =~= text@.subrange(a as int, b as int));
    }
    text.substring_char(a, b)
}

/// Why the settings store refused.
#[derive(PartialEq, Eq, Structural, Debug, Clone, Copy)]
pub enum VaultError {
    InvalidKeyLength,
    EncryptionFailed,
    DataTooShort,
    DecryptionFailed,
    DecodeFailed,
}

/// The bytes of a sealed message: the nonce, then the sealed plaintext.
pub open spec fn framed(key: Seq<u8>, nonce: Seq<u8>, plaintext: Seq<u8>) -> Seq<u8> {
    nonce + aes_gcm_sealed(key, nonce, plaintext)
}

/// What a stored message opens to under `key`.
pub open spec fn unframed(key: Seq<u8>, data: Seq<u8>) -> Result<Seq<u8>, VaultError> {
    if data.len() < NONCE_SIZE {
        Err(VaultError::DataTooShort)
    } else {
        match aes_gcm_opened(key, data.take(NONCE_SIZE as int), data.skip(NONCE_SIZE as int)) {
            Some(p) => Ok(p),
            None => Err(VaultError::DecryptionFailed),
        }
    }
}

/// What stored settings text opens to under `key`.
pub open spec fn opened_text(key: Seq<u8>, text: Seq<char>) -> Result<Seq<u8>, VaultError> {
    match base64_bytes(trimmed(text)) {
        None => Err(VaultError::DecodeFailed),
        Some(data) => unframed(key, data),
    }
}

/// The key and the path of the settings file.
pub struct EncryptedStorage {
    storage_path: String,
    key: Vec<u8>,
}

impl EncryptedStorage {
    #[verifier::type_invariant]
    spec fn key_is_sized(&self) -> bool {
        self.key@.len() == KEY_SIZE
    }

    pub closed spec fn key(&self) -> Seq<u8> {
        self.key@
    }

    pub closed spec fn path(&self) -> Seq<char> {
        self.storage_path@
    }

    /// A store with a key read back from disk; it must be 32 bytes.
    pub fn with_key(storage_path: String, key_data: Vec<u8>) -> (r: Result<EncryptedStorage, VaultError>)
        ensures
            key_data@.len() == KEY_SIZE <==> r.is_ok(),
            r matches Ok(s) ==> s.key() == key_data@ && s.path() == storage_path@,
            r is Err ==> r == Err::<EncryptedStorage, VaultError>(VaultError::InvalidKeyLength),
    {
        if key_data.len() != KEY_SIZE {
            return Err(VaultError::InvalidKeyLength);
        }
        Ok(EncryptedStorage { storage_path, key: key_data })
    }

    /// A store with a freshly drawn random key.
    pub fn with_new_key(storage_path: String) -> (r: EncryptedStorage)
        ensures
            r.key().len() == KEY_SIZE,
            r.path() == storage_path@,
    {
        EncryptedStorage { storage_path, key: random_bytes(KEY_SIZE) }
    }

    /// The key, to be kept beside the settings.
    pub fn key_bytes(&self) -> (r: Vec<u8>)
        ensures
            r@ == self.key(),
            r@.len() == KEY_SIZE,
    {
        proof { use_type_invariant(self); }
        self.key.clone()
    }

    /// Where the settings are kept.
    pub fn storage_path(&self) -> (r: &str)
        ensures
            r@ == self.path(),
    {
        self.storage_path.as_str()
    }

    /// Seals `plaintext` under the given nonce and puts the nonce in front.
    pub fn seal_with_nonce(&self, plaintext: &[u8], nonce: &[u8]) -> (r: Result<Vec<u8>, VaultError>)
        requires
            nonce@.len() == NONCE_SIZE,
        ensures
            plaintext@.len() <= MAX_PLAINTEXT ==> (r matches Ok(v) && v@ == framed(
                self.key(),
                nonce@,
                plaintext@,
            )),
            plaintext@.len() > MAX_PLAINTEXT ==> r == Err::<Vec<u8>, VaultError>(
                VaultError::EncryptionFailed,
            ),
    {
        proof { use_type_invariant(self); }
        match aes_seal(self.key.as_slice(), nonce, plaintext) {
            Some(sealed) => {
                let mut out: Vec<u8> = Vec::new();
                let mut i: usize = 0;
                while i < nonce.len()
                    invariant
                        i <= nonce@.len(),
                        out@ == nonce@.take(i as int),
                    decreases nonce@.len() - i,
                {
                    out.push(nonce[i]);
                    i = i + 1;
                    assert(out@ =~= nonce@.take(i as int));
                }
                let mut j: usize = 0;
                while j < sealed.len()
                    invariant
                        j <= sealed@.len(),
                        out@ == nonce@ + sealed@.take(j as int),
                    decreases sealed@.len() - j,
                {
                    out.push(sealed[j]);
                    j = j + 1;
                    assert(out@ =~= nonce@ + sealed@.take(j as int));
                }
                assert(nonce@.take(nonce@.len() as int) =~= nonce@);
                assert(sealed@.take(sealed@.len() as int) =~= sealed@);
                Ok(out)
            },
            None => Err(VaultError::EncryptionFailed),
        }
    }

    /// Seals `plaintext` under a fresh random nonce.
    pub fn encrypt(&self, plaintext: &[u8]) -> (r: Result<Vec<u8>, VaultError>)
        ensures
            plaintext@.len() <= MAX_PLAINTEXT ==> (r matches Ok(v) && v@.len() >= NONCE_SIZE
                && v@ == framed(self.key(), v@.take(NONCE_SIZE as int), plaintext@)),
            plaintext@.len() > MAX_PLAINTEXT ==> r == Err::<Vec<u8>, VaultError>(
                VaultError::EncryptionFailed,
            ),
    {
        let nonce = random_bytes(NONCE_SIZE);
        let r = self.seal_with_nonce(plaintext, nonce.as_slice());
        proof {
            if r.is_ok() {
                assert(r->Ok_0@.take(NONCE_SIZE as int) =~= nonce@);
            }
        }
        r
    }

    /// Opens a sealed message: the nonce in front, then the sealed bytes.
    pub fn decrypt(&self, data: &[u8]) -> (r: Result<Vec<u8>, VaultError>)
        ensures
            match unframed(self.key(), data@) {
                Ok(p) => r matches Ok(v) && v@ == p,
                Err(e) => r == Err::<Vec<u8>, VaultError>(e),
            },
    {
        proof { use_type_invariant(self); }
        if data.len() < NONCE_SIZE {
            return Err(VaultError::DataTooShort);
        }
        let (nonce, sealed) = data.split_at(NONCE_SIZE);
        assert(nonce@ =~= data@.take(NONCE_SIZE as int));
        assert(sealed@ =~= data@.skip(NONCE_SIZE as int));
        match aes_open(self.key.as_slice(), nonce, sealed) {
            Some(p) => Ok(p),
            None => Err(VaultError::DecryptionFailed),
        }
    }

    /// The settings text to store for `json`, sealed under `nonce`.
    pub fn seal_settings_with_nonce(&self, json: &str, nonce: &[u8]) -> (r: Result<String, VaultError>)
        requires
            nonce@.len() == NONCE_SIZE,
        ensures
            json.spec_bytes().len() <= MAX_PLAINTEXT ==> (r matches Ok(t) && t@ == base64_text(
                framed(self.key(), nonce@, json.spec_bytes()),
            )),
            json.spec_bytes().len() > MAX_PLAINTEXT ==> r == Err::<String, VaultError>(
                VaultError::EncryptionFailed,
            ),
    {
        match self.seal_with_nonce(json.as_bytes(), nonce) {
            Ok(v) => Ok(base64_encode(v.as_slice())),
            Err(e) => Err(e),
        }
    }

    /// The settings text to store for `json`, sealed under a fresh nonce.
    pub fn seal_settings(&self, json: &str) -> (r: Result<String, VaultError>)
        ensures
            json.spec_bytes().len() <= MAX_PLAINTEXT ==> (r matches Ok(t) && exists|nonce: Seq<u8>|
                nonce.len() == NONCE_SIZE && t@ == base64_text(
                    #[trigger] framed(self.key(), nonce, json.spec_bytes()),
                )),
            json.spec_bytes().len() > MAX_PLAINTEXT ==> r == Err::<String, VaultError>(
                VaultError::EncryptionFailed,
            ),
    {
        let nonce = random_bytes(NONCE_SIZE);
        self.seal_settings_with_nonce(json, nonce.as_slice())
    }

    /// The settings bytes that stored text opens to.
    pub fn open_settings(&self, text: &str) -> (r: Result<Vec<u8>, VaultError>)
        ensures
            match opened_text(self.key(), text@) {
                Ok(p) => r matches Ok(v) && v@ == p,
                Err(e) => r == Err::<Vec<u8>, VaultError>(e),
            },
    {
        match base64_decode(trim_text(text)) {
            Some(data) => self.decrypt(data.as_slice()),
            None => Err(VaultError::DecodeFailed),
        }
    }
}

} // verus!
