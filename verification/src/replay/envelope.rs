//! Sealed envelopes: records encrypted under a passphrase.
//!
//! An envelope holds the encrypted bytes of a record and some metadata in the
//! clear. Its key comes from the passphrase by Argon2id; ChaCha20-Poly1305
//! encrypts and authenticates. The encodings of a record and of an envelope's body
//! are bytes here; whoever holds the values encodes them.

use crate::fault::{MalcolmClock, RealClock};
use crate::replay::{RecordView, ScenarioRecord};
use crate::text;
use argon2::{Algorithm, Argon2, Params, Version};
use chacha20poly1305::aead::Aead;
use chacha20poly1305::{ChaCha20Poly1305, Key, KeyInit, Nonce};
use rand::rngs::SysRng;
use rand::TryRng;
use vstd::prelude::*;
use vstd::string::StrSliceExecFns;
use vstd::utf8::encode_utf8;

verus! {

/// Version of the envelope format.
pub const ENVELOPE_VERSION: u8 = 1;

/// Number of bytes before the body of an envelope.
pub const HEADER_LEN: usize = 5;

/// Memory that key derivation takes, in KiB.
pub const ARGON2_MEMORY_KIB: u32 = 19_456;

/// Number of passes of key derivation.
pub const ARGON2_PASSES: u32 = 2;

/// Degree of parallelism of key derivation.
pub const ARGON2_LANES: u32 = 1;

/// Largest number of bytes that the cipher takes in one message.
pub const MAX_PLAINTEXT_LEN: u64 = 274_877_906_816;

/// Number of bytes that the cipher adds to a message.
pub const TAG_LEN: u64 = 16;

/// The key that Argon2id (version 0x13, 32 bytes of output, no secret and no
/// associated data) derives from a passphrase and a salt.
pub uninterp spec fn argon2id_key(
    passphrase: Seq<u8>,
    salt: Seq<u8>,
    memory_kib: u32,
    passes: u32,
    lanes: u32,
) -> Seq<u8>;

/// What ChaCha20-Poly1305 makes of a message, with no associated data.
pub uninterp spec fn chacha20poly1305_sealed(
    key: Seq<u8>,
    nonce: Seq<u8>,
    plaintext: Seq<u8>,
) -> Seq<u8>;

/// The message in a ChaCha20-Poly1305 ciphertext with no associated data; nothing
/// if it does not authenticate.
pub uninterp spec fn chacha20poly1305_opened(
    key: Seq<u8>,
    nonce: Seq<u8>,
    ciphertext: Seq<u8>,
) -> Option<Seq<u8>>;

/// Derives a key by `Argon2::hash_password_into` of `argon2`.
///
/// With parameters in this range and a salt of 16 bytes it fails only on a
/// passphrase of more than 2^32 - 1 bytes.
#[verifier::external_body]
fn argon2id(
    passphrase: &Vec<u8>,
    salt: &[u8; 16],
    memory_kib: u32,
    passes: u32,
    lanes: u32,
) -> (r: Option<[u8; 32]>)
    requires
        8 <= memory_kib <= 65_536,
        1 <= passes <= 16,
        lanes == 1,
    ensures
        r is Some <==> passphrase@.len() <= 0xFFFF_FFFF,
        r is Some ==> r->0@ == argon2id_key(passphrase@, salt@, memory_kib, passes, lanes),
{
    let params = Params::new(memory_kib, passes, lanes, Some(32)).ok()?;
    let mut key = [0u8; 32];
    let context = Argon2::new(Algorithm::Argon2id, Version::V0x13, params);
    context.hash_password_into(passphrase, salt, &mut key).ok()?;
    Some(key)
}

/// Encrypts by `ChaCha20Poly1305::encrypt` of `chacha20poly1305`.
///
/// It succeeds on every message of this length, and what it gives decrypts to the
/// message under the same key and nonce.
#[verifier::external_body]
fn chacha_encrypt(key: &[u8; 32], nonce: &[u8; 12], plaintext: &Vec<u8>) -> (r: Option<Vec<u8>>)
    requires
        plaintext@.len() <= MAX_PLAINTEXT_LEN,
    ensures
        r is Some,
        r->0@ == chacha20poly1305_sealed(key@, nonce@, plaintext@),
        r->0@.len() == plaintext@.len() + TAG_LEN,
        chacha20poly1305_opened(key@, nonce@, r->0@) == Some(plaintext@),
{
    let cipher = ChaCha20Poly1305::new(Key::from_slice(key));
    cipher.encrypt(Nonce::from_slice(nonce), plaintext.as_slice()).ok()
}

/// Decrypts by `ChaCha20Poly1305::decrypt` of `chacha20poly1305`.
#[verifier::external_body]
fn chacha_decrypt(key: &[u8; 32], nonce: &[u8; 12], ciphertext: &Vec<u8>) -> (r: Option<Vec<u8>>)
    requires
        ciphertext@.len() <= MAX_PLAINTEXT_LEN + TAG_LEN,
    ensures
        r is Some <==> chacha20poly1305_opened(key@, nonce@, ciphertext@) is Some,
        r is Some ==> chacha20poly1305_opened(key@, nonce@, ciphertext@) == Some(r->0@),
{
    let cipher = ChaCha20Poly1305::new(Key::from_slice(key));
    cipher.decrypt(Nonce::from_slice(nonce), ciphertext.as_slice()).ok()
}

/// Random bytes from the operating system by `SysRng::try_fill_bytes` of `rand`;
/// nothing if it has none to give.
#[verifier::external_body]
fn entropy<const N: usize>() -> (r: Option<[u8; N]>) {
    let mut bytes = [0u8; N];
    SysRng.try_fill_bytes(&mut bytes).ok()?;
    Some(bytes)
}

/// True if the random source of the operating system may have given `bytes`.
pub closed spec fn is_drawn<const N: usize>(bytes: Option<[u8; N]>) -> bool {
    call_ensures(entropy::<N>, (), bytes)
}

/// Metadata that an envelope shows in the clear.
#[derive(Debug, PartialEq, Eq)]
pub struct EnvelopeMetadata {
    /// Scenario name.
    pub scenario_name: String,
    /// Scenario seed.
    pub seed: u64,
    /// Number of events in the encrypted record.
    pub event_count: usize,
    /// When the envelope was sealed, in milliseconds.
    pub sealed_at_ms: u64,
}

impl Clone for EnvelopeMetadata {
    fn clone(&self) -> (r: Self)
        ensures
            r == *self,
    {
        EnvelopeMetadata {
            scenario_name: self.scenario_name.clone(),
            seed: self.seed,
            event_count: self.event_count,
            sealed_at_ms: self.sealed_at_ms,
        }
    }
}

/// Why an envelope could not be sealed, read or opened.
#[derive(Debug)]
pub enum EnvelopeError {
    /// The first bytes are not those of an envelope.
    InvalidMagic,
    /// The version is not known.
    UnsupportedVersion(u8),
    /// There are too few bytes for a header.
    Truncated,
    /// The payload could not be encoded.
    Serialize(String),
    /// The body could not be decoded.
    Deserialize(String),
    /// No key could be derived.
    KeyDerivation,
    /// Encryption failed.
    Encrypt,
    /// Authentication failed: wrong passphrase, or changed bytes.
    Decrypt,
    /// The policy denied the operation before decryption.
    PolicyDenied(&'static str),
    /// No passphrase source was given.
    MissingPassphraseSource,
    /// The passphrase source gave nothing.
    EmptyPassphrase,
    /// An environment variable was not set.
    MissingEnvVar(String),
    /// A command failed.
    CommandFailed(String),
    /// A keystore failed.
    Keystore(String),
    /// The operating system had no random bytes.
    EntropyUnavailable,
    /// The decrypted bytes are no record.
    RecordDecode(String),
}

/// How an envelope is opened.
#[derive(Clone, Copy, Debug, PartialEq, Eq, Structural)]
pub enum OpenMode {
    /// With the confirmation of an operator.
    Interactive,
    /// By automation, without confirmation.
    NonInteractive,
}

/// Source of passphrases.
///
/// The relation `yields` holds every outcome that reading the source may have.
pub trait PassphraseProvider: Send + Sync {
    /// True if `r` is a possible outcome.
    open spec fn yields(&self, r: Result<Vec<u8>, EnvelopeError>) -> bool {
        true
    }

    /// True if `name` is the fixed name of this source.
    open spec fn is_named(&self, name: Seq<char>) -> bool {
        true
    }

    /// Reads the passphrase.
    fn get_passphrase(&self) -> (r: Result<Vec<u8>, EnvelopeError>)
        ensures
            self.yields(r),
    ;

    /// Stable name of this source for telemetry.
    fn label(&self) -> (r: &'static str)
        ensures
            self.is_named(r@),
    ;
}

/// Passphrase in an environment variable.
#[derive(Debug)]
pub struct EnvPassphraseProvider {
    /// Name of the variable.
    pub env_var: String,
}

impl EnvPassphraseProvider {
    /// A source that reads the named variable.
    pub fn new(env_var: &str) -> (r: Self)
        ensures
            r.env_var@ == env_var@,
    {
        EnvPassphraseProvider { env_var: env_var.to_owned() }
    }

    /// The passphrase that the value of the variable gives. The value is missing if
    /// the variable is not set.
    pub fn accept(&self, value: Option<String>) -> (r: Result<Vec<u8>, EnvelopeError>)
        ensures
            match value {
                None => r matches Err(EnvelopeError::MissingEnvVar(v)) && v@ == self.env_var@,
                Some(s) => if s@.len() == 0 {
                    r matches Err(EnvelopeError::EmptyPassphrase)
                } else {
                    r matches Ok(bytes) && bytes@ == encode_utf8(s@)
                },
            },
    {
        match value {
            None => Err(EnvelopeError::MissingEnvVar(self.env_var.clone())),
            Some(s) => {
                if s.as_str().is_empty() {
                    Err(EnvelopeError::EmptyPassphrase)
                } else {
                    Ok(s.as_str().as_bytes_vec())
                }
            },
        }
    }

    /// Stable name of this source for telemetry.
    pub fn label(&self) -> (r: &'static str)
        ensures
            r@ == "env"@,
    {
        "env"
    }
}

/// Passphrase on the standard output of a command.
#[derive(Debug)]
pub struct CommandPassphraseProvider {
    /// The program.
    pub program: String,
    /// Its arguments.
    pub args: Vec<String>,
}

impl CommandPassphraseProvider {
    /// A source that runs `program` with `args`.
    pub fn new(program: &str, args: Vec<String>) -> (r: Self)
        ensures
            r.program@ == program@,
            r.args == args,
    {
        CommandPassphraseProvider { program: program.to_owned(), args }
    }

    /// The passphrase that a finished command gives: its trimmed output.
    pub fn accept(&self, success: bool, status: String, stdout: &str) -> (r: Result<
        Vec<u8>,
        EnvelopeError,
    >)
        ensures
            if !success {
                r == Err::<Vec<u8>, EnvelopeError>(EnvelopeError::CommandFailed(status))
            } else if text::is_blank(stdout@) {
                r matches Err(EnvelopeError::EmptyPassphrase)
            } else {
                r matches Ok(bytes) && bytes@ == encode_utf8(text::trimmed(stdout@))
            },
    {
        if !success {
            return Err(EnvelopeError::CommandFailed(status));
        }
        let rest: String = text::trim(stdout);
        if rest.as_str().is_empty() {
            Err(EnvelopeError::EmptyPassphrase)
        } else {
            Ok(rest.as_str().as_bytes_vec())
        }
    }

    /// Stable name of this source for telemetry.
    pub fn label(&self) -> (r: &'static str)
        ensures
            r@ == "command"@,
    {
        "command"
    }
}

/// A store of secrets.
///
/// The relation `fetches` holds every outcome that asking for a key may have.
pub trait KeystoreSecretProvider: Send + Sync {
    /// True if `r` is a possible outcome.
    open spec fn fetches(&self, key_name: Seq<char>, r: Result<Vec<u8>, EnvelopeError>) -> bool {
        true
    }

    /// Fetches the secret under `key_name`.
    fn fetch_secret(&self, key_name: &str) -> (r: Result<Vec<u8>, EnvelopeError>)
        ensures
            self.fetches(key_name@, r),
    ;
}

/// A text as `Debug` of `str` shows it, in quotes and with its special characters
/// escaped.
pub uninterp spec fn quoted(s: Seq<char>) -> Seq<char>;

/// Shows a text by `Debug` of `str`. What that gives is a function of the text.
#[verifier::external_body]
fn quote(s: &str) -> (r: String)
    ensures
        r@ == quoted(s@),
{
    format!("{s:?}")
}

/// A keystore source in words.
pub open spec fn described_source(key_name: Seq<char>, keystore_type: Seq<char>) -> Seq<char> {
    "KeystorePassphraseProvider { key_name: "@ + quoted(key_name) + ", keystore_type: "@ + quoted(
        keystore_type,
    ) + ", .. }"@
}

/// Passphrase in a store of secrets.
pub struct KeystorePassphraseProvider<K: KeystoreSecretProvider> {
    /// Name of the secret.
    pub key_name: String,
    /// The store.
    pub keystore: K,
}

impl<K: KeystoreSecretProvider> KeystorePassphraseProvider<K> {
    /// A source that asks `keystore` for the secret under `key_name`.
    pub fn new(key_name: &str, keystore: K) -> (r: Self)
        ensures
            r.key_name@ == key_name@,
            r.keystore == keystore,
    {
        KeystorePassphraseProvider { key_name: key_name.to_owned(), keystore }
    }

    /// This source in words: the name of the secret and the name that the caller has for
    /// the type of the store, and nothing of the secret.
    pub fn describe(&self, keystore_type: &str) -> (out: String)
        ensures
            out@ == described_source(self.key_name@, keystore_type@),
    {
        let name: String = quote(self.key_name.as_str());
        let kind: String = quote(keystore_type);
        let mut out: String = text::concat3(
            "KeystorePassphraseProvider { key_name: ",
            name.as_str(),
            ", keystore_type: ",
        );
        out.append(kind.as_str());
        out.append(", .. }");
        out
    }
}

/// A secret as a passphrase: an empty one is refused.
pub open spec fn checked_secret(
    secret: Result<Vec<u8>, EnvelopeError>,
    r: Result<Vec<u8>, EnvelopeError>,
) -> bool {
    if secret matches Ok(bytes) && bytes@.len() == 0 {
        r matches Err(EnvelopeError::EmptyPassphrase)
    } else {
        r == secret
    }
}

impl<K: KeystoreSecretProvider> PassphraseProvider for KeystorePassphraseProvider<K> {
    open spec fn yields(&self, r: Result<Vec<u8>, EnvelopeError>) -> bool {
        exists|secret: Result<Vec<u8>, EnvelopeError>|
            #[trigger] self.keystore.fetches(self.key_name@, secret) && checked_secret(secret, r)
    }

    open spec fn is_named(&self, name: Seq<char>) -> bool {
        name == "keystore"@
    }

    fn get_passphrase(&self) -> (r: Result<Vec<u8>, EnvelopeError>) {
        let secret: Result<Vec<u8>, EnvelopeError> = self.keystore.fetch_secret(
            self.key_name.as_str(),
        );
        let empty: bool = match &secret {
            Ok(bytes) => bytes.len() == 0,
            Err(_) => false,
        };
        if empty {
            Err(EnvelopeError::EmptyPassphrase)
        } else {
            secret
        }
    }

    fn label(&self) -> (r: &'static str) {
        "keystore"
    }
}

/// An encrypted record.
#[derive(Debug, PartialEq, Eq)]
pub struct ScenarioEnvelope {
    /// Metadata in the clear.
    pub metadata: EnvelopeMetadata,
    /// The encrypted bytes of the record.
    pub ciphertext: Vec<u8>,
    /// Nonce of the cipher.
    pub nonce: [u8; 12],
    /// Salt of the key derivation.
    pub salt: [u8; 16],
}

impl Clone for ScenarioEnvelope {
    fn clone(&self) -> (r: Self)
        ensures
            r.metadata == self.metadata,
            r@ == self@,
    {
        let ciphertext: Vec<u8> = self.ciphertext.clone();
        assert(ciphertext@ =~= self.ciphertext@);
        ScenarioEnvelope {
            metadata: self.metadata.clone(),
            ciphertext,
            nonce: self.nonce,
            salt: self.salt,
        }
    }
}

/// Outcome of an operation on bytes, by its model.
pub enum BytesOutcome {
    Done(Seq<u8>),
    NoKey,
    Refused,
}

/// The key that a passphrase and a salt give; nothing for a passphrase that is too
/// long.
pub open spec fn derived_key(passphrase: Seq<u8>, salt: Seq<u8>) -> Option<Seq<u8>> {
    if passphrase.len() <= 0xFFFF_FFFF {
        Some(
            argon2id_key(passphrase, salt, ARGON2_MEMORY_KIB, ARGON2_PASSES, ARGON2_LANES),
        )
    } else {
        None
    }
}

/// Encryption of `plaintext` under a passphrase.
pub open spec fn sealed(
    passphrase: Seq<u8>,
    salt: Seq<u8>,
    nonce: Seq<u8>,
    plaintext: Seq<u8>,
) -> BytesOutcome {
    match derived_key(passphrase, salt) {
        None => BytesOutcome::NoKey,
        Some(key) => if plaintext.len() <= MAX_PLAINTEXT_LEN {
            BytesOutcome::Done(chacha20poly1305_sealed(key, nonce, plaintext))
        } else {
            BytesOutcome::Refused
        },
    }
}

/// Decryption of `ciphertext` under a passphrase.
pub open spec fn opened(
    passphrase: Seq<u8>,
    salt: Seq<u8>,
    nonce: Seq<u8>,
    ciphertext: Seq<u8>,
) -> BytesOutcome {
    match derived_key(passphrase, salt) {
        None => BytesOutcome::NoKey,
        Some(key) => if ciphertext.len() <= MAX_PLAINTEXT_LEN + TAG_LEN {
            match chacha20poly1305_opened(key, nonce, ciphertext) {
                Some(plaintext) => BytesOutcome::Done(plaintext),
                None => BytesOutcome::Refused,
            }
        } else {
            BytesOutcome::Refused
        },
    }
}

fn derive_key(passphrase: &Vec<u8>, salt: &[u8; 16]) -> (r: Result<[u8; 32], EnvelopeError>)
    ensures
        match r {
            Ok(key) => derived_key(passphrase@, salt@) == Some(key@),
            Err(e) => e is KeyDerivation && derived_key(passphrase@, salt@) is None,
        },
{
    match argon2id(passphrase, salt, ARGON2_MEMORY_KIB, ARGON2_PASSES, ARGON2_LANES) {
        Some(key) => Ok(key),
        None => Err(EnvelopeError::KeyDerivation),
    }
}

/// Overwrites `bytes` with zeros.
fn wipe(bytes: &mut Vec<u8>)
    ensures
        final(bytes)@.len() == old(bytes)@.len(),
        forall|i: int| 0 <= i < final(bytes)@.len() ==> final(bytes)@[i] == 0,
{
    let mut i: usize = 0;
    while i < bytes.len()
        invariant
            i <= bytes@.len(),
            bytes@.len() == old(bytes)@.len(),
            forall|j: int| 0 <= j < i ==> bytes@[j] == 0,
        decreases bytes@.len() - i,
    {
        bytes.set(i, 0);
        i += 1;
    }
}

/// Overwrites a key with zeros.
fn wipe_key(key: &mut [u8; 32])
    ensures
        forall|i: int| 0 <= i < 32 ==> final(key)@[i] == 0,
{
    let mut i: usize = 0;
    while i < 32
        invariant
            i <= 32,
            forall|j: int| 0 <= j < i ==> key@[j] == 0,
        decreases 32 - i,
    {
        key[i] = 0;
        i += 1;
    }
}

/// The metadata that an envelope of `record` shows.
pub open spec fn describes(metadata: EnvelopeMetadata, record: ScenarioRecord) -> bool {
    &&& metadata.scenario_name@ == record.scenario_name@
    &&& metadata.seed == record.seed
    &&& metadata.event_count == record.events@.len()
}

impl ScenarioEnvelope {
    /// What opening this envelope with `passphrase` gives.
    pub open spec fn content(self, passphrase: Seq<u8>) -> BytesOutcome {
        opened(passphrase, self.salt@, self.nonce@, self.ciphertext@)
    }

    /// Seals the bytes of a record under a passphrase, with the given nonce, salt and
    /// time.
    pub fn seal_with(
        record: &ScenarioRecord,
        plaintext: &Vec<u8>,
        sealed_at_ms: u64,
        nonce: [u8; 12],
        salt: [u8; 16],
        passphrase: &Vec<u8>,
    ) -> (r: Result<Self, EnvelopeError>)
        ensures
            match sealed(passphrase@, salt@, nonce@, plaintext@) {
                BytesOutcome::Done(ciphertext) => r matches Ok(envelope) && {
                    &&& describes(envelope.metadata, *record)
                    &&& envelope.metadata.sealed_at_ms == sealed_at_ms
                    &&& envelope.nonce == nonce
                    &&& envelope.salt == salt
                    &&& envelope.ciphertext@ == ciphertext
                    &&& envelope.content(passphrase@) == BytesOutcome::Done(plaintext@)
                },
                BytesOutcome::NoKey => r matches Err(EnvelopeError::KeyDerivation),
                BytesOutcome::Refused => r matches Err(EnvelopeError::Encrypt),
            },
    {
        let mut key: [u8; 32] = match derive_key(passphrase, &salt) {
            Ok(key) => key,
            Err(e) => {
                return Err(e);
            },
        };
        if plaintext.len() as u64 > MAX_PLAINTEXT_LEN {
            wipe_key(&mut key);
            return Err(EnvelopeError::Encrypt);
        }
        let answer: Option<Vec<u8>> = chacha_encrypt(&key, &nonce, plaintext);
        wipe_key(&mut key);
        match answer {
            Some(ciphertext) => {
                let metadata = EnvelopeMetadata {
                    scenario_name: record.scenario_name.clone(),
                    seed: record.seed,
                    event_count: record.events.len(),
                    sealed_at_ms,
                };
                Ok(ScenarioEnvelope { metadata, ciphertext, nonce, salt })
            },
            None => Err(EnvelopeError::Encrypt),
        }
    }

    /// True if this envelope may have come from sealing: its metadata describes the
    /// record and the time, its nonce and salt were drawn, and it holds the encrypted
    /// bytes under a passphrase of `provider`.
    pub open spec fn is_sealing<P: PassphraseProvider>(
        self,
        record: ScenarioRecord,
        plaintext: Seq<u8>,
        provider: P,
    ) -> bool {
        &&& describes(self.metadata, record)
        &&& RealClock.reads(self.metadata.sealed_at_ms)
        &&& is_drawn(Some(self.nonce))
        &&& is_drawn(Some(self.salt))
        &&& exists|passphrase: Vec<u8>|
            {
                &&& #[trigger] provider.yields(Ok(passphrase))
                &&& sealed(passphrase@, self.salt@, self.nonce@, plaintext) == BytesOutcome::Done(
                    self.ciphertext@,
                )
                &&& self.content(passphrase@) == BytesOutcome::Done(plaintext)
            }
    }

    /// Seals the bytes of a record under the passphrase of `provider`, with a random
    /// nonce and salt and the time of the system clock.
    pub fn seal<P: PassphraseProvider>(
        record: &ScenarioRecord,
        plaintext: &Vec<u8>,
        provider: &P,
    ) -> (r: Result<Self, EnvelopeError>)
        ensures
            match r {
                Ok(envelope) => envelope.is_sealing(*record, plaintext@, *provider),
                Err(e) => {
                    ||| e is EntropyUnavailable && (is_drawn::<12>(None) || is_drawn::<16>(None))
                    ||| provider.yields(Err(e))
                    ||| e is KeyDerivation && exists|passphrase: Vec<u8>|
                        #[trigger] provider.yields(Ok(passphrase)) && passphrase@.len()
                            > 0xFFFF_FFFF
                    ||| e is Encrypt && plaintext@.len() > MAX_PLAINTEXT_LEN
                },
            },
    {
        let sealed_at_ms: u64 = RealClock.now_ms();
        let nonce: [u8; 12] = match entropy::<12>() {
            Some(bytes) => bytes,
            None => {
                return Err(EnvelopeError::EntropyUnavailable);
            },
        };
        let salt: [u8; 16] = match entropy::<16>() {
            Some(bytes) => bytes,
            None => {
                return Err(EnvelopeError::EntropyUnavailable);
            },
        };
        let answer: Result<Vec<u8>, EnvelopeError> = provider.get_passphrase();
        let mut passphrase: Vec<u8> = match answer {
            Ok(bytes) => bytes,
            Err(e) => {
                return Err(e);
            },
        };
        let ghost given = passphrase;
        assert(provider.yields(Ok(given)));
        let r = Self::seal_with(record, plaintext, sealed_at_ms, nonce, salt, &passphrase);
        wipe(&mut passphrase);
        r
    }

    /// Opens this envelope with the given passphrase.
    pub fn open_with(&self, passphrase: &Vec<u8>) -> (r: Result<Vec<u8>, EnvelopeError>)
        ensures
            match self.content(passphrase@) {
                BytesOutcome::Done(plaintext) => r matches Ok(bytes) && bytes@ == plaintext,
                BytesOutcome::NoKey => r matches Err(EnvelopeError::KeyDerivation),
                BytesOutcome::Refused => r matches Err(EnvelopeError::Decrypt),
            },
    {
        let mut key: [u8; 32] = match derive_key(passphrase, &self.salt) {
            Ok(key) => key,
            Err(e) => {
                return Err(e);
            },
        };
        if self.ciphertext.len() as u64 > MAX_PLAINTEXT_LEN + TAG_LEN {
            wipe_key(&mut key);
            return Err(EnvelopeError::Decrypt);
        }
        let answer: Option<Vec<u8>> = chacha_decrypt(&key, &self.nonce, &self.ciphertext);
        wipe_key(&mut key);
        match answer {
            Some(plaintext) => Ok(plaintext),
            None => Err(EnvelopeError::Decrypt),
        }
    }

    /// True if `r` is a possible outcome of opening this envelope with a passphrase
    /// of `provider`.
    pub open spec fn opens<P: PassphraseProvider>(
        self,
        provider: P,
        r: Result<Vec<u8>, EnvelopeError>,
    ) -> bool {
        ||| r matches Err(e) && provider.yields(Err(e))
        ||| exists|passphrase: Vec<u8>|
            #[trigger] provider.yields(Ok(passphrase)) && match self.content(passphrase@) {
                BytesOutcome::Done(plaintext) => r matches Ok(bytes) && bytes@ == plaintext,
                BytesOutcome::NoKey => r matches Err(EnvelopeError::KeyDerivation),
                BytesOutcome::Refused => r matches Err(EnvelopeError::Decrypt),
            }
    }

    fn open_with_provider<P: PassphraseProvider>(&self, provider: &P) -> (r: Result<
        Vec<u8>,
        EnvelopeError,
    >)
        ensures
            self.opens(*provider, r),
    {
        let answer: Result<Vec<u8>, EnvelopeError> = provider.get_passphrase();
        let mut passphrase: Vec<u8> = match answer {
            Ok(bytes) => bytes,
            Err(e) => {
                return Err(e);
            },
        };
        let ghost given = passphrase;
        assert(provider.yields(Ok(given)));
        let r = self.open_with(&passphrase);
        wipe(&mut passphrase);
        r
    }

    /// Opens this envelope for an operator. Without confirmation the passphrase is
    /// not even asked for.
    pub fn open_interactive<P: PassphraseProvider>(
        &self,
        confirmation_granted: bool,
        provider: &P,
    ) -> (r: Result<Vec<u8>, EnvelopeError>)
        ensures
            if confirmation_granted {
                self.opens(*provider, r)
            } else {
                r matches Err(EnvelopeError::PolicyDenied(why)) && why@
                    == "interactive confirmation was not granted"@
            },
    {
        if !confirmation_granted {
            return Err(EnvelopeError::PolicyDenied("interactive confirmation was not granted"));
        }
        self.open_with_provider(provider)
    }

    /// Opens this envelope for automation, which must name a passphrase source.
    pub fn open_non_interactive<P: PassphraseProvider>(
        &self,
        provider: Option<&P>,
    ) -> (r: Result<Vec<u8>, EnvelopeError>)
        ensures
            match provider {
                Some(p) => self.opens(*p, r),
                None => r matches Err(EnvelopeError::MissingPassphraseSource),
            },
    {
        match provider {
            Some(p) => self.open_with_provider(p),
            None => Err(EnvelopeError::MissingPassphraseSource),
        }
    }

    /// The metadata in the clear.
    pub fn metadata(&self) -> (r: &EnvelopeMetadata)
        ensures
            *r == self.metadata,
    {
        &self.metadata
    }
}

/// The bytes before the body of an envelope.
pub open spec fn envelope_header() -> Seq<u8> {
    seq![0x4Du8, 0x45, 0x4E, 0x56, ENVELOPE_VERSION]
}

/// An envelope with the given encoded body, as bytes.
pub open spec fn framed(body: Seq<u8>) -> Seq<u8> {
    envelope_header() + body
}

/// Puts the header of an envelope before its encoded body.
pub fn frame(body: &Vec<u8>) -> (out: Vec<u8>)
    ensures
        out@ == framed(body@),
{
    let mut out: Vec<u8> = vec![0x4D, 0x45, 0x4E, 0x56, ENVELOPE_VERSION];
    assert(out@ =~= envelope_header());
    let mut i: usize = 0;
    while i < body.len()
        invariant
            i <= body@.len(),
            out@ =~= envelope_header() + body@.take(i as int),
        decreases body@.len() - i,
    {
        out.push(body[i]);
        i += 1;
    }
    assert(body@.take(body@.len() as int) =~= body@);
    out
}

/// Takes the encoded body out of the bytes of an envelope.
pub fn unframe(bytes: &[u8]) -> (r: Result<Vec<u8>, EnvelopeError>)
    ensures
        if bytes@.len() < HEADER_LEN {
            r matches Err(EnvelopeError::Truncated)
        } else if bytes@.take(4) != envelope_header().take(4) {
            r matches Err(EnvelopeError::InvalidMagic)
        } else if bytes@[4] != ENVELOPE_VERSION {
            r matches Err(EnvelopeError::UnsupportedVersion(v)) && v == bytes@[4]
        } else {
            r matches Ok(body) && framed(body@) == bytes@
        },
{
    if bytes.len() < HEADER_LEN {
        return Err(EnvelopeError::Truncated);
    }
    assert(envelope_header().take(4) =~= seq![0x4Du8, 0x45, 0x4E, 0x56]);
    if bytes[0] != 0x4D || bytes[1] != 0x45 || bytes[2] != 0x4E || bytes[3] != 0x56 {
        proof {
            let a = bytes@.take(4);
            let b = envelope_header().take(4);
            assert(a[0] != b[0] || a[1] != b[1] || a[2] != b[2] || a[3] != b[3]);
        }
        return Err(EnvelopeError::InvalidMagic);
    }
    assert(bytes@.take(4) =~= envelope_header().take(4));
    if bytes[4] != ENVELOPE_VERSION {
        return Err(EnvelopeError::UnsupportedVersion(bytes[4]));
    }
    let mut body: Vec<u8> = Vec::new();
    let mut i: usize = HEADER_LEN;
    while i < bytes.len()
        invariant
            HEADER_LEN <= i <= bytes@.len(),
            body@ =~= bytes@.subrange(HEADER_LEN as int, i as int),
        decreases bytes@.len() - i,
    {
        body.push(bytes[i]);
        i += 1;
    }
    assert(framed(body@) =~= bytes@) by {
        assert forall|k: int| 0 <= k < 4 implies bytes@[k] == envelope_header()[k] by {
            assert(bytes@.take(4)[k] == envelope_header().take(4)[k]);
        }
    }
    Ok(body)
}

/// Reading back a framed body gives the body, and nothing else reads back to it.
pub proof fn framed_is_injective(a: Seq<u8>, b: Seq<u8>)
    requires
        framed(a) == framed(b),
    ensures
        a == b,
{
    assert(framed(a).skip(5) =~= a);
    assert(framed(b).skip(5) =~= b);
}

/// A framed body is never refused: it is long enough and carries the magic bytes
/// and the version.
pub proof fn framed_is_accepted(body: Seq<u8>)
    ensures
        framed(body).len() >= HEADER_LEN,
        framed(body).take(4) == envelope_header().take(4),
        framed(body)[4] == ENVELOPE_VERSION,
{
    assert(framed(body).take(4) =~= envelope_header().take(4));
}

/// Model of an envelope.
pub struct EnvelopeView {
    pub scenario_name: Seq<char>,
    pub seed: u64,
    pub event_count: usize,
    pub sealed_at_ms: u64,
    pub nonce: Seq<u8>,
    pub salt: Seq<u8>,
    pub ciphertext: Seq<u8>,
}

impl View for ScenarioEnvelope {
    type V = EnvelopeView;

    open spec fn view(&self) -> EnvelopeView {
        EnvelopeView {
            scenario_name: self.metadata.scenario_name@,
            seed: self.metadata.seed,
            event_count: self.metadata.event_count,
            sealed_at_ms: self.metadata.sealed_at_ms,
            nonce: self.nonce@,
            salt: self.salt@,
            ciphertext: self.ciphertext@,
        }
    }
}

/// An encoding of the body of an envelope in bytes.
pub struct BodyCodec {
    pub encode: spec_fn(EnvelopeView) -> Seq<u8>,
    pub decode: spec_fn(Seq<u8>) -> Option<EnvelopeView>,
}

impl BodyCodec {
    /// True if what was encoded decodes to itself.
    pub open spec fn is_faithful(self) -> bool {
        forall|e: EnvelopeView| (self.decode)(#[trigger] (self.encode)(e)) == Some(e)
    }

    /// The bytes of an envelope.
    pub open spec fn written(self, e: EnvelopeView) -> Seq<u8> {
        framed((self.encode)(e))
    }

    /// What the bytes of an envelope read as.
    pub open spec fn read(self, bytes: Seq<u8>) -> ReadView {
        if bytes.len() < HEADER_LEN {
            ReadView::Truncated
        } else if bytes.take(4) != envelope_header().take(4) {
            ReadView::InvalidMagic
        } else if bytes[4] != ENVELOPE_VERSION {
            ReadView::UnsupportedVersion(bytes[4])
        } else {
            match (self.decode)(bytes.skip(HEADER_LEN as int)) {
                Some(e) => ReadView::Envelope(e),
                None => ReadView::NoBody,
            }
        }
    }
}

/// What the bytes of an envelope read as.
pub enum ReadView {
    Truncated,
    InvalidMagic,
    UnsupportedVersion(u8),
    NoBody,
    Envelope(EnvelopeView),
}

/// An envelope that was written under a faithful encoding reads back as it was: its
/// metadata, and what a passphrase opens in it, are the same.
pub proof fn written_envelope_reads_back(codec: BodyCodec, e: EnvelopeView)
    requires
        codec.is_faithful(),
    ensures
        codec.read(codec.written(e)) == ReadView::Envelope(e),
{
    framed_is_accepted((codec.encode)(e));
    assert(codec.written(e).skip(HEADER_LEN as int) =~= (codec.encode)(e));
}

/// A sealed record is restored through bytes: the envelope reads back, its metadata
/// describes the record, and the passphrase of the sealing opens the encoded record
/// in it.
pub proof fn sealed_record_is_restored(
    codec: BodyCodec,
    envelope: ScenarioEnvelope,
    read: ScenarioEnvelope,
    record: ScenarioRecord,
    passphrase: Seq<u8>,
    plaintext: Seq<u8>,
)
    requires
        codec.is_faithful(),
        describes(envelope.metadata, record),
        envelope.content(passphrase) == BytesOutcome::Done(plaintext),
        codec.read(codec.written(envelope@)) == ReadView::Envelope(read@),
    ensures
        read@ == envelope@,
        describes(read.metadata, record),
        read.metadata.sealed_at_ms == envelope.metadata.sealed_at_ms,
        read.content(passphrase) == BytesOutcome::Done(plaintext),
{
    written_envelope_reads_back(codec, envelope@);
    let a = envelope@;
    let b = read@;
    assert(b.nonce == a.nonce && b.salt == a.salt && b.ciphertext == a.ciphertext);
}

/// Sealings with another nonce or another salt give other bytes.
pub proof fn fresh_material_gives_other_bytes(codec: BodyCodec, a: EnvelopeView, b: EnvelopeView)
    requires
        codec.is_faithful(),
        a.nonce != b.nonce || a.salt != b.salt,
    ensures
        codec.written(a) != codec.written(b),
{
    written_envelope_reads_back(codec, a);
    written_envelope_reads_back(codec, b);
}

/// Both ways of opening an envelope agree if the source gives one answer only.
pub proof fn ways_of_opening_agree<P: PassphraseProvider>(
    envelope: ScenarioEnvelope,
    provider: P,
    a: Result<Vec<u8>, EnvelopeError>,
    b: Result<Vec<u8>, EnvelopeError>,
)
    requires
        forall|x: Result<Vec<u8>, EnvelopeError>, y: Result<Vec<u8>, EnvelopeError>| #[trigger]
            provider.yields(x) && #[trigger] provider.yields(y) ==> x == y,
        envelope.opens(provider, a),
        envelope.opens(provider, b),
    ensures
        match (a, b) {
            (Ok(x), Ok(y)) => x@ == y@,
            (Err(x), Err(y)) => x == y,
            _ => false,
        },
{
}

/// An encoding of a record in bytes.
pub struct RecordCodec {
    pub encode: spec_fn(RecordView) -> Seq<u8>,
    pub decode: spec_fn(Seq<u8>) -> Option<RecordView>,
}

/// A sealed record comes back: whoever seals it, writes the envelope, reads it and opens
/// it with the same passphrase gets the record, and reads its name, its seed, its number
/// of events and the time of the sealing in the clear. Both encodings must give back what
/// they were given.
pub proof fn opening_gives_back_the_record<P: PassphraseProvider, Q: PassphraseProvider>(
    codec: BodyCodec,
    records: RecordCodec,
    record: ScenarioRecord,
    sealer: P,
    opener: Q,
    passphrase: Seq<u8>,
    envelope: ScenarioEnvelope,
    read: ScenarioEnvelope,
    r: Result<Vec<u8>, EnvelopeError>,
)
    requires
        codec.is_faithful(),
        (records.decode)((records.encode)(record@)) == Some(record@),
        forall|x: Result<Vec<u8>, EnvelopeError>| #[trigger]
            sealer.yields(x) ==> (x matches Ok(given) && given@ == passphrase),
        forall|x: Result<Vec<u8>, EnvelopeError>| #[trigger]
            opener.yields(x) ==> (x matches Ok(given) && given@ == passphrase),
        envelope.is_sealing(record, (records.encode)(record@), sealer),
        codec.read(codec.written(envelope@)) == ReadView::Envelope(read@),
        read.opens(opener, r),
    ensures
        r matches Ok(bytes) && (records.decode)(bytes@) == Some(record@),
        describes(read.metadata, record),
        RealClock.reads(read.metadata.sealed_at_ms),
{
    sealed_record_is_restored(
        codec,
        envelope,
        read,
        record,
        passphrase,
        (records.encode)(record@),
    );
}

} // verus!
