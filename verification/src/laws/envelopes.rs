//! Laws of sealed records: what an envelope tells, which bytes are one, and what opens it.

use crate::replay::envelope::{
    argon2id_key, chacha20poly1305_opened, chacha20poly1305_sealed, checked_secret, derived_key,
    describes, opened, sealed, BodyCodec, BytesOutcome, EnvelopeError, EnvelopeMetadata, ReadView,
    ScenarioEnvelope,
};
use crate::replay::ScenarioRecord;
use vstd::prelude::*;

verus! {

/// The description of an envelope tells name, seed and number of events of its record.
pub proof fn descriptions_are_true(metadata: EnvelopeMetadata, record: ScenarioRecord)
    ensures
        describes(metadata, record) <==> metadata.scenario_name@ == record.scenario_name@
            && metadata.seed == record.seed && metadata.event_count == record.events@.len(),
{
}

/// Bytes are looked at from the front: too few are no envelope, the first four must be the mark
/// and the fifth the version; only then the body is read, which is all that follows.
pub proof fn envelopes_are_known_by_their_first_bytes(codec: BodyCodec, bytes: Seq<u8>)
    ensures
        codec.read(bytes) is Truncated <==> bytes.len() < 5,
        bytes.len() >= 5 ==> {
            let marked = bytes[0] == 0x4D && bytes[1] == 0x45 && bytes[2] == 0x4E && bytes[3]
                == 0x56;
            &&& codec.read(bytes) is InvalidMagic <==> !marked
            &&& marked && bytes[4] != 1 ==> codec.read(bytes) == ReadView::UnsupportedVersion(
                bytes[4],
            )
            &&& marked && bytes[4] == 1 ==> codec.read(bytes) == match (codec.decode)(
                bytes.skip(5),
            ) {
                Some(e) => ReadView::Envelope(e),
                None => ReadView::NoBody,
            }
        },
{
    if bytes.len() >= 5 {
        let mark = crate::replay::envelope::envelope_header().take(4);
        let front = bytes.take(4);
        assert(mark[0] == 0x4D && mark[1] == 0x45 && mark[2] == 0x4E && mark[3] == 0x56);
        assert(front[0] == bytes[0] && front[1] == bytes[1] && front[2] == bytes[2] && front[3]
            == bytes[3]);
        if bytes[0] == 0x4D && bytes[1] == 0x45 && bytes[2] == 0x4E && bytes[3] == 0x56 {
            assert(front =~= mark);
        }
    }
}

/// A secret of no bytes is refused; any other answer of a store is handed on as it is.
pub proof fn empty_secrets_are_refused(
    secret: Result<Vec<u8>, EnvelopeError>,
    r: Result<Vec<u8>, EnvelopeError>,
)
    requires
        checked_secret(secret, r),
    ensures
        (secret matches Ok(bytes) && bytes@.len() == 0) ==> r is Err && r->Err_0
            is EmptyPassphrase,
        (secret matches Ok(bytes) && bytes@.len() > 0) ==> r == secret,
        secret is Err ==> r == secret,
        r matches Ok(bytes) ==> bytes@.len() > 0,
{
}

/// Sealing and opening use one key, derived from passphrase and salt with 19 MiB of memory, two
/// passes and one lane, and one nonce: what the cipher gives is the outcome of either.
pub proof fn both_ways_use_one_key(
    passphrase: Seq<u8>,
    salt: Seq<u8>,
    nonce: Seq<u8>,
    bytes: Seq<u8>,
)
    requires
        passphrase.len() <= 0xFFFF_FFFF,
        bytes.len() <= 274_877_906_816,
    ensures
        derived_key(passphrase, salt) == Some(argon2id_key(passphrase, salt, 19_456, 2, 1)),
        sealed(passphrase, salt, nonce, bytes) == BytesOutcome::Done(
            chacha20poly1305_sealed(argon2id_key(passphrase, salt, 19_456, 2, 1), nonce, bytes),
        ),
        opened(passphrase, salt, nonce, bytes) == match chacha20poly1305_opened(
            argon2id_key(passphrase, salt, 19_456, 2, 1),
            nonce,
            bytes,
        ) {
            Some(plaintext) => BytesOutcome::Done(plaintext),
            None => BytesOutcome::Refused,
        },
{
}

/// The model of an envelope shows its fields.
pub proof fn envelope_models_are_exact(e: ScenarioEnvelope)
    ensures
        e@.scenario_name == e.metadata.scenario_name@,
        e@.seed == e.metadata.seed,
        e@.event_count == e.metadata.event_count,
        e@.sealed_at_ms == e.metadata.sealed_at_ms,
        e@.nonce == e.nonce@,
        e@.salt == e.salt@,
        e@.ciphertext == e.ciphertext@,
{
}

} // verus!
