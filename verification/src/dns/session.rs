//! A query's way through the resolver: from the packet to the DNS message,
//! and from the answer to the packet sent back. The key exchange and the
//! authenticated cipher are handed in by the caller.

use crate::dns::base::{DNSCryptEncryptionParams, DNSCryptEncryptionParamsUpdater};
use crate::dns::crypt::{
    finish_query, message_from_plaintext, plaintext_view, prepare_response, query_nonce,
    query_nonce_spec, response_nonce, response_plaintext, CodecError, QueryEnvelope, QueryView,
    ResponseEnvelope, ResponseView, Transport,
};
use crate::dns::keys::{CryptKeyPair, SharedKey};
use vstd::prelude::*;

verus! {

/// Whether queries that carry `magic` are decrypted at `now` with `p`.
pub open spec fn answers_to(p: DNSCryptEncryptionParams, magic: Seq<u8>, now: u32) -> bool {
    p.cert().usable_at(now) && p.cert().inner.client_magic == magic
}

/// Whether `open`, asked to open the ciphertext of `q` under `key` and the
/// query nonce, returned something that `finish_query` judges as `outcome`.
pub open spec fn opens_as<O: FnOnce(SharedKey, [u8; 24], Vec<u8>) -> Option<Vec<u8>>>(
    open: O,
    key: SharedKey,
    q: QueryView,
    outcome: Result<Seq<u8>, CodecError>,
) -> bool {
    exists|nonce: [u8; 24], sealed: Vec<u8>, opened: Option<Vec<u8>>|
        {
            &&& nonce@ == query_nonce_spec(q.client_nonce)
            &&& sealed@ == q.ciphertext
            &&& #[trigger] open.ensures((key, nonce, sealed), opened)
            &&& message_from_plaintext(plaintext_view(opened)) == outcome
        }
}

/// A query read from its packet.
pub struct OpenedQuery {
    /// The DNS message.
    pub message: Vec<u8>,
    /// The member of the active set that the query was sealed for.
    pub member: usize,
    /// The client's public key.
    pub client_pk: [u8; 32],
    /// The client's half of the nonce, which the response has to repeat.
    pub client_nonce: [u8; 12],
    /// The key shared with the client.
    pub shared_key: SharedKey,
}

/// Reads the DNS message from a query packet that came over `t` at `now`.
///
/// The packet's size is checked first. Then the newest usable member of
/// `set` that announces the packet's magic is looked up; without one the
/// packet is dropped. The key shared with the client comes from that
/// member's cache or from `derive`; where `derive` finds none, the packet
/// is dropped as one that failed to decrypt. `open` is asked to open the
/// ciphertext under that key and the query nonce, and what it returns is
/// judged as `finish_query` judges it.
pub fn decrypt_query<D, O>(
    set: &mut DNSCryptEncryptionParamsUpdater,
    packet: &[u8],
    t: Transport,
    now: u32,
    derive: D,
    open: O,
) -> (r: Result<OpenedQuery, CodecError>) where
    D: FnOnce([u8; 32], CryptKeyPair) -> Option<SharedKey>,
    O: FnOnce(SharedKey, [u8; 24], Vec<u8>) -> Option<Vec<u8>>,

    requires
        old(set).inv(),
        forall|pk: [u8; 32], kp: CryptKeyPair| derive.requires((pk, kp)),
        forall|k: SharedKey, n: [u8; 24], c: Vec<u8>| open.requires((k, n, c)),
    ensures
        final(set).inv(),
        final(set).grace_spec() == old(set).grace_spec(),
        final(set).params().len() == old(set).params().len(),
        forall|j: int|
            0 <= j < old(set).params().len() ==> (#[trigger] final(set).params()[j]).cert() == old(
                set,
            ).params()[j].cert() && final(set).params()[j].keypair() == old(
                set,
            ).params()[j].keypair(),
        match QueryView::from_wire(packet@, t) {
            Err(e) => r is Err && r->Err_0 == e,
            Ok(q) => match r {
                Ok(o) => {
                    &&& o.member < old(set).params().len()
                    &&& answers_to(old(set).params()[o.member as int], q.client_magic, now)
                    &&& forall|j: int|
                        0 <= j < o.member ==> !answers_to(
                            #[trigger] old(set).params()[j],
                            q.client_magic,
                            now,
                        )
                    &&& o.client_pk@ == q.client_pk
                    &&& o.client_nonce@ == q.client_nonce
                    &&& old(set).params()[o.member as int].shares(
                        final(set).params()[o.member as int],
                        o.client_pk,
                        derive,
                        Some(o.shared_key),
                    )
                    &&& opens_as(open, o.shared_key, q, Ok(o.message@))
                },
                Err(CodecError::UnknownMagic) => forall|j: int|
                    0 <= j < old(set).params().len() ==> !answers_to(
                        #[trigger] old(set).params()[j],
                        q.client_magic,
                        now,
                    ),
                Err(e) => {
                    ||| e == CodecError::DecryptFailed && exists|pk: [u8; 32], kp: CryptKeyPair|
                        pk@ == q.client_pk && #[trigger] derive.ensures(
                            (pk, kp),
                            None::<SharedKey>,
                        )
                    ||| exists|key: SharedKey| opens_as(open, key, q, Err(e))
                },
            },
        },
{
    let envelope = match QueryEnvelope::parse(packet, t) {
        Ok(envelope) => envelope,
        Err(e) => { return Err(e); },
    };
    let member = match set.find_for_decryption(&envelope.client_magic, now) {
        Some(member) => member,
        None => { return Err(CodecError::UnknownMagic); },
    };
    let ghost resolver_kp = set.params()[member as int].keypair();
    let shared_key = match set.shared_key(member, envelope.client_pk, derive) {
        Some(key) => key,
        None => {
            proof {
                assert(derive.ensures((envelope.client_pk, resolver_kp), None::<SharedKey>));
            }
            return Err(CodecError::DecryptFailed);
        },
    };
    let nonce = query_nonce(&envelope.client_nonce);
    let client_pk = envelope.client_pk;
    let client_nonce = envelope.client_nonce;
    let sealed = envelope.ciphertext;
    let ghost handed = sealed;
    let opened = open(shared_key, nonce, sealed);
    let ghost returned = opened;
    let ghost q = QueryView::from_wire(packet@, t)->Ok_0;
    proof {
        assert(open.ensures((shared_key, nonce, handed), returned));
    }
    match finish_query(opened) {
        Ok(message) => {
            proof {
                assert(opens_as(open, shared_key, q, Ok(message@)));
            }
            Ok(OpenedQuery { message, member, client_pk, client_nonce, shared_key })
        },
        Err(e) => {
            proof {
                assert(opens_as(open, shared_key, q, Err(e)));
            }
            Err(e)
        },
    }
}

/// A response packet, and whether it carries a truncated header in place
/// of the answer.
pub struct SealedResponse {
    pub packet: Vec<u8>,
    pub truncated: bool,
}

/// Whether `seal`, asked to seal `plaintext` under `key` and `nonce`,
/// returned `sealed`.
pub open spec fn seals_as<S: FnOnce(SharedKey, [u8; 24], Vec<u8>) -> Vec<u8>>(
    seal: S,
    key: SharedKey,
    nonce: Seq<u8>,
    plaintext: Seq<u8>,
    sealed: Seq<u8>,
) -> bool {
    exists|n: [u8; 24], p: Vec<u8>, c: Vec<u8>|
        {
            &&& n@ == nonce
            &&& p@ == plaintext
            &&& #[trigger] seal.ensures((key, n, p), c)
            &&& c@ == sealed
        }
}

/// Builds the response packet that carries `answer` over `t` to the client
/// whose query had the half nonce `client_nonce`.
///
/// The answer is prepared as `prepare_response` says. `seal` is asked to
/// seal the prepared plaintext under `key` and the nonce made of the
/// client's half and `server_nonce`. What it returns is sent behind the
/// response magic and the nonce, unless that is outside the size bounds of
/// `t`.
pub fn encrypt_response<S>(
    answer: &[u8],
    key: SharedKey,
    client_nonce: [u8; 12],
    server_nonce: [u8; 12],
    t: Transport,
    seal: S,
) -> (r: Result<SealedResponse, CodecError>) where
    S: FnOnce(SharedKey, [u8; 24], Vec<u8>) -> Vec<u8>,

    requires
        forall|k: SharedKey, n: [u8; 24], p: Vec<u8>| seal.requires((k, n, p)),
    ensures
        match response_plaintext(answer@, t) {
            Err(e) => r is Err && r->Err_0 == e,
            Ok(prepared) => exists|sealed: Seq<u8>|
                {
                    let envelope = ResponseView {
                        nonce: client_nonce@ + server_nonce@,
                        ciphertext: sealed,
                    };
                    &&& #[trigger] seals_as(
                        seal,
                        key,
                        client_nonce@ + server_nonce@,
                        prepared.0,
                        sealed,
                    )
                    &&& match r {
                        Ok(s) => {
                            &&& s.truncated == prepared.1
                            &&& s.packet@ == envelope.wire()
                            &&& ResponseView::from_wire(s.packet@, t) == Ok::<
                                ResponseView,
                                CodecError,
                            >(envelope)
                        },
                        Err(e) => ResponseView::from_wire(envelope.wire(), t) == Err::<
                            ResponseView,
                            CodecError,
                        >(e),
                    }
                },
        },
{
    let prepared = match prepare_response(answer, t) {
        Ok(prepared) => prepared,
        Err(e) => { return Err(e); },
    };
    let nonce = response_nonce(&client_nonce, &server_nonce);
    let truncated = prepared.truncated;
    let plaintext = prepared.plaintext;
    let ghost handed = plaintext;
    let sealed = seal(key, nonce, plaintext);
    let envelope = ResponseEnvelope { nonce, ciphertext: sealed };
    let ghost planned = response_plaintext(answer@, t)->Ok_0;
    proof {
        assert(seal.ensures((key, nonce, handed), envelope.ciphertext));
        assert(seals_as(
            seal,
            key,
            client_nonce@ + server_nonce@,
            planned.0,
            envelope.ciphertext@,
        ));
        assert(envelope@ == (ResponseView {
            nonce: client_nonce@ + server_nonce@,
            ciphertext: envelope.ciphertext@,
        }));
    }
    match envelope.to_bytes(t) {
        Ok(packet) => {
            proof {
                ResponseView::lemma_wire_round_trip(envelope@, t);
            }
            Ok(SealedResponse { packet, truncated })
        },
        Err(e) => Err(e),
    }
}

} // verus!
