//! The DNSCrypt envelope: size bounds, query and response framing, nonces
//! and padding. The authenticated cipher itself is applied by the caller.

use crate::dns::base::{
    DNS_CRYPT_FULL_NONCE_SIZE, DNS_CRYPT_MAC_SIZE, DNS_CRYPT_QUERY_HEADER_SIZE,
    DNS_CRYPT_QUERY_NONCE_SIZE, DNS_CRYPT_RESPONSE_HEADER_SIZE, DNS_CRYPT_RESPONSE_MAGIC,
    DNS_CRYPT_TCP_QUERY_MAX_SIZE, DNS_CRYPT_TCP_QUERY_MIN_SIZE, DNS_CRYPT_TCP_RESPONSE_MAX_SIZE,
    DNS_CRYPT_TCP_RESPONSE_MIN_SIZE, DNS_CRYPT_UDP_QUERY_MAX_SIZE, DNS_CRYPT_UDP_QUERY_MIN_SIZE,
    DNS_CRYPT_UDP_RESPONSE_MAX_SIZE, DNS_CRYPT_UDP_RESPONSE_MIN_SIZE, DNS_FLAGS_QR, DNS_FLAGS_TC,
    DNS_HEADER_SIZE, DNS_MAX_PACKET_SIZE, DNS_OFFSET_FLAGS, DNS_RCODE_SERVFAIL,
};
use crate::dns::wire::{array_at, be16, be16_bytes, bytes_match, read_be16, u16_be};
use vstd::prelude::*;

verus! {

/// The transport a packet travels on.
#[derive(Debug, Copy, Clone, PartialEq, Eq, Structural)]
pub enum Transport {
    Udp,
    Tcp,
}

/// Why a packet or a plaintext was not accepted.
#[derive(Debug, Copy, Clone, PartialEq, Eq, Structural)]
pub enum CodecError {
    /// Shorter than the transport's minimum.
    TooShort,
    /// Longer than the transport's maximum.
    TooLong,
    /// A response that does not start with the response magic.
    BadMagic,
    /// A query whose magic no usable certificate announces.
    UnknownMagic,
    /// The cipher did not authenticate the payload.
    DecryptFailed,
    /// No padding marker closes the plaintext.
    BadPadding,
    /// The plaintext is shorter than a DNS header.
    BadMessage,
}

/// The smallest query envelope accepted on `t`.
pub open spec fn query_min_size(t: Transport) -> nat {
    match t {
        Transport::Udp => DNS_CRYPT_UDP_QUERY_MIN_SIZE as nat,
        Transport::Tcp => DNS_CRYPT_TCP_QUERY_MIN_SIZE as nat,
    }
}

/// The largest query envelope accepted on `t`.
pub open spec fn query_max_size(t: Transport) -> nat {
    match t {
        Transport::Udp => DNS_CRYPT_UDP_QUERY_MAX_SIZE as nat,
        Transport::Tcp => DNS_CRYPT_TCP_QUERY_MAX_SIZE as nat,
    }
}

/// The smallest response envelope sent on `t`.
pub open spec fn response_min_size(t: Transport) -> nat {
    match t {
        Transport::Udp => DNS_CRYPT_UDP_RESPONSE_MIN_SIZE as nat,
        Transport::Tcp => DNS_CRYPT_TCP_RESPONSE_MIN_SIZE as nat,
    }
}

/// The largest response envelope sent on `t`.
pub open spec fn response_max_size(t: Transport) -> nat {
    match t {
        Transport::Udp => DNS_CRYPT_UDP_RESPONSE_MAX_SIZE as nat,
        Transport::Tcp => DNS_CRYPT_TCP_RESPONSE_MAX_SIZE as nat,
    }
}

/// Whether a query envelope of `len` bytes is within the bounds of `t`:
/// checked before any cryptographic work.
pub fn check_query_size(len: usize, t: Transport) -> (r: Result<(), CodecError>)
    ensures
        r == if len < query_min_size(t) {
            Err::<(), CodecError>(CodecError::TooShort)
        } else if len > query_max_size(t) {
            Err::<(), CodecError>(CodecError::TooLong)
        } else {
            Ok::<(), CodecError>(())
        },
{
    let (min, max) = match t {
        Transport::Udp => (DNS_CRYPT_UDP_QUERY_MIN_SIZE, DNS_CRYPT_UDP_QUERY_MAX_SIZE),
        Transport::Tcp => (DNS_CRYPT_TCP_QUERY_MIN_SIZE, DNS_CRYPT_TCP_QUERY_MAX_SIZE),
    };
    if len < min {
        Err(CodecError::TooShort)
    } else if len > max {
        Err(CodecError::TooLong)
    } else {
        Ok(())
    }
}

/// Whether a response envelope of `len` bytes is within the bounds of `t`.
pub fn check_response_size(len: usize, t: Transport) -> (r: Result<(), CodecError>)
    ensures
        r == if len < response_min_size(t) {
            Err::<(), CodecError>(CodecError::TooShort)
        } else if len > response_max_size(t) {
            Err::<(), CodecError>(CodecError::TooLong)
        } else {
            Ok::<(), CodecError>(())
        },
{
    let (min, max) = match t {
        Transport::Udp => (DNS_CRYPT_UDP_RESPONSE_MIN_SIZE, DNS_CRYPT_UDP_RESPONSE_MAX_SIZE),
        Transport::Tcp => (DNS_CRYPT_TCP_RESPONSE_MIN_SIZE, DNS_CRYPT_TCP_RESPONSE_MAX_SIZE),
    };
    if len < min {
        Err(CodecError::TooShort)
    } else if len > max {
        Err(CodecError::TooLong)
    } else {
        Ok(())
    }
}

/// What a query envelope carries.
pub struct QueryView {
    pub client_magic: Seq<u8>,
    pub client_pk: Seq<u8>,
    pub client_nonce: Seq<u8>,
    pub ciphertext: Seq<u8>,
}

impl QueryView {
    /// Field lengths of an envelope held in memory.
    pub open spec fn shaped(self) -> bool {
        &&& self.client_magic.len() == 8
        &&& self.client_pk.len() == 32
        &&& self.client_nonce.len() == DNS_CRYPT_QUERY_NONCE_SIZE
    }

    /// The envelope on the wire: magic, client key, half nonce, ciphertext.
    pub open spec fn wire(self) -> Seq<u8> {
        self.client_magic + self.client_pk + self.client_nonce + self.ciphertext
    }

    /// The envelope that a packet on `t` stands for, or why it stands for none.
    pub open spec fn from_wire(b: Seq<u8>, t: Transport) -> Result<QueryView, CodecError> {
        if b.len() < query_min_size(t) {
            Err(CodecError::TooShort)
        } else if b.len() > query_max_size(t) {
            Err(CodecError::TooLong)
        } else {
            Ok(
                QueryView {
                    client_magic: b.subrange(0, 8),
                    client_pk: b.subrange(8, 40),
                    client_nonce: b.subrange(40, 52),
                    ciphertext: b.subrange(52, b.len() as int),
                },
            )
        }
    }

    /// An envelope whose wire form is within the bounds of `t` is read back
    /// from it unchanged.
    pub proof fn lemma_wire_round_trip(v: QueryView, t: Transport)
        requires
            v.shaped(),
            query_min_size(t) <= v.wire().len() <= query_max_size(t),
        ensures
            Self::from_wire(v.wire(), t) == Ok::<QueryView, CodecError>(v),
    {
        let w = v.wire();
        assert(w.subrange(0, 8) =~= v.client_magic);
        assert(w.subrange(8, 40) =~= v.client_pk);
        assert(w.subrange(40, 52) =~= v.client_nonce);
        assert(w.subrange(52, w.len() as int) =~= v.ciphertext);
    }
}

/// A query envelope taken apart, not yet decrypted.
#[derive(Debug, Clone)]
pub struct QueryEnvelope {
    pub client_magic: [u8; 8],
    pub client_pk: [u8; 32],
    pub client_nonce: [u8; 12],
    pub ciphertext: Vec<u8>,
}

impl View for QueryEnvelope {
    type V = QueryView;

    open spec fn view(&self) -> QueryView {
        QueryView {
            client_magic: self.client_magic@,
            client_pk: self.client_pk@,
            client_nonce: self.client_nonce@,
            ciphertext: self.ciphertext@,
        }
    }
}

impl QueryEnvelope {
    /// Takes a query packet apart after checking its size for `t`.
    pub fn parse(packet: &[u8], t: Transport) -> (r: Result<Self, CodecError>)
        ensures
            match r {
                Ok(q) => QueryView::from_wire(packet@, t) == Ok::<QueryView, CodecError>(q@),
                Err(e) => QueryView::from_wire(packet@, t) == Err::<QueryView, CodecError>(e),
            },
    {
        match check_query_size(packet.len(), t) {
            Err(e) => Err(e),
            Ok(()) => {
                let body = vstd::slice::slice_subrange(
                    packet,
                    DNS_CRYPT_QUERY_HEADER_SIZE,
                    packet.len(),
                );
                Ok(
                    QueryEnvelope {
                        client_magic: array_at::<8>(packet, 0),
                        client_pk: array_at::<32>(packet, 8),
                        client_nonce: array_at::<12>(packet, 40),
                        ciphertext: vstd::slice::slice_to_vec(body),
                    },
                )
            },
        }
    }

    /// The envelope as a client sends it.
    pub fn to_bytes(&self) -> (r: Vec<u8>)
        ensures
            r@ == self@.wire(),
    {
        let mut out: Vec<u8> = Vec::new();
        out.extend_from_slice(self.client_magic.as_slice());
        out.extend_from_slice(self.client_pk.as_slice());
        out.extend_from_slice(self.client_nonce.as_slice());
        out.extend_from_slice(self.ciphertext.as_slice());
        assert(out@ =~= self@.wire());
        out
    }
}

/// `n` zero bytes.
pub open spec fn zeros(n: nat) -> Seq<u8> {
    Seq::new(n, |i: int| 0u8)
}

/// The full nonce under which a query is sealed: the client's half, then
/// twelve zero bytes.
pub open spec fn query_nonce_spec(client_nonce: Seq<u8>) -> Seq<u8> {
    client_nonce + zeros(12)
}

/// The full nonce under which a query is opened.
pub fn query_nonce(client_nonce: &[u8; 12]) -> (r: [u8; 24])
    ensures
        r@ == query_nonce_spec(client_nonce@),
{
    let mut out = [0u8; 24];
    let mut i: usize = 0;
    while i < 12
        invariant
            i <= 12,
            forall|j: int| 0 <= j < i ==> out@[j] == client_nonce@[j],
            forall|j: int| i <= j < 24 ==> out@[j] == 0u8,
        decreases 12 - i,
    {
        out[i] = client_nonce[i];
        i += 1;
    }
    assert(out@ =~= query_nonce_spec(client_nonce@));
    out
}

/// The full nonce under which a response is sealed: the client's half, then
/// the resolver's.
pub fn response_nonce(client_nonce: &[u8; 12], server_nonce: &[u8; 12]) -> (r: [u8; 24])
    ensures
        r@ == client_nonce@ + server_nonce@,
{
    let mut out = [0u8; 24];
    let mut i: usize = 0;
    while i < 12
        invariant
            i <= 12,
            forall|j: int| 0 <= j < i ==> out@[j] == client_nonce@[j],
            forall|j: int| 0 <= j < i ==> out@[12 + j] == server_nonce@[j],
        decreases 12 - i,
    {
        out[i] = client_nonce[i];
        out[12 + i] = server_nonce[i];
        i += 1;
    }
    assert(out@ =~= client_nonce@ + server_nonce@);
    out
}

/// `msg` followed by the marker byte `0x80` and zero bytes up to `n` bytes
/// in all.
pub open spec fn padded(msg: Seq<u8>, n: nat) -> Seq<u8>
    recommends
        msg.len() < n,
{
    msg + seq![0x80u8] + zeros((n - msg.len() - 1) as nat)
}

/// Where the padding of `b` starts: at the last `0x80`, if only zero bytes
/// follow it.
pub open spec fn unpadded_len(b: Seq<u8>) -> Option<nat>
    decreases b.len(),
{
    if b.len() == 0 {
        None
    } else if b.last() == 0x80u8 {
        Some((b.len() - 1) as nat)
    } else if b.last() == 0u8 {
        unpadded_len(b.drop_last())
    } else {
        None
    }
}

/// Padding can be taken off again, and gives the message back.
pub proof fn lemma_unpad_pad(msg: Seq<u8>, n: nat)
    requires
        msg.len() < n,
    ensures
        padded(msg, n).len() == n,
        unpadded_len(padded(msg, n)) == Some(msg.len()),
        padded(msg, n).take(msg.len() as int) == msg,
    decreases n,
{
    let p = padded(msg, n);
    assert(p.take(msg.len() as int) =~= msg);
    if n == msg.len() + 1 {
        assert(p.last() == 0x80u8);
    } else {
        assert(p.last() == 0u8);
        assert(p.drop_last() =~= padded(msg, (n - 1) as nat));
        lemma_unpad_pad(msg, (n - 1) as nat);
    }
}

/// A plaintext whose padding starts at `k` is its first `k` bytes, padded.
pub proof fn lemma_pad_unpad(b: Seq<u8>)
    requires
        unpadded_len(b) is Some,
    ensures
        unpadded_len(b).unwrap() < b.len(),
        b == padded(b.take(unpadded_len(b).unwrap() as int), b.len()),
    decreases b.len(),
{
    let k = unpadded_len(b).unwrap();
    if b.last() == 0x80u8 {
        assert(b =~= padded(b.take(k as int), b.len()));
    } else {
        let d = b.drop_last();
        lemma_pad_unpad(d);
        assert(d.take(k as int) =~= b.take(k as int));
        assert(b.last() == 0u8);
        assert(b =~= d.push(0u8));
        assert(padded(b.take(k as int), b.len()) =~= padded(b.take(k as int), d.len()).push(0u8));
    }
}

/// The longest plaintext that an envelope carries on any transport.
pub const MAX_PLAINTEXT_SIZE: usize = DNS_MAX_PACKET_SIZE + 1;

/// Pads `msg` to `padded_len` bytes; none where the marker would not fit,
/// or for more bytes than any envelope carries.
pub fn pad(msg: &[u8], padded_len: usize) -> (r: Option<Vec<u8>>)
    ensures
        r.is_some() == (msg@.len() < padded_len <= MAX_PLAINTEXT_SIZE),
        r matches Some(p) ==> p@ == padded(msg@, padded_len as nat),
{
    if msg.len() >= padded_len || padded_len > MAX_PLAINTEXT_SIZE {
        return None;
    }
    let mut out: Vec<u8> = Vec::with_capacity(padded_len);
    out.extend_from_slice(msg);
    out.push(0x80u8);
    let mut i: usize = msg.len() + 1;
    while i < padded_len
        invariant
            msg@.len() < i <= padded_len,
            out@ == padded(msg@, i as nat),
        decreases padded_len - i,
    {
        out.push(0u8);
        i += 1;
        assert(out@ =~= padded(msg@, i as nat));
    }
    Some(out)
}

/// Finds where the padding of `buf` starts.
pub fn unpad(buf: &[u8]) -> (r: Option<usize>)
    ensures
        match r {
            Some(k) => unpadded_len(buf@) == Some(k as nat),
            None => unpadded_len(buf@) is None,
        },
{
    let mut i: usize = buf.len();
    assert(buf@.take(i as int) =~= buf@);
    while i > 0
        invariant
            i <= buf@.len(),
            unpadded_len(buf@) == unpadded_len(buf@.take(i as int)),
        decreases i,
    {
        let b = buf[i - 1];
        proof {
            let t = buf@.take(i as int);
            assert(t.last() == b);
            assert(t.drop_last() =~= buf@.take(i - 1));
        }
        if b == 0x80u8 {
            return Some(i - 1);
        }
        if b != 0u8 {
            return None;
        }
        i -= 1;
    }
    None
}

/// The DNS message in what the cipher returned for a query: the cipher must
/// have authenticated it, its padding must be closed by the marker, and what
/// is left must hold a DNS header.
pub open spec fn message_from_plaintext(opened: Option<Seq<u8>>) -> Result<Seq<u8>, CodecError> {
    match opened {
        None => Err(CodecError::DecryptFailed),
        Some(p) => match unpadded_len(p) {
            None => Err(CodecError::BadPadding),
            Some(k) => if k < DNS_HEADER_SIZE {
                Err(CodecError::BadMessage)
            } else {
                Ok(p.take(k as int))
            },
        },
    }
}

/// The bytes of a plaintext that may be absent.
pub open spec fn plaintext_view(opened: Option<Vec<u8>>) -> Option<Seq<u8>> {
    match opened {
        Some(v) => Some(v@),
        None => None,
    }
}

/// Finishes the decryption of a query from what the cipher returned for its
/// ciphertext: the plaintext, or nothing where authentication failed.
pub fn finish_query(opened: Option<Vec<u8>>) -> (r: Result<Vec<u8>, CodecError>)
    ensures
        match r {
            Ok(m) => message_from_plaintext(plaintext_view(opened)) == Ok::<Seq<u8>, CodecError>(
                m@,
            ),
            Err(e) => message_from_plaintext(plaintext_view(opened)) == Err::<
                Seq<u8>,
                CodecError,
            >(e),
        },
{
    match opened {
        None => Err(CodecError::DecryptFailed),
        Some(plaintext) => {
            let mut plaintext = plaintext;
            match unpad(plaintext.as_slice()) {
                None => Err(CodecError::BadPadding),
                Some(k) => {
                    if k < DNS_HEADER_SIZE {
                        Err(CodecError::BadMessage)
                    } else {
                        proof {
                            lemma_pad_unpad(plaintext@);
                        }
                        plaintext.truncate(k);
                        Ok(plaintext)
                    }
                },
            }
        },
    }
}

/// The flags of a header-only answer to a message whose flags are `flags`:
/// the same, marked as a response and as truncated.
pub open spec fn truncated_flags(flags: u16) -> u16 {
    flags | DNS_FLAGS_QR | DNS_FLAGS_TC
}

/// The flags of a header-only answer that reports a server failure in
/// answer to a message whose flags are `flags`: the same, marked as a
/// response, with the response code for a server failure.
pub open spec fn servfail_flags(flags: u16) -> u16 {
    (flags & 0xfff0u16) | DNS_FLAGS_QR | 0x0002u16
}

/// A DNS header with the identifier of `msg`, the flags `flags` and no
/// records.
pub open spec fn header_only(msg: Seq<u8>, flags: u16) -> Seq<u8>
    recommends
        msg.len() >= 2,
{
    msg.subrange(0, 2) + u16_be(flags) + zeros(8)
}

/// The flags of the DNS message `msg`.
pub open spec fn flags_of(msg: Seq<u8>) -> u16
    recommends
        msg.len() >= 4,
{
    be16(msg.subrange(2, 4)) as u16
}

/// The header-only answer that tells a client to ask again over TCP: the
/// identifier of `msg`, its flags marked as a truncated response, and no
/// records.
pub open spec fn truncated_header(msg: Seq<u8>) -> Seq<u8>
    recommends
        msg.len() >= DNS_HEADER_SIZE,
{
    header_only(msg, truncated_flags(flags_of(msg)))
}

/// The header-only answer that reports a server failure: the identifier of
/// `msg`, its flags marked as a failed response, and no records.
pub open spec fn servfail_header(msg: Seq<u8>) -> Seq<u8>
    recommends
        msg.len() >= DNS_HEADER_SIZE,
{
    header_only(msg, servfail_flags(flags_of(msg)))
}

/// A header-only answer is twelve bytes: the identifier of the message it
/// answers, the flags it was given, and eight zero bytes.
pub proof fn lemma_header_only(msg: Seq<u8>, flags: u16)
    requires
        msg.len() >= 2,
    ensures
        header_only(msg, flags).len() == DNS_HEADER_SIZE,
        header_only(msg, flags).subrange(0, 2) == msg.subrange(0, 2),
        flags_of(header_only(msg, flags)) == flags,
        header_only(msg, flags).subrange(4, 12) == zeros(8),
{
    let h = header_only(msg, flags);
    assert(h.subrange(0, 2) =~= msg.subrange(0, 2));
    assert(h.subrange(2, 4) =~= u16_be(flags));
    assert(h.subrange(4, 12) =~= zeros(8));
    crate::dns::wire::lemma_be16_round_trip(flags, u16_be(flags));
}

/// A truncated header is twelve bytes, carries the identifier of the message
/// it answers, and has the response and truncation flags set.
pub proof fn lemma_truncated_header(msg: Seq<u8>)
    requires
        msg.len() >= DNS_HEADER_SIZE,
    ensures
        truncated_header(msg).len() == DNS_HEADER_SIZE,
        truncated_header(msg).subrange(0, 2) == msg.subrange(0, 2),
        flags_of(truncated_header(msg)) & DNS_FLAGS_TC == DNS_FLAGS_TC,
        flags_of(truncated_header(msg)) & DNS_FLAGS_QR == DNS_FLAGS_QR,
        truncated_header(msg).subrange(4, 12) == zeros(8),
{
    let f = flags_of(msg);
    lemma_header_only(msg, truncated_flags(f));
    assert((f | 0x8000u16 | 0x0200u16) & 0x0200u16 == 0x0200u16) by (bit_vector);
    assert((f | 0x8000u16 | 0x0200u16) & 0x8000u16 == 0x8000u16) by (bit_vector);
}

/// A server-failure header is twelve bytes, carries the identifier of the
/// message it answers, is marked as a response and has the response code 2.
pub proof fn lemma_servfail_header(msg: Seq<u8>)
    requires
        msg.len() >= DNS_HEADER_SIZE,
    ensures
        servfail_header(msg).len() == DNS_HEADER_SIZE,
        servfail_header(msg).subrange(0, 2) == msg.subrange(0, 2),
        flags_of(servfail_header(msg)) & 0x000fu16 == DNS_RCODE_SERVFAIL as u16,
        flags_of(servfail_header(msg)) & DNS_FLAGS_QR == DNS_FLAGS_QR,
        servfail_header(msg).subrange(4, 12) == zeros(8),
{
    let f = flags_of(msg);
    lemma_header_only(msg, servfail_flags(f));
    assert(((f & 0xfff0u16) | 0x8000u16 | 0x0002u16) & 0x000fu16 == 2u16) by (bit_vector);
    assert(((f & 0xfff0u16) | 0x8000u16 | 0x0002u16) & 0x8000u16 == 0x8000u16) by (bit_vector);
}

/// Builds the header-only answer to `msg` with the flags `flags`.
fn header_with(msg: &[u8], flags: u16) -> (r: Vec<u8>)
    requires
        msg@.len() >= 2,
    ensures
        r@ == header_only(msg@, flags),
{
    let marked = be16_bytes(flags);
    let mut out: Vec<u8> = Vec::with_capacity(DNS_HEADER_SIZE);
    out.push(msg[0]);
    out.push(msg[1]);
    out.push(marked[0]);
    out.push(marked[1]);
    let mut i: usize = 4;
    while i < DNS_HEADER_SIZE
        invariant
            4 <= i <= DNS_HEADER_SIZE,
            out@.len() == i,
            out@[0] == msg@[0],
            out@[1] == msg@[1],
            out@[2] == marked@[0],
            out@[3] == marked@[1],
            forall|j: int| 4 <= j < i ==> out@[j] == 0u8,
        decreases DNS_HEADER_SIZE - i,
    {
        out.push(0u8);
        i += 1;
    }
    proof {
        crate::dns::wire::lemma_be16_round_trip(0, marked@);
        assert(out@ =~= header_only(msg@, flags));
    }
    out
}

/// Builds the header-only truncated answer to `msg`; none where `msg` is
/// shorter than a DNS header.
pub fn truncated_response(msg: &[u8]) -> (r: Option<Vec<u8>>)
    ensures
        r.is_some() == (msg@.len() >= DNS_HEADER_SIZE),
        r matches Some(h) ==> h@ == truncated_header(msg@),
{
    if msg.len() < DNS_HEADER_SIZE {
        return None;
    }
    let flags = read_be16(vstd::slice::slice_subrange(msg, DNS_OFFSET_FLAGS, 4));
    Some(header_with(msg, flags | DNS_FLAGS_QR | DNS_FLAGS_TC))
}

/// Builds the header-only answer that reports a server failure to the
/// sender of `query`; none where `query` is shorter than a DNS header.
pub fn servfail_response(query: &[u8]) -> (r: Option<Vec<u8>>)
    ensures
        r.is_some() == (query@.len() >= DNS_HEADER_SIZE),
        r matches Some(h) ==> h@ == servfail_header(query@),
{
    if query.len() < DNS_HEADER_SIZE {
        return None;
    }
    let flags = read_be16(vstd::slice::slice_subrange(query, DNS_OFFSET_FLAGS, 4));
    Some(header_with(query, (flags & 0xfff0) | DNS_FLAGS_QR | 0x0002))
}

/// The least multiple of 64 that is not below `n`.
pub open spec fn round_up_64(n: nat) -> nat {
    (((n + 63) / 64) * 64) as nat
}

/// The length to which a response message of `msg_len` bytes is padded on
/// `t`: the next multiple of 64 that leaves room for the marker, cut down to
/// what the largest envelope of `t` can carry; none where even the message
/// and the marker do not fit.
pub open spec fn response_padded_len(msg_len: nat, t: Transport) -> Option<nat> {
    let overhead = DNS_CRYPT_RESPONSE_HEADER_SIZE + DNS_CRYPT_MAC_SIZE;
    let budget = (response_max_size(t) - overhead) as nat;
    if msg_len + 1 > budget {
        None
    } else if round_up_64(msg_len + 1) > budget {
        Some(budget)
    } else {
        Some(round_up_64(msg_len + 1))
    }
}

/// Computes `response_padded_len`.
pub fn padded_len_for(msg_len: usize, t: Transport) -> (r: Option<usize>)
    ensures
        match r {
            Some(n) => response_padded_len(msg_len as nat, t) == Some(n as nat),
            None => response_padded_len(msg_len as nat, t) is None,
        },
{
    let max = match t {
        Transport::Udp => DNS_CRYPT_UDP_RESPONSE_MAX_SIZE,
        Transport::Tcp => DNS_CRYPT_TCP_RESPONSE_MAX_SIZE,
    };
    let budget: usize = max - DNS_CRYPT_RESPONSE_HEADER_SIZE - DNS_CRYPT_MAC_SIZE;
    if msg_len >= budget {
        None
    } else {
        let rounded: usize = ((msg_len + 1 + 63) / 64) * 64;
        if rounded > budget {
            Some(budget)
        } else {
            Some(rounded)
        }
    }
}

/// The plaintext to seal for an answer, and whether it stands for the answer
/// itself or for a truncated header in its place.
#[derive(Debug, Clone)]
pub struct PreparedResponse {
    pub plaintext: Vec<u8>,
    pub truncated: bool,
}

/// What is sealed in answer to a query on `t`, and whether it is truncated.
/// An answer that fits is padded as it is. One that does not fit is replaced
/// on UDP by its truncated header, padded, and refused on TCP.
pub open spec fn response_plaintext(answer: Seq<u8>, t: Transport) -> Result<
    (Seq<u8>, bool),
    CodecError,
> {
    if answer.len() < DNS_HEADER_SIZE {
        Err(CodecError::BadMessage)
    } else {
        match response_padded_len(answer.len(), t) {
            Some(n) => Ok((padded(answer, n), false)),
            None => match t {
                Transport::Udp => Ok(
                    (
                        padded(
                            truncated_header(answer),
                            response_padded_len(DNS_HEADER_SIZE as nat, t).unwrap(),
                        ),
                        true,
                    ),
                ),
                Transport::Tcp => Err(CodecError::TooLong),
            },
        }
    }
}

/// Once sealed, a prepared response is an envelope within the bounds of its
/// transport; on UDP every answer with a DNS header is answered, and an
/// answer too large for one datagram by a truncated header.
pub proof fn lemma_response_plaintext(answer: Seq<u8>, t: Transport)
    requires
        answer.len() >= DNS_HEADER_SIZE,
    ensures
        t == Transport::Udp ==> response_plaintext(answer, t) is Ok,
        response_plaintext(answer, t) matches Ok(p) ==> {
            &&& response_min_size(t) <= DNS_CRYPT_RESPONSE_HEADER_SIZE + p.0.len()
                + DNS_CRYPT_MAC_SIZE <= response_max_size(t)
            &&& p.1 == (DNS_CRYPT_RESPONSE_HEADER_SIZE + answer.len() + 1 + DNS_CRYPT_MAC_SIZE
                > response_max_size(t))
            &&& !p.1 ==> message_from_plaintext(Some(p.0)) == Ok::<Seq<u8>, CodecError>(answer)
            &&& p.1 ==> message_from_plaintext(Some(p.0)) == Ok::<Seq<u8>, CodecError>(
                truncated_header(answer),
            )
        },
{
    lemma_truncated_header(answer);
    match response_plaintext(answer, t) {
        Ok(p) => {
            if p.1 {
                let n = response_padded_len(DNS_HEADER_SIZE as nat, t).unwrap();
                lemma_unpad_pad(truncated_header(answer), n);
            } else {
                let n = response_padded_len(answer.len(), t).unwrap();
                lemma_unpad_pad(answer, n);
            }
        },
        Err(_) => {},
    }
}

/// Prepares the plaintext to seal in answer to a query on `t`.
pub fn prepare_response(answer: &[u8], t: Transport) -> (r: Result<PreparedResponse, CodecError>)
    ensures
        match r {
            Ok(p) => response_plaintext(answer@, t) == Ok::<(Seq<u8>, bool), CodecError>(
                (p.plaintext@, p.truncated),
            ),
            Err(e) => response_plaintext(answer@, t) == Err::<(Seq<u8>, bool), CodecError>(e),
        },
{
    if answer.len() < DNS_HEADER_SIZE {
        return Err(CodecError::BadMessage);
    }
    match padded_len_for(answer.len(), t) {
        Some(n) => {
            match pad(answer, n) {
                Some(plaintext) => Ok(PreparedResponse { plaintext, truncated: false }),
                None => Err(CodecError::BadMessage),
            }
        },
        None => {
            match t {
                Transport::Tcp => Err(CodecError::TooLong),
                Transport::Udp => {
                    let header = truncated_response(answer);
                    let n = padded_len_for(DNS_HEADER_SIZE, t);
                    match (header, n) {
                        (Some(h), Some(n)) => {
                            proof {
                                lemma_truncated_header(answer@);
                            }
                            match pad(h.as_slice(), n) {
                                Some(plaintext) => Ok(
                                    PreparedResponse { plaintext, truncated: true },
                                ),
                                None => Err(CodecError::BadMessage),
                            }
                        },
                        _ => Err(CodecError::BadMessage),
                    }
                },
            }
        },
    }
}

/// What a response envelope carries.
pub struct ResponseView {
    pub nonce: Seq<u8>,
    pub ciphertext: Seq<u8>,
}

impl ResponseView {
    /// The envelope on the wire: response magic, full nonce, ciphertext.
    pub open spec fn wire(self) -> Seq<u8> {
        DNS_CRYPT_RESPONSE_MAGIC@ + self.nonce + self.ciphertext
    }

    /// The envelope that a packet on `t` stands for, or why it stands for none.
    pub open spec fn from_wire(b: Seq<u8>, t: Transport) -> Result<ResponseView, CodecError> {
        if b.len() < response_min_size(t) {
            Err(CodecError::TooShort)
        } else if b.len() > response_max_size(t) {
            Err(CodecError::TooLong)
        } else if b.subrange(0, 8) != DNS_CRYPT_RESPONSE_MAGIC@ {
            Err(CodecError::BadMagic)
        } else {
            Ok(
                ResponseView {
                    nonce: b.subrange(8, 32),
                    ciphertext: b.subrange(32, b.len() as int),
                },
            )
        }
    }

    /// An envelope whose wire form is within the bounds of `t` is read back
    /// from it unchanged.
    pub proof fn lemma_wire_round_trip(v: ResponseView, t: Transport)
        requires
            v.nonce.len() == DNS_CRYPT_FULL_NONCE_SIZE,
            response_min_size(t) <= v.wire().len() <= response_max_size(t),
        ensures
            Self::from_wire(v.wire(), t) == Ok::<ResponseView, CodecError>(v),
    {
        let w = v.wire();
        assert(w.subrange(0, 8) =~= DNS_CRYPT_RESPONSE_MAGIC@);
        assert(w.subrange(8, 32) =~= v.nonce);
        assert(w.subrange(32, w.len() as int) =~= v.ciphertext);
    }
}

/// A response envelope: the full nonce and the sealed answer.
#[derive(Debug, Clone)]
pub struct ResponseEnvelope {
    pub nonce: [u8; 24],
    pub ciphertext: Vec<u8>,
}

impl View for ResponseEnvelope {
    type V = ResponseView;

    open spec fn view(&self) -> ResponseView {
        ResponseView { nonce: self.nonce@, ciphertext: self.ciphertext@ }
    }
}

impl ResponseEnvelope {
    /// The envelope as the resolver sends it on `t`, refused where its size
    /// is outside the bounds of `t`.
    pub fn to_bytes(&self, t: Transport) -> (r: Result<Vec<u8>, CodecError>)
        ensures
            match r {
                Ok(b) => b@ == self@.wire() && response_min_size(t) <= b@.len()
                    <= response_max_size(t),
                Err(e) => if self@.wire().len() < response_min_size(t) {
                    e == CodecError::TooShort
                } else {
                    e == CodecError::TooLong && self@.wire().len() > response_max_size(t)
                },
            },
    {
        let body = self.ciphertext.len();
        if body > DNS_CRYPT_TCP_RESPONSE_MAX_SIZE {
            return Err(CodecError::TooLong);
        }
        match check_response_size(DNS_CRYPT_RESPONSE_HEADER_SIZE + body, t) {
            Err(e) => Err(e),
            Ok(()) => {
                let mut out: Vec<u8> = Vec::with_capacity(DNS_CRYPT_RESPONSE_HEADER_SIZE + body);
                out.extend_from_slice(DNS_CRYPT_RESPONSE_MAGIC.as_slice());
                out.extend_from_slice(self.nonce.as_slice());
                out.extend_from_slice(self.ciphertext.as_slice());
                assert(out@ =~= self@.wire());
                Ok(out)
            },
        }
    }

    /// Takes a response packet apart after checking its size for `t` and its
    /// magic.
    pub fn parse(packet: &[u8], t: Transport) -> (r: Result<Self, CodecError>)
        ensures
            match r {
                Ok(p) => ResponseView::from_wire(packet@, t) == Ok::<ResponseView, CodecError>(
                    p@,
                ),
                Err(e) => ResponseView::from_wire(packet@, t) == Err::<ResponseView, CodecError>(
                    e,
                ),
            },
    {
        match check_response_size(packet.len(), t) {
            Err(e) => Err(e),
            Ok(()) => {
                if !bytes_match(packet, 0, DNS_CRYPT_RESPONSE_MAGIC.as_slice()) {
                    return Err(CodecError::BadMagic);
                }
                let body = vstd::slice::slice_subrange(
                    packet,
                    DNS_CRYPT_RESPONSE_HEADER_SIZE,
                    packet.len(),
                );
                Ok(
                    ResponseEnvelope {
                        nonce: array_at::<24>(packet, 8),
                        ciphertext: vstd::slice::slice_to_vec(body),
                    },
                )
            },
        }
    }
}

/// The query packet that a client sends for `msg`: the message padded to
/// `padded_len` bytes and sealed by `seal` under `key` and the query nonce,
/// behind the client's magic, public key and half nonce.
pub open spec fn sealed_query(
    seal: spec_fn(Seq<u8>, Seq<u8>, Seq<u8>) -> Seq<u8>,
    key: Seq<u8>,
    client_magic: Seq<u8>,
    client_pk: Seq<u8>,
    client_nonce: Seq<u8>,
    msg: Seq<u8>,
    padded_len: nat,
) -> Seq<u8> {
    (QueryView {
        client_magic,
        client_pk,
        client_nonce,
        ciphertext: seal(key, query_nonce_spec(client_nonce), padded(msg, padded_len)),
    }).wire()
}

/// The message that the resolver reads from a query packet on `t`: what
/// `QueryEnvelope::parse`, the cipher `open` under `key` and the query
/// nonce, and `finish_query` give in turn.
pub open spec fn opened_query(
    open: spec_fn(Seq<u8>, Seq<u8>, Seq<u8>) -> Option<Seq<u8>>,
    key: Seq<u8>,
    packet: Seq<u8>,
    t: Transport,
) -> Result<Seq<u8>, CodecError> {
    match QueryView::from_wire(packet, t) {
        Err(e) => Err(e),
        Ok(q) => message_from_plaintext(open(key, query_nonce_spec(q.client_nonce), q.ciphertext)),
    }
}

/// With a cipher that opens what it sealed under the same key and nonce,
/// the resolver reads from a client's query packet the very message that
/// the client sealed, and never fails on it.
pub proof fn lemma_query_round_trip(
    seal: spec_fn(Seq<u8>, Seq<u8>, Seq<u8>) -> Seq<u8>,
    open: spec_fn(Seq<u8>, Seq<u8>, Seq<u8>) -> Option<Seq<u8>>,
    key: Seq<u8>,
    client_magic: Seq<u8>,
    client_pk: Seq<u8>,
    client_nonce: Seq<u8>,
    msg: Seq<u8>,
    padded_len: nat,
    t: Transport,
)
    requires
        forall|k: Seq<u8>, n: Seq<u8>, m: Seq<u8>| open(k, n, #[trigger] seal(k, n, m)) == Some(m),
        client_magic.len() == 8,
        client_pk.len() == 32,
        client_nonce.len() == DNS_CRYPT_QUERY_NONCE_SIZE,
        DNS_HEADER_SIZE <= msg.len() < padded_len,
        query_min_size(t) <= sealed_query(
            seal,
            key,
            client_magic,
            client_pk,
            client_nonce,
            msg,
            padded_len,
        ).len() <= query_max_size(t),
    ensures
        opened_query(
            open,
            key,
            sealed_query(seal, key, client_magic, client_pk, client_nonce, msg, padded_len),
            t,
        ) == Ok::<Seq<u8>, CodecError>(msg),
{
    let q = QueryView {
        client_magic,
        client_pk,
        client_nonce,
        ciphertext: seal(key, query_nonce_spec(client_nonce), padded(msg, padded_len)),
    };
    QueryView::lemma_wire_round_trip(q, t);
    lemma_unpad_pad(msg, padded_len);
}

/// A payload behind its length in two bytes, big-endian, as TCP carries it.
pub open spec fn tcp_framed(payload: Seq<u8>) -> Seq<u8>
    recommends
        payload.len() <= u16::MAX,
{
    u16_be(payload.len() as u16) + payload
}

/// The payload of one TCP frame that fills `buf` exactly, if `buf` is one.
pub open spec fn tcp_payload(buf: Seq<u8>) -> Option<Seq<u8>> {
    if buf.len() >= 2 && be16(buf.subrange(0, 2)) == buf.len() - 2 {
        Some(buf.subrange(2, buf.len() as int))
    } else {
        None
    }
}

/// A frame holds its payload, and nothing else is a frame of that payload.
pub proof fn lemma_tcp_frame_round_trip(payload: Seq<u8>, buf: Seq<u8>)
    requires
        payload.len() <= u16::MAX,
    ensures
        tcp_payload(tcp_framed(payload)) == Some(payload),
        tcp_payload(buf) == Some(payload) ==> buf == tcp_framed(payload),
{
    let f = tcp_framed(payload);
    assert(f.subrange(0, 2) =~= u16_be(payload.len() as u16));
    assert(f.subrange(2, f.len() as int) =~= payload);
    crate::dns::wire::lemma_be16_round_trip(payload.len() as u16, seq![0u8, 0u8]);
    if tcp_payload(buf) == Some(payload) {
        crate::dns::wire::lemma_be16_round_trip(0, buf.subrange(0, 2));
        assert(buf =~= tcp_framed(payload));
    }
}

/// The length of the payload that the two bytes in front of a TCP frame
/// announce.
pub fn tcp_announced_len(prefix: &[u8; 2]) -> (r: usize)
    ensures
        r == be16(prefix@),
{
    read_be16(prefix.as_slice()) as usize
}

/// Frames a payload for TCP; none where its length does not fit two bytes.
pub fn tcp_frame(payload: &[u8]) -> (r: Option<Vec<u8>>)
    ensures
        r.is_some() == (payload@.len() <= u16::MAX),
        r matches Some(f) ==> f@ == tcp_framed(payload@),
{
    let len = payload.len();
    if len > 0xffff {
        return None;
    }
    let prefix = be16_bytes(len as u16);
    let mut out: Vec<u8> = Vec::with_capacity(len + 2);
    out.extend_from_slice(prefix.as_slice());
    out.extend_from_slice(payload);
    proof {
        crate::dns::wire::lemma_be16_round_trip(0, prefix@);
        assert(out@ =~= tcp_framed(payload@));
    }
    Some(out)
}

/// The payload of the TCP frame that fills `buf` exactly; none where `buf`
/// is no such frame.
pub fn tcp_unframe(buf: &[u8]) -> (r: Option<Vec<u8>>)
    ensures
        r.is_some() == tcp_payload(buf@).is_some(),
        r matches Some(p) ==> Some(p@) == tcp_payload(buf@),
{
    if buf.len() < 2 {
        return None;
    }
    let announced = read_be16(vstd::slice::slice_subrange(buf, 0, 2));
    if announced as usize != buf.len() - 2 {
        return None;
    }
    Some(vstd::slice::slice_to_vec(vstd::slice::slice_subrange(buf, 2, buf.len())))
}

} // verus!
