//! Wire constants and the certificate records.

use crate::dns::keys::{key_outcome, CryptKeyPair, SharedKey, SharedKeyCache};
use crate::support::sieve::MAX_CACHE_CAPACITY;
use crate::dns::wire::{
    array_at, be32, be32_bytes, bytes_match, lemma_be32_round_trip, read_be32, u32_be,
};
use vstd::prelude::*;

verus! {

pub const ANONYMIZED_DNS_CRYPT_QUERY_MAGIC: [u8; 10] = [
    0xff, 0xff, 0xff, 0xff, 0xff, 0xff, 0xff, 0xff, 0x00, 0x00,
];

pub const ANONYMIZED_DNS_CRYPT_OVERHEAD: usize = 16 + 2;

pub const RELAYED_CERT_CACHE_SIZE: usize = 1000;

pub const RELAYED_CERT_CACHE_TTL: u32 = 600;

pub const DNS_MAX_HOSTNAME_SIZE: usize = 256;

pub const DNS_HEADER_SIZE: usize = 12;

pub const DNS_OFFSET_FLAGS: usize = 2;

pub const DNS_MAX_PACKET_SIZE: usize = 0x1600;

pub const DNS_MAX_IN_DIRECTIONS: usize = 16;

pub const DNS_FLAGS_TC: u16 = 0x0200;

pub const DNS_FLAGS_QR: u16 = 0x8000;

pub const DNS_FLAGS_RA: u16 = 0x0080;

pub const DNS_FLAGS_RD: u16 = 0x0100;

pub const DNS_FLAGS_CD: u16 = 0x0010;

pub const DNS_OFFSET_QUESTION: usize = DNS_HEADER_SIZE;

pub const DNS_TYPE_A: u16 = 1;

pub const DNS_TYPE_AAAA: u16 = 28;

pub const DNS_TYPE_OPT: u16 = 41;

pub const DNS_TYPE_TXT: u16 = 16;

pub const DNS_TYPE_HINFO: u16 = 13;

pub const DNS_CLASS_INET: u16 = 1;

pub const DNS_RCODE_SERVFAIL: u8 = 2;

pub const DNS_RCODE_NXDOMAIN: u8 = 3;

pub const DNS_RCODE_RFUSED: u8 = 5;

/// Nonce length of the XChaCha20-Poly1305 box construction.
pub const DNS_CRYPT_FULL_NONCE_SIZE: usize = 24;

/// Authentication tag length of the XChaCha20-Poly1305 box construction.
pub const DNS_CRYPT_MAC_SIZE: usize = 16;

pub const DNS_CRYPT_QUERY_MAGIC_SIZE: usize = 8;

pub const DNS_CRYPT_QUERY_PK_SIZE: usize = 32;

pub const DNS_CRYPT_QUERY_NONCE_SIZE: usize = DNS_CRYPT_FULL_NONCE_SIZE / 2;

pub const DNS_CRYPT_QUERY_HEADER_SIZE: usize = DNS_CRYPT_QUERY_MAGIC_SIZE
    + DNS_CRYPT_QUERY_PK_SIZE + DNS_CRYPT_QUERY_NONCE_SIZE;

pub const DNS_CRYPT_QUERY_MIN_PADDING_SIZE: usize = 1;

pub const DNS_CRYPT_QUERY_MIN_OVERHEAD: usize = DNS_CRYPT_QUERY_HEADER_SIZE + DNS_CRYPT_MAC_SIZE
    + DNS_CRYPT_QUERY_MIN_PADDING_SIZE;

pub const DNS_CRYPT_RESPONSE_MAGIC_SIZE: usize = 8;

pub const DNS_CRYPT_RESPONSE_MAGIC: [u8; DNS_CRYPT_RESPONSE_MAGIC_SIZE] = [
    0x72, 0x36, 0x66, 0x6e, 0x76, 0x57, 0x6a, 0x38,
];

pub const DNS_CRYPT_RESPONSE_CERT_PREFIX_OFFSET: usize = 4;

pub const DNS_CRYPT_RESPONSE_NONCE_SIZE: usize = DNS_CRYPT_FULL_NONCE_SIZE;

pub const DNS_CRYPT_RESPONSE_HEADER_SIZE: usize = DNS_CRYPT_RESPONSE_MAGIC_SIZE
    + DNS_CRYPT_RESPONSE_NONCE_SIZE;

pub const DNS_CRYPT_RESPONSE_MIN_PADDING_SIZE: usize = 1;

pub const DNS_CRYPT_RESPONSE_MIN_OVERHEAD: usize = DNS_CRYPT_RESPONSE_HEADER_SIZE
    + DNS_CRYPT_MAC_SIZE + DNS_CRYPT_RESPONSE_MIN_PADDING_SIZE;

pub const DNS_CRYPT_UDP_QUERY_MIN_SIZE: usize = DNS_CRYPT_QUERY_MIN_OVERHEAD + DNS_HEADER_SIZE;

pub const DNS_CRYPT_UDP_QUERY_MAX_SIZE: usize = DNS_MAX_PACKET_SIZE;

pub const DNS_CRYPT_TCP_QUERY_MIN_SIZE: usize = DNS_CRYPT_QUERY_MIN_OVERHEAD + DNS_HEADER_SIZE;

pub const DNS_CRYPT_TCP_QUERY_MAX_SIZE: usize = DNS_CRYPT_QUERY_MIN_OVERHEAD + DNS_MAX_PACKET_SIZE;

pub const DNS_CRYPT_UDP_RESPONSE_MIN_SIZE: usize = DNS_CRYPT_RESPONSE_MIN_OVERHEAD
    + DNS_HEADER_SIZE;

pub const DNS_CRYPT_UDP_RESPONSE_MAX_SIZE: usize = DNS_MAX_PACKET_SIZE;

pub const DNS_CRYPT_TCP_RESPONSE_MIN_SIZE: usize = DNS_CRYPT_RESPONSE_MIN_OVERHEAD
    + DNS_HEADER_SIZE;

pub const DNS_CRYPT_TCP_RESPONSE_MAX_SIZE: usize = DNS_CRYPT_RESPONSE_MIN_OVERHEAD
    + DNS_MAX_PACKET_SIZE;

pub const DNS_CRYPT_CERTS_TTL: u32 = 86400;

pub const DNS_CRYPT_CERTS_RENEWAL: u32 = 28800;

/// Leading bytes of every published certificate: the ASCII letters `DNSC`.
pub const DNS_CRYPT_CERT_MAGIC: [u8; 4] = [0x44, 0x4e, 0x53, 0x43];

/// Crypto-construction version of X25519 with XChaCha20-Poly1305, the only one served.
pub const DNS_CRYPT_ES_VERSION: [u8; 2] = [0x00, 0x02];

/// Length of the signed part of a certificate on the wire.
pub const DNS_CRYPT_CERT_INNER_SIZE: usize = 52;

/// Length of a whole certificate on the wire.
pub const DNS_CRYPT_CERT_SIZE: usize = 124;

/// What the signed part of a certificate says.
pub struct CertInnerView {
    pub resolver_pk: Seq<u8>,
    pub client_magic: Seq<u8>,
    pub serial: u32,
    pub ts_start: u32,
    pub ts_end: u32,
}

impl CertInnerView {
    /// The 52 bytes that stand for this record on the wire.
    pub open spec fn wire(self) -> Seq<u8> {
        self.resolver_pk + self.client_magic + u32_be(self.serial) + u32_be(self.ts_start)
            + u32_be(self.ts_end)
    }

    /// Field lengths of a record held in memory.
    pub open spec fn shaped(self) -> bool {
        self.resolver_pk.len() == 32 && self.client_magic.len() == 8
    }

    /// Whether the validity window contains `now`.
    pub open spec fn covers(self, now: u32) -> bool {
        self.ts_start <= now <= self.ts_end
    }

    /// The record that 52 bytes stand for.
    pub open spec fn from_wire(b: Seq<u8>) -> CertInnerView
        recommends
            b.len() == DNS_CRYPT_CERT_INNER_SIZE,
    {
        CertInnerView {
            resolver_pk: b.subrange(0, 32),
            client_magic: b.subrange(32, 40),
            serial: be32(b.subrange(40, 44)) as u32,
            ts_start: be32(b.subrange(44, 48)) as u32,
            ts_end: be32(b.subrange(48, 52)) as u32,
        }
    }

    /// Reading back what was written gives the same record, and writing what
    /// was read gives the same 52 bytes.
    pub proof fn lemma_wire_round_trip(v: CertInnerView, b: Seq<u8>)
        requires
            v.shaped(),
            b.len() == DNS_CRYPT_CERT_INNER_SIZE,
        ensures
            v.wire().len() == DNS_CRYPT_CERT_INNER_SIZE,
            Self::from_wire(v.wire()) == v,
            Self::from_wire(b).shaped(),
            Self::from_wire(b).wire() == b,
    {
        let w = v.wire();
        assert(w.subrange(0, 32) =~= v.resolver_pk);
        assert(w.subrange(32, 40) =~= v.client_magic);
        assert(w.subrange(40, 44) =~= u32_be(v.serial));
        assert(w.subrange(44, 48) =~= u32_be(v.ts_start));
        assert(w.subrange(48, 52) =~= u32_be(v.ts_end));
        lemma_be32_round_trip(v.serial, b.subrange(40, 44));
        lemma_be32_round_trip(v.ts_start, b.subrange(44, 48));
        lemma_be32_round_trip(v.ts_end, b.subrange(48, 52));
        assert(Self::from_wire(b).wire() =~= b);
    }
}

/// The signed part of a certificate, kept in wire layout.
#[derive(Debug, Copy, Clone)]
pub struct DNSCryptCertInner {
    resolver_pk: [u8; 32],
    client_magic: [u8; 8],
    serial: [u8; 4],
    ts_start: [u8; 4],
    ts_end: [u8; 4],
}

impl View for DNSCryptCertInner {
    type V = CertInnerView;

    closed spec fn view(&self) -> CertInnerView {
        CertInnerView {
            resolver_pk: self.resolver_pk@,
            client_magic: self.client_magic@,
            serial: be32(self.serial@) as u32,
            ts_start: be32(self.ts_start@) as u32,
            ts_end: be32(self.ts_end@) as u32,
        }
    }
}

impl DNSCryptCertInner {
    /// Builds the record for a resolver key, the magic clients will send,
    /// a serial number and a validity window in seconds since the epoch.
    pub fn new(
        resolver_pk: [u8; 32],
        client_magic: [u8; 8],
        serial: u32,
        ts_start: u32,
        ts_end: u32,
    ) -> (r: Self)
        ensures
            r@ == (CertInnerView {
                resolver_pk: resolver_pk@,
                client_magic: client_magic@,
                serial,
                ts_start,
                ts_end,
            }),
    {
        DNSCryptCertInner {
            resolver_pk,
            client_magic,
            serial: be32_bytes(serial),
            ts_start: be32_bytes(ts_start),
            ts_end: be32_bytes(ts_end),
        }
    }

    /// The record that a resolver issues at `now` for its key `resolver_pk`:
    /// clients are to send the first eight bytes of the key as their magic,
    /// and the record is valid from `now` for `DNS_CRYPT_CERTS_TTL` seconds,
    /// or to the end of time where that comes first.
    pub fn issue(resolver_pk: [u8; 32], serial: u32, now: u32) -> (r: Self)
        ensures
            r@ == (CertInnerView {
                resolver_pk: resolver_pk@,
                client_magic: resolver_pk@.subrange(0, 8),
                serial,
                ts_start: now,
                ts_end: if now + DNS_CRYPT_CERTS_TTL > u32::MAX {
                    u32::MAX
                } else {
                    (now + DNS_CRYPT_CERTS_TTL) as u32
                },
            }),
            r@.covers(now),
    {
        let client_magic = array_at::<8>(resolver_pk.as_slice(), 0);
        let ts_end = if now > u32::MAX - DNS_CRYPT_CERTS_TTL {
            u32::MAX
        } else {
            now + DNS_CRYPT_CERTS_TTL
        };
        DNSCryptCertInner::new(resolver_pk, client_magic, serial, now, ts_end)
    }

    /// Every record in memory has a 32-byte key and an 8-byte magic.
    pub proof fn lemma_shaped(&self)
        ensures
            self@.shaped(),
    {
    }

    pub fn resolver_pk(&self) -> (r: [u8; 32])
        ensures
            r@ == self@.resolver_pk,
    {
        self.resolver_pk
    }

    pub fn client_magic(&self) -> (r: [u8; 8])
        ensures
            r@ == self@.client_magic,
    {
        self.client_magic
    }

    pub fn serial(&self) -> (r: u32)
        ensures
            r == self@.serial,
    {
        read_be32(self.serial.as_slice())
    }

    pub fn ts_start(&self) -> (r: u32)
        ensures
            r == self@.ts_start,
    {
        read_be32(self.ts_start.as_slice())
    }

    pub fn ts_end(&self) -> (r: u32)
        ensures
            r == self@.ts_end,
    {
        read_be32(self.ts_end.as_slice())
    }

    /// The record as it is signed and sent.
    pub fn as_bytes(&self) -> (r: Vec<u8>)
        ensures
            r@ == self@.wire(),
            r@.len() == DNS_CRYPT_CERT_INNER_SIZE,
    {
        let mut out: Vec<u8> = Vec::with_capacity(DNS_CRYPT_CERT_INNER_SIZE);
        out.extend_from_slice(self.resolver_pk.as_slice());
        out.extend_from_slice(self.client_magic.as_slice());
        out.extend_from_slice(self.serial.as_slice());
        out.extend_from_slice(self.ts_start.as_slice());
        out.extend_from_slice(self.ts_end.as_slice());
        proof {
            lemma_be32_round_trip(0, self.serial@);
            lemma_be32_round_trip(0, self.ts_start@);
            lemma_be32_round_trip(0, self.ts_end@);
            assert(out@ =~= self@.wire());
        }
        out
    }

    /// Reads a record from exactly 52 bytes.
    pub fn from_bytes(bytes: &[u8]) -> (r: Option<Self>)
        ensures
            r.is_some() == (bytes@.len() == DNS_CRYPT_CERT_INNER_SIZE),
            r matches Some(c) ==> c@ == CertInnerView::from_wire(bytes@) && c@.wire() == bytes@,
    {
        if bytes.len() != DNS_CRYPT_CERT_INNER_SIZE {
            return None;
        }
        let c = DNSCryptCertInner {
            resolver_pk: array_at::<32>(bytes, 0),
            client_magic: array_at::<8>(bytes, 32),
            serial: array_at::<4>(bytes, 40),
            ts_start: array_at::<4>(bytes, 44),
            ts_end: array_at::<4>(bytes, 48),
        };
        proof {
            lemma_be32_round_trip(0, c.serial@);
            lemma_be32_round_trip(0, c.ts_start@);
            lemma_be32_round_trip(0, c.ts_end@);
            assert(c@.wire() =~= bytes@);
        }
        Some(c)
    }
}

impl Default for DNSCryptCertInner {
    /// The record of zero bytes throughout.
    fn default() -> (r: Self)
        ensures
            r@.wire() == Seq::new(DNS_CRYPT_CERT_INNER_SIZE as nat, |i: int| 0u8),
    {
        let r = DNSCryptCertInner {
            resolver_pk: [0u8; 32],
            client_magic: [0u8; 8],
            serial: [0u8; 4],
            ts_start: [0u8; 4],
            ts_end: [0u8; 4],
        };
        proof {
            lemma_be32_round_trip(0, r.serial@);
            assert(r@.wire() =~= Seq::new(DNS_CRYPT_CERT_INNER_SIZE as nat, |i: int| 0u8));
        }
        r
    }
}

/// Why bytes were not accepted as a certificate.
#[derive(Debug, Copy, Clone, PartialEq, Eq, Structural)]
pub enum CertError {
    /// Not exactly 124 bytes.
    WrongLength,
    /// The first four bytes are not `DNSC`.
    BadMagic,
    /// A crypto construction other than the one served.
    UnsupportedVersion,
}

/// What a certificate says.
pub struct CertView {
    pub cert_magic: Seq<u8>,
    pub es_version: Seq<u8>,
    pub minor_version: Seq<u8>,
    pub signature: Seq<u8>,
    pub inner: CertInnerView,
}

impl CertView {
    /// The 124 bytes that stand for this certificate on the wire.
    pub open spec fn wire(self) -> Seq<u8> {
        self.cert_magic + self.es_version + self.minor_version + self.signature
            + self.inner.wire()
    }

    /// Field lengths of a certificate held in memory.
    pub open spec fn shaped(self) -> bool {
        &&& self.cert_magic.len() == 4
        &&& self.es_version.len() == 2
        &&& self.minor_version.len() == 2
        &&& self.signature.len() == 64
        &&& self.inner.shaped()
    }

    /// The magic is `DNSC` and the crypto construction is the one served.
    pub open spec fn well_formed(self) -> bool {
        self.cert_magic == DNS_CRYPT_CERT_MAGIC@ && self.es_version == DNS_CRYPT_ES_VERSION@
    }

    /// Whether the certificate may be used at `now`: it is well formed and
    /// its validity window contains `now`.
    pub open spec fn usable_at(self, now: u32) -> bool {
        self.well_formed() && self.inner.covers(now)
    }

    /// The certificate that bytes stand for, or the reason they stand for none.
    pub open spec fn from_wire(b: Seq<u8>) -> Result<CertView, CertError> {
        if b.len() != DNS_CRYPT_CERT_SIZE {
            Err(CertError::WrongLength)
        } else if b.subrange(0, 4) != DNS_CRYPT_CERT_MAGIC@ {
            Err(CertError::BadMagic)
        } else if b.subrange(4, 6) != DNS_CRYPT_ES_VERSION@ {
            Err(CertError::UnsupportedVersion)
        } else {
            Ok(
                CertView {
                    cert_magic: b.subrange(0, 4),
                    es_version: b.subrange(4, 6),
                    minor_version: b.subrange(6, 8),
                    signature: b.subrange(8, 72),
                    inner: CertInnerView::from_wire(b.subrange(72, 124)),
                },
            )
        }
    }

    /// A well-formed certificate is read back from its own bytes.
    pub proof fn lemma_wire_round_trip(v: CertView)
        requires
            v.shaped(),
            v.well_formed(),
        ensures
            v.wire().len() == DNS_CRYPT_CERT_SIZE,
            Self::from_wire(v.wire()) == Ok::<CertView, CertError>(v),
    {
        let w = v.wire();
        CertInnerView::lemma_wire_round_trip(v.inner, v.inner.wire());
        assert(w.subrange(0, 4) =~= v.cert_magic);
        assert(w.subrange(4, 6) =~= v.es_version);
        assert(w.subrange(6, 8) =~= v.minor_version);
        assert(w.subrange(8, 72) =~= v.signature);
        assert(w.subrange(72, 124) =~= v.inner.wire());
    }

    /// Bytes that are read as a certificate are that certificate's bytes.
    pub proof fn lemma_from_wire_exact(b: Seq<u8>)
        requires
            Self::from_wire(b) is Ok,
        ensures
            Self::from_wire(b).unwrap().wire() == b,
            Self::from_wire(b).unwrap().shaped(),
            Self::from_wire(b).unwrap().well_formed(),
    {
        CertInnerView::lemma_wire_round_trip(
            CertInnerView::from_wire(b.subrange(72, 124)),
            b.subrange(72, 124),
        );
        assert(Self::from_wire(b).unwrap().wire() =~= b);
    }
}

/// A certificate: header, signature and signed part, kept in wire layout.
#[derive(Debug, Copy, Clone)]
pub struct DNSCryptCert {
    cert_magic: [u8; 4],
    es_version: [u8; 2],
    minor_version: [u8; 2],
    signature: [u8; 64],
    inner: DNSCryptCertInner,
}

impl View for DNSCryptCert {
    type V = CertView;

    closed spec fn view(&self) -> CertView {
        CertView {
            cert_magic: self.cert_magic@,
            es_version: self.es_version@,
            minor_version: self.minor_version@,
            signature: self.signature@,
            inner: self.inner@,
        }
    }
}

impl DNSCryptCert {
    /// A certificate for the construction served, over a signed part and the
    /// provider's signature of it.
    pub fn new(inner: DNSCryptCertInner, signature: [u8; 64]) -> (r: Self)
        ensures
            r@ == (CertView {
                cert_magic: DNS_CRYPT_CERT_MAGIC@,
                es_version: DNS_CRYPT_ES_VERSION@,
                minor_version: seq![0u8, 0u8],
                signature: signature@,
                inner: inner@,
            }),
            r@.well_formed(),
    {
        let r = DNSCryptCert {
            cert_magic: DNS_CRYPT_CERT_MAGIC,
            es_version: DNS_CRYPT_ES_VERSION,
            minor_version: [0u8, 0u8],
            signature,
            inner,
        };
        assert(r.minor_version@ =~= seq![0u8, 0u8]);
        r
    }

    /// Every certificate in memory has fields of the wire's lengths.
    pub proof fn lemma_shaped(&self)
        ensures
            self@.shaped(),
    {
    }

    pub fn inner(&self) -> (r: DNSCryptCertInner)
        ensures
            r@ == self@.inner,
    {
        self.inner
    }

    pub fn signature(&self) -> (r: [u8; 64])
        ensures
            r@ == self@.signature,
    {
        self.signature
    }

    pub fn client_magic(&self) -> (r: [u8; 8])
        ensures
            r@ == self@.inner.client_magic,
    {
        self.inner.client_magic()
    }

    pub fn serial(&self) -> (r: u32)
        ensures
            r == self@.inner.serial,
    {
        self.inner.serial()
    }

    pub fn ts_start(&self) -> (r: u32)
        ensures
            r == self@.inner.ts_start,
    {
        self.inner.ts_start()
    }

    pub fn ts_end(&self) -> (r: u32)
        ensures
            r == self@.inner.ts_end,
    {
        self.inner.ts_end()
    }

    /// Whether magic and crypto construction are those served.
    pub fn is_well_formed(&self) -> (r: bool)
        ensures
            r == self@.well_formed(),
    {
        assert(self.cert_magic@.subrange(0, 4) =~= self.cert_magic@);
        assert(self.es_version@.subrange(0, 2) =~= self.es_version@);
        bytes_match(self.cert_magic.as_slice(), 0, DNS_CRYPT_CERT_MAGIC.as_slice())
            && bytes_match(self.es_version.as_slice(), 0, DNS_CRYPT_ES_VERSION.as_slice())
    }

    /// Whether the certificate may be used at `now`, in seconds since the epoch.
    pub fn is_valid_at(&self, now: u32) -> (r: bool)
        ensures
            r == self@.usable_at(now),
    {
        self.is_well_formed() && self.inner.ts_start() <= now && now <= self.inner.ts_end()
    }

    /// The bytes that the provider key signs.
    pub fn signed_bytes(&self) -> (r: Vec<u8>)
        ensures
            r@ == self@.inner.wire(),
    {
        self.inner.as_bytes()
    }

    /// The certificate as it is published.
    pub fn as_bytes(&self) -> (r: Vec<u8>)
        ensures
            r@ == self@.wire(),
            r@.len() == DNS_CRYPT_CERT_SIZE,
    {
        let mut out: Vec<u8> = Vec::with_capacity(DNS_CRYPT_CERT_SIZE);
        out.extend_from_slice(self.cert_magic.as_slice());
        out.extend_from_slice(self.es_version.as_slice());
        out.extend_from_slice(self.minor_version.as_slice());
        out.extend_from_slice(self.signature.as_slice());
        let inner = self.inner.as_bytes();
        out.extend_from_slice(inner.as_slice());
        assert(out@ =~= self@.wire());
        out
    }

    /// Reads a published certificate, checking length, magic and version in
    /// that order.
    pub fn from_bytes(bytes: &[u8]) -> (r: Result<Self, CertError>)
        ensures
            match r {
                Ok(c) => CertView::from_wire(bytes@) == Ok::<CertView, CertError>(c@),
                Err(e) => CertView::from_wire(bytes@) == Err::<CertView, CertError>(e),
            },
    {
        if bytes.len() != DNS_CRYPT_CERT_SIZE {
            return Err(CertError::WrongLength);
        }
        if !bytes_match(bytes, 0, DNS_CRYPT_CERT_MAGIC.as_slice()) {
            return Err(CertError::BadMagic);
        }
        if !bytes_match(bytes, 4, DNS_CRYPT_ES_VERSION.as_slice()) {
            return Err(CertError::UnsupportedVersion);
        }
        let inner_bytes = vstd::slice::slice_subrange(bytes, 72, 124);
        let inner = match DNSCryptCertInner::from_bytes(inner_bytes) {
            Some(inner) => inner,
            None => { return Err(CertError::WrongLength); },
        };
        Ok(
            DNSCryptCert {
                cert_magic: array_at::<4>(bytes, 0),
                es_version: array_at::<2>(bytes, 4),
                minor_version: array_at::<2>(bytes, 6),
                signature: array_at::<64>(bytes, 8),
                inner,
            },
        )
    }
}

impl Default for DNSCryptCert {
    /// The blank certificate of zero bytes throughout, which is not well
    /// formed and so never usable.
    fn default() -> (r: Self)
        ensures
            r@.wire() == Seq::new(DNS_CRYPT_CERT_SIZE as nat, |i: int| 0u8),
            !r@.well_formed(),
    {
        let inner = DNSCryptCertInner::default();
        let r = DNSCryptCert {
            cert_magic: [0u8; 4],
            es_version: [0u8; 2],
            minor_version: [0u8; 2],
            signature: [0u8; 64],
            inner,
        };
        proof {
            assert(r@.wire() =~= Seq::new(DNS_CRYPT_CERT_SIZE as nat, |i: int| 0u8));
            assert(r@.cert_magic[0] != DNS_CRYPT_CERT_MAGIC@[0]);
        }
        r
    }
}

/// A certificate outside its validity window is not usable.
pub proof fn lemma_outside_window_unusable(v: CertView, now: u32)
    requires
        v.inner.ts_start > now || v.inner.ts_end < now,
    ensures
        !v.usable_at(now),
{
}

/// Why a certificate and a key pair were not accepted together.
#[derive(Debug, Copy, Clone, PartialEq, Eq, Structural)]
pub enum ParamsError {
    /// The certificate's magic or crypto construction is not the one served.
    MalformedCertificate,
    /// The certificate names another resolver key than the key pair's.
    KeyMismatch,
}

/// One certificate with the resolver key pair it publishes, and the cache of
/// the keys shared with clients under it.
pub struct DNSCryptEncryptionParams {
    dnscrypt_cert: DNSCryptCert,
    resolver_kp: CryptKeyPair,
    pub key_cache: Option<SharedKeyCache>,
}

impl DNSCryptEncryptionParams {
    /// What the certificate says.
    pub closed spec fn cert(&self) -> CertView {
        self.dnscrypt_cert@
    }

    /// The resolver key pair.
    pub closed spec fn keypair(&self) -> CryptKeyPair {
        self.resolver_kp
    }

    /// The cache of shared keys, where there is one.
    pub closed spec fn cache(&self) -> Option<SharedKeyCache> {
        self.key_cache
    }

    /// The certificate is well formed and publishes the key pair's public
    /// key, and the cache, where there is one, is within its capacity.
    pub open spec fn inv(&self) -> bool {
        &&& self.cert().shaped()
        &&& self.cert().well_formed()
        &&& self.cert().inner.resolver_pk == self.keypair().pk@
        &&& self.cache() matches Some(c) ==> c.inv()
    }

    /// Binds a certificate to the key pair it publishes. A cache for
    /// `key_cache_capacity` shared keys comes with it; none for a capacity
    /// of zero or above `MAX_CACHE_CAPACITY`.
    pub fn new(
        dnscrypt_cert: DNSCryptCert,
        resolver_kp: CryptKeyPair,
        key_cache_capacity: usize,
    ) -> (r: Result<Self, ParamsError>)
        ensures
            match r {
                Ok(p) => {
                    &&& p.inv()
                    &&& p.cert() == dnscrypt_cert@
                    &&& p.keypair() == resolver_kp
                    &&& p.cache().is_some() == (0 < key_cache_capacity <= MAX_CACHE_CAPACITY)
                    &&& p.cache() matches Some(c) ==> c@.dom() == Set::<Seq<u8>>::empty()
                        && c.capacity_spec() == key_cache_capacity
                },
                Err(e) => if !dnscrypt_cert@.well_formed() {
                    e == ParamsError::MalformedCertificate
                } else {
                    e == ParamsError::KeyMismatch && dnscrypt_cert@.inner.resolver_pk
                        != resolver_kp.pk@
                },
            },
    {
        if !dnscrypt_cert.is_well_formed() {
            return Err(ParamsError::MalformedCertificate);
        }
        let cert_pk = dnscrypt_cert.inner.resolver_pk();
        assert(cert_pk@.subrange(0, 32) =~= cert_pk@);
        if !bytes_match(cert_pk.as_slice(), 0, resolver_kp.pk.as_slice()) {
            return Err(ParamsError::KeyMismatch);
        }
        let key_cache = SharedKeyCache::new(key_cache_capacity);
        Ok(DNSCryptEncryptionParams { dnscrypt_cert, resolver_kp, key_cache })
    }

    pub fn dnscrypt_cert(&self) -> (r: DNSCryptCert)
        ensures
            r@ == self.cert(),
    {
        self.dnscrypt_cert
    }

    pub fn resolver_kp(&self) -> (r: CryptKeyPair)
        ensures
            r == self.keypair(),
    {
        self.resolver_kp
    }

    pub fn client_magic(&self) -> (r: [u8; 8])
        ensures
            r@ == self.cert().inner.client_magic,
    {
        self.dnscrypt_cert.client_magic()
    }

    /// Whether the certificate may be used at `now`.
    pub fn is_valid_at(&self, now: u32) -> (r: bool)
        ensures
            r == self.cert().usable_at(now),
    {
        self.dnscrypt_cert.is_valid_at(now)
    }

    /// What asking for the key shared with `client_pk` gives, and what it
    /// makes of the cache: with a cache, what `key_outcome` says; without
    /// one, whatever `derive` finds.
    pub open spec fn shares<F: FnOnce([u8; 32], CryptKeyPair) -> Option<SharedKey>>(
        self,
        after: Self,
        client_pk: [u8; 32],
        derive: F,
        r: Option<SharedKey>,
    ) -> bool {
        &&& after.cert() == self.cert()
        &&& after.keypair() == self.keypair()
        &&& after.cache().is_some() == self.cache().is_some()
        &&& match self.cache() {
            Some(c) => after.cache()->Some_0.capacity_spec() == c.capacity_spec() && key_outcome(
                c@,
                c.capacity_spec(),
                client_pk,
                self.keypair(),
                derive,
                r,
                after.cache()->Some_0@,
            ),
            None => derive.ensures((client_pk, self.keypair()), r),
        }
    }

    /// The key shared with the client `client_pk`: the cached one where
    /// there is one, else what `derive` computes from the client key and the
    /// resolver key pair, which is cached where there is a cache.
    pub fn shared_key<F>(&mut self, client_pk: [u8; 32], derive: F) -> (r: Option<
        SharedKey,
    >) where F: FnOnce([u8; 32], CryptKeyPair) -> Option<SharedKey>
        requires
            old(self).inv(),
            derive.requires((client_pk, old(self).keypair())),
        ensures
            final(self).inv(),
            old(self).shares(*final(self), client_pk, derive, r),
    {
        let kp = self.resolver_kp;
        match &mut self.key_cache {
            Some(cache) => cache.get_or_derive(client_pk, kp, derive),
            None => derive(client_pk, kp),
        }
    }
}

/// Whether a certificate is kept at `now` in a set that retires
/// certificates `grace` seconds after their validity ends.
pub open spec fn retained(c: CertView, grace: u32, now: u32) -> bool {
    c.inner.ts_end + grace >= now
}

/// Those of `s` that are kept at `now`, in their order.
pub open spec fn retained_of(
    s: Seq<DNSCryptEncryptionParams>,
    grace: u32,
    now: u32,
) -> Seq<DNSCryptEncryptionParams>
    decreases s.len(),
{
    if s.len() == 0 {
        Seq::empty()
    } else if retained(s.last().cert(), grace, now) {
        retained_of(s.drop_last(), grace, now).push(s.last())
    } else {
        retained_of(s.drop_last(), grace, now)
    }
}

/// The certificates of `s` that are usable at `now`, each as it is
/// published, in their order.
pub open spec fn published_of(s: Seq<DNSCryptEncryptionParams>, now: u32) -> Seq<Seq<u8>>
    decreases s.len(),
{
    if s.len() == 0 {
        Seq::empty()
    } else if s.last().cert().usable_at(now) {
        published_of(s.drop_last(), now).push(s.last().cert().wire())
    } else {
        published_of(s.drop_last(), now)
    }
}

/// Why a rotation was refused.
#[derive(Debug, Copy, Clone, PartialEq, Eq, Structural)]
pub enum RotateError {
    /// The new certificate's serial is not above every serial in the set.
    SerialNotIncreasing,
}

/// The set of active certificates with their key pairs, newest first, and
/// its rotation.
pub struct DNSCryptEncryptionParamsUpdater {
    params_set: Vec<DNSCryptEncryptionParams>,
    grace: u32,
}

impl DNSCryptEncryptionParamsUpdater {
    /// The active set, newest first.
    pub closed spec fn params(&self) -> Seq<DNSCryptEncryptionParams> {
        self.params_set@
    }

    /// For how many seconds after the end of its validity a certificate is
    /// kept.
    pub closed spec fn grace_spec(&self) -> u32 {
        self.grace
    }

    /// Every member is sound, and serials fall strictly from the newest
    /// member to the oldest.
    pub open spec fn inv(&self) -> bool {
        &&& forall|i: int| 0 <= i < self.params().len() ==> (#[trigger] self.params()[i]).inv()
        &&& forall|i: int, j: int|
            0 <= i < j < self.params().len() ==> (#[trigger] self.params()[i]).cert().inner.serial
                > (#[trigger] self.params()[j]).cert().inner.serial
    }

    /// An empty set that keeps certificates for `grace` seconds after the
    /// end of their validity.
    pub fn new(grace: u32) -> (r: Self)
        ensures
            r.inv(),
            r.params().len() == 0,
            r.grace_spec() == grace,
    {
        DNSCryptEncryptionParamsUpdater { params_set: Vec::new(), grace }
    }

    /// The active set as it stands, newest first.
    pub fn current_params(&self) -> (r: &Vec<DNSCryptEncryptionParams>)
        ensures
            r@ == self.params(),
    {
        &self.params_set
    }

    pub fn len(&self) -> (r: usize)
        ensures
            r == self.params().len(),
    {
        self.params_set.len()
    }

    /// Installs `new_params` as the newest member and drops the members
    /// whose validity ended more than the grace period before `now`. It is
    /// refused, and the set left as it is, unless the new serial is above
    /// every serial in the set.
    pub fn rotate(&mut self, new_params: DNSCryptEncryptionParams, now: u32) -> (r: Result<
        (),
        RotateError,
    >)
        requires
            old(self).inv(),
            new_params.inv(),
        ensures
            final(self).inv(),
            final(self).grace_spec() == old(self).grace_spec(),
            r is Ok == (old(self).params().len() == 0 || new_params.cert().inner.serial > old(
                self,
            ).params()[0].cert().inner.serial),
            r is Ok ==> final(self).params() == seq![new_params] + retained_of(
                old(self).params(),
                old(self).grace_spec(),
                now,
            ),
            r is Err ==> final(self).params() == old(self).params(),
    {
        if self.params_set.len() > 0 && new_params.dnscrypt_cert.serial()
            <= self.params_set[0].dnscrypt_cert.serial() {
            return Err(RotateError::SerialNotIncreasing);
        }
        let ghost before = self.params_set@;
        let grace = self.grace;
        let mut kept: Vec<DNSCryptEncryptionParams> = Vec::new();
        kept.push(new_params);
        let ghost mut k: int = 0;
        while self.params_set.len() > 0
            invariant
                0 <= k <= before.len(),
                self.grace == grace,
                self.params_set@ == before.skip(k),
                kept@ == seq![new_params] + retained_of(before.take(k), grace, now),
                forall|i: int| 0 <= i < before.len() ==> (#[trigger] before[i]).inv(),
                forall|i: int, j: int|
                    0 <= i < j < before.len() ==> (#[trigger] before[i]).cert().inner.serial > (
                    #[trigger] before[j]).cert().inner.serial,
                forall|i: int| 0 <= i < kept@.len() ==> (#[trigger] kept@[i]).inv(),
                forall|i: int, j: int|
                    0 <= i < j < kept@.len() ==> (#[trigger] kept@[i]).cert().inner.serial > (
                    #[trigger] kept@[j]).cert().inner.serial,
                forall|i: int, j: int|
                    0 <= i < kept@.len() && k <= j < before.len() ==> (
                    #[trigger] kept@[i]).cert().inner.serial > (
                    #[trigger] before[j]).cert().inner.serial,
            decreases before.len() - k,
        {
            let p = self.params_set.remove(0);
            proof {
                assert(p == before[k]);
                assert(before.take(k + 1).drop_last() =~= before.take(k));
                assert(before.take(k + 1).last() == before[k]);
                assert(before.skip(k).remove(0) =~= before.skip(k + 1));
            }
            let end = p.dnscrypt_cert.ts_end();
            if (end as u64) + (grace as u64) >= now as u64 {
                kept.push(p);
            }
            proof {
                k = k + 1;
            }
        }
        proof {
            assert(before.take(k) =~= before);
        }
        self.params_set = kept;
        Ok(())
    }

    /// The certificates to publish at `now`: those usable then, newest
    /// first, each in its wire form.
    pub fn published(&self, now: u32) -> (r: Vec<Vec<u8>>)
        ensures
            r@.len() == published_of(self.params(), now).len(),
            forall|i: int| 0 <= i < r@.len() ==> (#[trigger] r@[i])@ == published_of(
                self.params(),
                now,
            )[i],
    {
        let n = self.params_set.len();
        let mut out: Vec<Vec<u8>> = Vec::new();
        let mut i: usize = 0;
        assert(self.params_set@.take(0) =~= Seq::<DNSCryptEncryptionParams>::empty());
        while i < n
            invariant
                i <= n,
                n == self.params_set@.len(),
                out@.len() == published_of(self.params_set@.take(i as int), now).len(),
                forall|k: int| 0 <= k < out@.len() ==> (#[trigger] out@[k])@ == published_of(
                    self.params_set@.take(i as int),
                    now,
                )[k],
            decreases n - i,
        {
            proof {
                let next = self.params_set@.take(i + 1);
                assert(next.drop_last() =~= self.params_set@.take(i as int));
                assert(next.last() == self.params_set@[i as int]);
            }
            if self.params_set[i].is_valid_at(now) {
                out.push(self.params_set[i].dnscrypt_cert.as_bytes());
            }
            i += 1;
        }
        assert(self.params_set@.take(n as int) =~= self.params_set@);
        out
    }

    /// The member to encrypt with at `now`: the newest whose certificate is
    /// usable then.
    pub fn select_for_encryption(&self, now: u32) -> (r: Option<usize>)
        ensures
            match r {
                Some(i) => {
                    &&& i < self.params().len()
                    &&& self.params()[i as int].cert().usable_at(now)
                    &&& forall|j: int| 0 <= j < i ==> !(#[trigger] self.params()[j]).cert().usable_at(now)
                },
                None => forall|j: int|
                    0 <= j < self.params().len() ==> !(#[trigger] self.params()[j]).cert().usable_at(
                        now,
                    ),
            },
    {
        let n = self.params_set.len();
        let mut i: usize = 0;
        while i < n
            invariant
                i <= n,
                n == self.params_set@.len(),
                forall|j: int| 0 <= j < i ==> !(#[trigger] self.params_set@[j]).cert().usable_at(now),
            decreases n - i,
        {
            if self.params_set[i].is_valid_at(now) {
                return Some(i);
            }
            i += 1;
        }
        None
    }

    /// The member that `select_for_encryption` chooses has the greatest
    /// serial of all members usable at `now`.
    pub proof fn lemma_selected_is_newest(&self, now: u32, chosen: int, other: int)
        requires
            self.inv(),
            0 <= chosen < self.params().len(),
            self.params()[chosen].cert().usable_at(now),
            forall|j: int| 0 <= j < chosen ==> !(#[trigger] self.params()[j]).cert().usable_at(now),
            0 <= other < self.params().len(),
            self.params()[other].cert().usable_at(now),
        ensures
            self.params()[chosen].cert().inner.serial >= self.params()[other].cert().inner.serial,
    {
    }

    /// The member to decrypt a query with at `now`: the newest whose
    /// certificate is usable then and announces `client_magic`.
    pub fn find_for_decryption(&self, client_magic: &[u8; 8], now: u32) -> (r: Option<usize>)
        ensures
            match r {
                Some(i) => {
                    &&& i < self.params().len()
                    &&& self.params()[i as int].cert().usable_at(now)
                    &&& self.params()[i as int].cert().inner.client_magic == client_magic@
                    &&& forall|j: int|
                        0 <= j < i ==> !((#[trigger] self.params()[j]).cert().usable_at(now)
                            && self.params()[j].cert().inner.client_magic == client_magic@)
                },
                None => forall|j: int|
                    0 <= j < self.params().len() ==> !((#[trigger] self.params()[j]).cert().usable_at(
                        now,
                    ) && self.params()[j].cert().inner.client_magic == client_magic@),
            },
    {
        let n = self.params_set.len();
        let mut i: usize = 0;
        while i < n
            invariant
                i <= n,
                n == self.params_set@.len(),
                forall|j: int|
                    0 <= j < i ==> !((#[trigger] self.params_set@[j]).cert().usable_at(now)
                        && self.params_set@[j].cert().inner.client_magic == client_magic@),
            decreases n - i,
        {
            let magic = self.params_set[i].client_magic();
            assert(magic@.subrange(0, 8) =~= magic@);
            if self.params_set[i].is_valid_at(now) && bytes_match(
                magic.as_slice(),
                0,
                client_magic.as_slice(),
            ) {
                return Some(i);
            }
            i += 1;
        }
        None
    }

    /// The key shared with the client `client_pk` under member `index`, as
    /// `DNSCryptEncryptionParams::shared_key` gives it; none where the set
    /// has no such member. The other members stay as they are.
    pub fn shared_key<F>(&mut self, index: usize, client_pk: [u8; 32], derive: F) -> (r: Option<
        SharedKey,
    >) where F: FnOnce([u8; 32], CryptKeyPair) -> Option<SharedKey>
        requires
            old(self).inv(),
            index < old(self).params().len() ==> derive.requires(
                (client_pk, old(self).params()[index as int].keypair()),
            ),
        ensures
            final(self).inv(),
            final(self).grace_spec() == old(self).grace_spec(),
            final(self).params().len() == old(self).params().len(),
            forall|j: int|
                0 <= j < old(self).params().len() && j != index ==> final(self).params()[j] == old(
                    self,
                ).params()[j],
            if index < old(self).params().len() {
                old(self).params()[index as int].shares(
                    final(self).params()[index as int],
                    client_pk,
                    derive,
                    r,
                )
            } else {
                r is None
            },
    {
        if index >= self.params_set.len() {
            return None;
        }
        let mut member = self.params_set.remove(index);
        let key = member.shared_key(client_pk, derive);
        self.params_set.insert(index, member);
        key
    }
}

} // verus!
