//! Anonymized DNS: relay framing and the rules on where a relay forwards.

use crate::dns::base::{ANONYMIZED_DNS_CRYPT_OVERHEAD, ANONYMIZED_DNS_CRYPT_QUERY_MAGIC};
use crate::dns::crypt::{check_query_size, query_max_size, query_min_size, Transport};
use crate::dns::wire::{array_at, be16, bytes_match, read_be16};
use vstd::prelude::*;

verus! {

/// Length of the relay magic.
pub const ANONYMIZED_DNS_CRYPT_MAGIC_SIZE: usize = 10;

/// Offset of the inner query in a relay packet: magic, address and port.
pub const ANONYMIZED_DNS_CRYPT_HEADER_SIZE: usize = ANONYMIZED_DNS_CRYPT_MAGIC_SIZE
    + ANONYMIZED_DNS_CRYPT_OVERHEAD;

/// Ports from here on are not reserved.
pub const FIRST_NON_RESERVED_PORT: u16 = 1024;

/// Whether a packet starts with the relay magic: eight `0xff` bytes and two
/// zero bytes.
pub open spec fn has_relay_magic(b: Seq<u8>) -> bool {
    b.len() >= ANONYMIZED_DNS_CRYPT_MAGIC_SIZE && b.subrange(0, 10)
        == ANONYMIZED_DNS_CRYPT_QUERY_MAGIC@
}

/// Whether a packet is an anonymized-relay packet rather than a direct
/// DNSCrypt query.
pub fn is_anonymized_query(packet: &[u8]) -> (r: bool)
    ensures
        r == has_relay_magic(packet@),
{
    packet.len() >= ANONYMIZED_DNS_CRYPT_MAGIC_SIZE && bytes_match(
        packet,
        0,
        ANONYMIZED_DNS_CRYPT_QUERY_MAGIC.as_slice(),
    )
}

/// A packet that starts with the relay magic stops being a relay packet when
/// any one bit of those ten bytes is flipped.
pub proof fn lemma_magic_bit_flip(packet: Seq<u8>, byte: int, bit: u8)
    requires
        has_relay_magic(packet),
        0 <= byte < ANONYMIZED_DNS_CRYPT_MAGIC_SIZE,
        bit < 8,
    ensures
        !has_relay_magic(packet.update(byte, packet[byte] ^ (1u8 << bit))),
{
    let x = packet[byte];
    let y = x ^ (1u8 << bit);
    assert(x ^ (1u8 << bit) != x) by (bit_vector)
        requires
            bit < 8,
    ;
    let flipped = packet.update(byte, y);
    assert(packet.subrange(0, 10)[byte] == x);
    assert(flipped.subrange(0, 10)[byte] == y);
}

/// Whether the 16 address bytes hold an IPv4 address mapped into IPv6.
pub open spec fn is_v4_mapped(ip: Seq<u8>) -> bool {
    &&& forall|i: int| 0 <= i < 10 ==> ip[i] == 0u8
    &&& ip[10] == 0xffu8
    &&& ip[11] == 0xffu8
}

/// Whether the address is a loopback address: `127.0.0.0/8` or `::1`.
pub open spec fn is_loopback(ip: Seq<u8>) -> bool {
    if is_v4_mapped(ip) {
        ip[12] == 127u8
    } else {
        (forall|i: int| 0 <= i < 15 ==> ip[i] == 0u8) && ip[15] == 1u8
    }
}

/// Whether the address is link-local: `169.254.0.0/16` or `fe80::/10`.
pub open spec fn is_link_local(ip: Seq<u8>) -> bool {
    if is_v4_mapped(ip) {
        ip[12] == 169u8 && ip[13] == 254u8
    } else {
        ip[0] == 0xfeu8 && ip[1] & 0xc0u8 == 0x80u8
    }
}

/// Whether the address is a multicast address: `224.0.0.0/4` or `ff00::/8`.
pub open spec fn is_multicast(ip: Seq<u8>) -> bool {
    if is_v4_mapped(ip) {
        224u8 <= ip[12] <= 239u8
    } else {
        ip[0] == 0xffu8
    }
}

/// Where a relay may forward, as configured.
#[derive(Debug, Clone)]
pub struct RelayPolicy {
    pub allowed_ports: Vec<u16>,
    pub allow_non_reserved_ports: bool,
    pub blacklisted_ips: Vec<[u8; 16]>,
}

impl RelayPolicy {
    /// Whether `port` is one a relay forwards to: a listed port, or, where
    /// non-reserved ports are let through, any port from 1024 on.
    pub open spec fn permits_port(&self, port: u16) -> bool {
        self.allowed_ports@.contains(port) || (self.allow_non_reserved_ports && port
            >= FIRST_NON_RESERVED_PORT)
    }

    /// Whether `ip` is on the blacklist.
    pub open spec fn blacklists(&self, ip: Seq<u8>) -> bool {
        exists|i: int|
            0 <= i < self.blacklisted_ips@.len() && (#[trigger] self.blacklisted_ips@[i])@ == ip
    }

    /// Whether `ip` is an address a relay forwards to: not blacklisted, and
    /// neither loopback, link-local nor multicast.
    pub open spec fn permits_ip(&self, ip: Seq<u8>) -> bool {
        !self.blacklists(ip) && !is_loopback(ip) && !is_link_local(ip) && !is_multicast(ip)
    }

    /// Decides `permits_port`.
    pub fn port_allowed(&self, port: u16) -> (r: bool)
        ensures
            r == self.permits_port(port),
    {
        if self.allow_non_reserved_ports && port >= FIRST_NON_RESERVED_PORT {
            return true;
        }
        let n = self.allowed_ports.len();
        let mut i: usize = 0;
        while i < n
            invariant
                i <= n,
                n == self.allowed_ports@.len(),
                forall|j: int| 0 <= j < i ==> self.allowed_ports@[j] != port,
            decreases n - i,
        {
            if self.allowed_ports[i] == port {
                return true;
            }
            i += 1;
        }
        false
    }

    /// Decides `blacklists`.
    pub fn is_blacklisted(&self, ip: &[u8; 16]) -> (r: bool)
        ensures
            r == self.blacklists(ip@),
    {
        let n = self.blacklisted_ips.len();
        let mut i: usize = 0;
        while i < n
            invariant
                i <= n,
                n == self.blacklisted_ips@.len(),
                forall|j: int| 0 <= j < i ==> (#[trigger] self.blacklisted_ips@[j])@ != ip@,
            decreases n - i,
        {
            assert(ip@.subrange(0, 16) =~= ip@);
            if bytes_match(ip.as_slice(), 0, self.blacklisted_ips[i].as_slice()) {
                return true;
            }
            i += 1;
        }
        false
    }

    /// Decides `permits_ip`.
    pub fn ip_allowed(&self, ip: &[u8; 16]) -> (r: bool)
        ensures
            r == self.permits_ip(ip@),
    {
        !self.is_blacklisted(ip) && !address_is_loopback(ip) && !address_is_link_local(ip)
            && !address_is_multicast(ip)
    }
}

/// Decides `is_v4_mapped`.
pub fn address_is_v4_mapped(ip: &[u8; 16]) -> (r: bool)
    ensures
        r == is_v4_mapped(ip@),
{
    let mut i: usize = 0;
    while i < 10
        invariant
            i <= 10,
            forall|j: int| 0 <= j < i ==> ip@[j] == 0u8,
        decreases 10 - i,
    {
        if ip[i] != 0 {
            assert(ip@[i as int] != 0u8);
            return false;
        }
        i += 1;
    }
    ip[10] == 0xff && ip[11] == 0xff
}

/// Decides `is_loopback`.
pub fn address_is_loopback(ip: &[u8; 16]) -> (r: bool)
    ensures
        r == is_loopback(ip@),
{
    if address_is_v4_mapped(ip) {
        return ip[12] == 127;
    }
    let mut i: usize = 0;
    while i < 15
        invariant
            i <= 15,
            !is_v4_mapped(ip@),
            forall|j: int| 0 <= j < i ==> ip@[j] == 0u8,
        decreases 15 - i,
    {
        if ip[i] != 0 {
            assert(ip@[i as int] != 0u8);
            return false;
        }
        i += 1;
    }
    ip[15] == 1
}

/// Decides `is_link_local`.
pub fn address_is_link_local(ip: &[u8; 16]) -> (r: bool)
    ensures
        r == is_link_local(ip@),
{
    if address_is_v4_mapped(ip) {
        ip[12] == 169 && ip[13] == 254
    } else {
        ip[0] == 0xfe && ip[1] & 0xc0 == 0x80
    }
}

/// Decides `is_multicast`.
pub fn address_is_multicast(ip: &[u8; 16]) -> (r: bool)
    ensures
        r == is_multicast(ip@),
{
    if address_is_v4_mapped(ip) {
        224 <= ip[12] && ip[12] <= 239
    } else {
        ip[0] == 0xff
    }
}

/// Why a relay packet is dropped.
#[derive(Debug, Copy, Clone, PartialEq, Eq, Structural)]
pub enum RelayError {
    /// The packet does not start with the relay magic.
    NoMagic,
    /// The inner query is shorter than the transport's smallest query.
    TooShort,
    /// The inner query is longer than the transport's largest query.
    TooLong,
    /// The destination port is not one the relay forwards to.
    PortNotAllowed,
    /// The destination address is not one the relay forwards to.
    AddressNotAllowed,
}

/// Where a relay packet asks to be forwarded, and what to forward.
pub struct RelayTargetView {
    pub ip: Seq<u8>,
    pub port: u16,
    pub query: Seq<u8>,
}

/// Where a relay packet asks to be forwarded, and the inner query, which is
/// forwarded as it came.
#[derive(Debug, Clone)]
pub struct RelayTarget {
    pub ip: [u8; 16],
    pub port: u16,
    pub query: Vec<u8>,
}

impl View for RelayTarget {
    type V = RelayTargetView;

    open spec fn view(&self) -> RelayTargetView {
        RelayTargetView { ip: self.ip@, port: self.port, query: self.query@ }
    }
}

/// What a relay does with a packet on `t` under `policy`: the target it
/// forwards the inner query to, or the reason the packet is dropped. The
/// magic is looked at first, then the size of the inner query, then the
/// port, then the address.
pub open spec fn relay_decision(
    b: Seq<u8>,
    policy: &RelayPolicy,
    t: Transport,
) -> Result<RelayTargetView, RelayError> {
    let port = be16(b.subrange(26, 28)) as u16;
    let ip = b.subrange(10, 26);
    if !has_relay_magic(b) {
        Err(RelayError::NoMagic)
    } else if b.len() < ANONYMIZED_DNS_CRYPT_HEADER_SIZE + query_min_size(t) {
        Err(RelayError::TooShort)
    } else if b.len() > ANONYMIZED_DNS_CRYPT_HEADER_SIZE + query_max_size(t) {
        Err(RelayError::TooLong)
    } else if !policy.permits_port(port) {
        Err(RelayError::PortNotAllowed)
    } else if !policy.permits_ip(ip) {
        Err(RelayError::AddressNotAllowed)
    } else {
        Ok(RelayTargetView { ip, port, query: b.subrange(28, b.len() as int) })
    }
}

/// Wraps a query for a relay: the magic, the destination and the query.
pub open spec fn relay_framed(ip: Seq<u8>, port: u16, query: Seq<u8>) -> Seq<u8> {
    ANONYMIZED_DNS_CRYPT_QUERY_MAGIC@ + ip + crate::dns::wire::u16_be(port) + query
}

/// A relay forwards a wrapped query of acceptable size to a permitted
/// destination exactly as it was wrapped.
pub proof fn lemma_relay_forwards_verbatim(
    ip: Seq<u8>,
    port: u16,
    query: Seq<u8>,
    policy: &RelayPolicy,
    t: Transport,
)
    requires
        ip.len() == 16,
        query_min_size(t) <= query.len() <= query_max_size(t),
        policy.permits_port(port),
        policy.permits_ip(ip),
    ensures
        relay_decision(relay_framed(ip, port, query), policy, t) == Ok::<
            RelayTargetView,
            RelayError,
        >(RelayTargetView { ip, port, query }),
{
    let b = relay_framed(ip, port, query);
    assert(b.subrange(0, 10) =~= ANONYMIZED_DNS_CRYPT_QUERY_MAGIC@);
    assert(b.subrange(10, 26) =~= ip);
    assert(b.subrange(26, 28) =~= crate::dns::wire::u16_be(port));
    assert(b.subrange(28, b.len() as int) =~= query);
    crate::dns::wire::lemma_be16_round_trip(port, seq![0u8, 0u8]);
}

/// Decides what a relay does with `packet`.
pub fn unwrap_relay_query(packet: &[u8], policy: &RelayPolicy, t: Transport) -> (r: Result<
    RelayTarget,
    RelayError,
>)
    ensures
        match r {
            Ok(target) => relay_decision(packet@, policy, t) == Ok::<RelayTargetView, RelayError>(
                target@,
            ),
            Err(e) => relay_decision(packet@, policy, t) == Err::<RelayTargetView, RelayError>(e),
        },
{
    if !is_anonymized_query(packet) {
        return Err(RelayError::NoMagic);
    }
    if packet.len() < ANONYMIZED_DNS_CRYPT_HEADER_SIZE {
        return Err(RelayError::TooShort);
    }
    match check_query_size(packet.len() - ANONYMIZED_DNS_CRYPT_HEADER_SIZE, t) {
        Err(crate::dns::crypt::CodecError::TooShort) => { return Err(RelayError::TooShort); },
        Err(_) => { return Err(RelayError::TooLong); },
        Ok(()) => {},
    }
    let port = read_be16(vstd::slice::slice_subrange(packet, 26, 28));
    if !policy.port_allowed(port) {
        return Err(RelayError::PortNotAllowed);
    }
    let ip = array_at::<16>(packet, 10);
    if !policy.ip_allowed(&ip) {
        return Err(RelayError::AddressNotAllowed);
    }
    let query = vstd::slice::slice_to_vec(
        vstd::slice::slice_subrange(packet, ANONYMIZED_DNS_CRYPT_HEADER_SIZE, packet.len()),
    );
    Ok(RelayTarget { ip, port, query })
}

} // verus!
