//! Addresses, flow identities and the integer codes under which the
//! tracking tables file them.

use vstd::prelude::*;

verus! {

/// An IPv4 address: its four octets in network order.
#[derive(Clone, Copy, Debug, PartialEq, Eq, Hash, Structural)]
pub struct Ipv4Address(pub u8, pub u8, pub u8, pub u8);

impl Ipv4Address {
    /// The address read as one big-endian number.
    pub open spec fn value(self) -> int {
        self.0 * 0x100_0000 + self.1 * 0x1_0000 + self.2 * 0x100 + self.3
    }

    /// The address whose octets, in network order, are `octets`.
    pub open spec fn of_octets(octets: Seq<u8>) -> Ipv4Address {
        Ipv4Address(octets[0], octets[1], octets[2], octets[3])
    }

    /// Builds the address `a.b.c.d`.
    pub fn new(a: u8, b: u8, c: u8, d: u8) -> (address: Ipv4Address)
        ensures
            address == Ipv4Address(a, b, c, d),
    {
        Ipv4Address(a, b, c, d)
    }

    /// Builds the address from its octets in network order.
    pub fn from_octets(octets: [u8; 4]) -> (address: Ipv4Address)
        ensures
            address == Ipv4Address::of_octets(octets@),
    {
        Ipv4Address(octets[0], octets[1], octets[2], octets[3])
    }

    /// The four octets in network order.
    pub fn octets(&self) -> (octets: [u8; 4])
        ensures
            Ipv4Address::of_octets(octets@) == *self,
    {
        [self.0, self.1, self.2, self.3]
    }

    /// The address as one big-endian number.
    pub fn bits(&self) -> (bits: u32)
        ensures
            bits == self.value(),
    {
        (self.0 as u32) * 0x100_0000 + (self.1 as u32) * 0x1_0000 + (self.2 as u32) * 0x100 + (
        self.3 as u32)
    }

    /// Two addresses with one value are one address.
    pub proof fn value_is_injective(a: Ipv4Address, b: Ipv4Address)
        requires
            a.value() == b.value(),
        ensures
            a == b,
    {
        lemma_digits_are_unique(
            a.0 * 0x1_0000 + a.1 * 0x100 + a.2,
            a.3 as int,
            b.0 * 0x1_0000 + b.1 * 0x100 + b.2,
            b.3 as int,
            0x100,
        );
        lemma_digits_are_unique(a.0 * 0x100 + a.1, a.2 as int, b.0 * 0x100 + b.1, b.2 as int, 0x100);
        lemma_digits_are_unique(a.0 as int, a.1 as int, b.0 as int, b.1 as int, 0x100);
    }
}

/// A point in time, in nanoseconds since the Unix epoch.
#[derive(Clone, Copy, Debug, PartialEq, Eq, Hash, Structural)]
pub struct Timestamp {
    pub nanos: u64,
}

impl Timestamp {
    /// The later of two points in time.
    pub fn latest(self, other: Timestamp) -> (later: Timestamp)
        ensures
            later == if self.nanos >= other.nanos {
                self
            } else {
                other
            },
    {
        if self.nanos >= other.nanos {
            self
        } else {
            other
        }
    }
}

/// One direction of a TCP conversation: who sends, from which port, to whom,
/// to which port. The opposite direction is a different identity.
#[derive(Clone, Copy, Debug, PartialEq, Eq, Hash, Structural)]
pub struct FlowIdentity {
    pub src: Ipv4Address,
    pub src_port: u16,
    pub dst: Ipv4Address,
    pub dst_port: u16,
}

/// A sending and a receiving host, whatever the ports.
#[derive(Clone, Copy, Debug, PartialEq, Eq, Hash, Structural)]
pub struct HostPair {
    pub src: Ipv4Address,
    pub dst: Ipv4Address,
}

/// What ICMP traffic is counted by: sender, receiver and message type.
#[derive(Clone, Copy, Debug, PartialEq, Eq, Hash, Structural)]
pub struct IcmpKey {
    pub src: Ipv4Address,
    pub dst: Ipv4Address,
    pub message_type: u8,
}

impl FlowIdentity {
    /// The host pair that this flow runs between.
    pub open spec fn pair(self) -> HostPair {
        HostPair { src: self.src, dst: self.dst }
    }

    /// The host pair that this flow runs between.
    pub fn host_pair(&self) -> (pair: HostPair)
        ensures
            pair == self.pair(),
    {
        HostPair { src: self.src, dst: self.dst }
    }
}

/// A key that a table can file under an integer code of its own.
pub trait TableKey: Copy + Sized {
    /// The code of this key.
    spec fn code(self) -> u128;

    /// Computes the code of this key.
    fn encode(&self) -> (c: u128)
        ensures
            c == self.code(),
    ;

    /// No two keys share a code.
    proof fn code_is_injective(a: Self, b: Self)
        requires
            a.code() == b.code(),
        ensures
            a == b,
    ;
}

impl TableKey for FlowIdentity {
    open spec fn code(self) -> u128 {
        (self.src.value() * 0x1_0000_0000_0000_0000 + self.src_port * 0x1_0000_0000_0000
            + self.dst.value() * 0x1_0000 + self.dst_port) as u128
    }

    fn encode(&self) -> (c: u128) {
        (self.src.bits() as u128) * 0x1_0000_0000_0000_0000 + (self.src_port as u128)
            * 0x1_0000_0000_0000 + (self.dst.bits() as u128) * 0x1_0000 + (self.dst_port as u128)
    }

    proof fn code_is_injective(a: Self, b: Self) {
        let (s, t) = (a.src.value(), b.src.value());
        let (u, v) = (a.dst.value(), b.dst.value());
        assert(0 <= s < 0x1_0000_0000 && 0 <= t < 0x1_0000_0000);
        assert(0 <= u < 0x1_0000_0000 && 0 <= v < 0x1_0000_0000);
        let upper_a = s * 0x1_0000_0000_0000 + a.src_port * 0x1_0000_0000 + u;
        let upper_b = t * 0x1_0000_0000_0000 + b.src_port * 0x1_0000_0000 + v;
        assert(a.code() == upper_a * 0x1_0000 + a.dst_port);
        assert(b.code() == upper_b * 0x1_0000 + b.dst_port);
        lemma_digits_are_unique(upper_a, a.dst_port as int, upper_b, b.dst_port as int, 0x1_0000);
        let top_a = s * 0x1_0000 + a.src_port;
        let top_b = t * 0x1_0000 + b.src_port;
        assert(upper_a == top_a * 0x1_0000_0000 + u);
        assert(upper_b == top_b * 0x1_0000_0000 + v);
        lemma_digits_are_unique(top_a, u, top_b, v, 0x1_0000_0000);
        lemma_digits_are_unique(s, a.src_port as int, t, b.src_port as int, 0x1_0000);
        Ipv4Address::value_is_injective(a.src, b.src);
        Ipv4Address::value_is_injective(a.dst, b.dst);
    }
}

impl TableKey for HostPair {
    open spec fn code(self) -> u128 {
        (self.src.value() * 0x1_0000_0000 + self.dst.value()) as u128
    }

    fn encode(&self) -> (c: u128) {
        (self.src.bits() as u128) * 0x1_0000_0000 + (self.dst.bits() as u128)
    }

    proof fn code_is_injective(a: Self, b: Self) {
        let (s, t) = (a.src.value(), b.src.value());
        let (u, v) = (a.dst.value(), b.dst.value());
        assert(0 <= s < 0x1_0000_0000 && 0 <= t < 0x1_0000_0000);
        assert(0 <= u < 0x1_0000_0000 && 0 <= v < 0x1_0000_0000);
        lemma_digits_are_unique(s, u, t, v, 0x1_0000_0000);
        Ipv4Address::value_is_injective(a.src, b.src);
        Ipv4Address::value_is_injective(a.dst, b.dst);
    }
}

impl TableKey for IcmpKey {
    open spec fn code(self) -> u128 {
        (self.src.value() * 0x100_0000_0000 + self.dst.value() * 0x100 + self.message_type) as u128
    }

    fn encode(&self) -> (c: u128) {
        (self.src.bits() as u128) * 0x100_0000_0000 + (self.dst.bits() as u128) * 0x100 + (
        self.message_type as u128)
    }

    proof fn code_is_injective(a: Self, b: Self) {
        let (s, t) = (a.src.value(), b.src.value());
        let (u, v) = (a.dst.value(), b.dst.value());
        assert(0 <= s < 0x1_0000_0000 && 0 <= t < 0x1_0000_0000);
        assert(0 <= u < 0x1_0000_0000 && 0 <= v < 0x1_0000_0000);
        let upper_a = s * 0x1_0000_0000 + u;
        let upper_b = t * 0x1_0000_0000 + v;
        assert(a.code() == upper_a * 0x100 + a.message_type);
        assert(b.code() == upper_b * 0x100 + b.message_type);
        lemma_digits_are_unique(
            upper_a,
            a.message_type as int,
            upper_b,
            b.message_type as int,
            0x100,
        );
        lemma_digits_are_unique(s, u, t, v, 0x1_0000_0000);
        Ipv4Address::value_is_injective(a.src, b.src);
        Ipv4Address::value_is_injective(a.dst, b.dst);
    }
}

/// A number written as `high * radix + low`, with `low` below `radix`, is so
/// written in one way only.
proof fn lemma_digits_are_unique(high_a: int, low_a: int, high_b: int, low_b: int, radix: int)
    requires
        0 <= low_a < radix,
        0 <= low_b < radix,
        high_a * radix + low_a == high_b * radix + low_b,
    ensures
        high_a == high_b,
        low_a == low_b,
{
    assert((high_a - high_b) * radix == high_a * radix - high_b * radix) by (nonlinear_arith);
    assert(high_a == high_b) by (nonlinear_arith)
        requires
            0 <= low_a < radix,
            0 <= low_b < radix,
            (high_a - high_b) * radix == low_b - low_a,
    {
        if high_a > high_b {
            assert((high_a - high_b) * radix >= radix);
        } else if high_a < high_b {
            assert((high_b - high_a) * radix >= radix);
            assert((high_a - high_b) * radix == -((high_b - high_a) * radix));
        }
    }
}

} // verus!
