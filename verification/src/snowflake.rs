//! The identifier codec: the timestamp, node-id and sequence fields,
//! and their packing into one 64-bit snowflake value.
//!
//! Field widths are fixed for the whole deployment: 41 bits of
//! timestamp (milliseconds since the configured epoch), 10 bits of
//! node id, 12 bits of sequence, packed as
//! `timestamp << 22 | node_id << 12 | sequence`.

use vstd::prelude::*;

verus! {

/// Exclusive upper bound of a node id: 2^10.
pub const MAX_NODE_ID: u16 = 1024;

/// Exclusive upper bound of a sequence counter: 2^12.
pub const MAX_SEQUENCE: u16 = 4096;

/// Exclusive upper bound of a timestamp in milliseconds: 2^41.
pub const MAX_TIMESTAMP_MS: i64 = 0x200_0000_0000;

/// A node id was outside `[0, MAX_NODE_ID)`, or an assignment of node
/// ids held the same id twice.
#[derive(Clone, Copy, PartialEq, Eq, Structural, Debug)]
pub struct NodeIdError;

/// The identity of one shard, in `[0, MAX_NODE_ID)`.
#[derive(Clone, Copy, PartialEq, Eq, Structural, Debug)]
pub struct NodeId(u16);

impl NodeId {
    /// The id as a plain integer.
    pub closed spec fn val(self) -> int {
        self.0 as int
    }

    #[verifier::type_invariant]
    pub open spec fn type_inv(self) -> bool {
        0 <= self.val() < MAX_NODE_ID
    }

    /// Accepts exactly the ids inside the 10-bit range.
    pub fn new(node_id: u16) -> (r: Result<Self, NodeIdError>)
        ensures
            r matches Ok(n) ==> n.val() == node_id,
            r is Ok <==> node_id < MAX_NODE_ID,
    {
        if node_id >= MAX_NODE_ID {
            Err(NodeIdError)
        } else {
            Ok(Self(node_id))
        }
    }

    /// The id as an executable value.
    pub fn value(&self) -> (r: u16)
        ensures
            r == self.val(),
            r < MAX_NODE_ID,
    {
        proof {
            use_type_invariant(self);
        }
        self.0
    }
}

/// A millisecond count was outside `[0, MAX_TIMESTAMP_MS)`.
#[derive(Clone, Copy, PartialEq, Eq, Structural, Debug)]
pub struct TimestampError;

/// Milliseconds elapsed since the configured epoch, in
/// `[0, MAX_TIMESTAMP_MS)`.
#[derive(Clone, Copy, PartialEq, Eq, Structural, Debug)]
pub struct Timestamp {
    ms: i64,
}

impl Timestamp {
    /// The milliseconds as a plain integer.
    pub closed spec fn ms_val(self) -> int {
        self.ms as int
    }

    #[verifier::type_invariant]
    pub open spec fn type_inv(self) -> bool {
        0 <= self.ms_val() < MAX_TIMESTAMP_MS
    }

    /// Accepts exactly the counts inside the 41-bit range; a negative
    /// count (a clock before the epoch) is rejected like an overflowing
    /// one.
    pub fn new(ms: i64) -> (r: Result<Self, TimestampError>)
        ensures
            r matches Ok(t) ==> t.ms_val() == ms,
            r is Ok <==> 0 <= ms < MAX_TIMESTAMP_MS,
    {
        if ms < 0 || ms >= MAX_TIMESTAMP_MS {
            Err(TimestampError)
        } else {
            Ok(Self::new_unchecked(ms))
        }
    }

    /// Wraps a count already known to be in range.
    pub fn new_unchecked(ms: i64) -> (r: Self)
        requires
            0 <= ms < MAX_TIMESTAMP_MS,
        ensures
            r.ms_val() == ms,
    {
        Self { ms }
    }

    /// The milliseconds as an executable value.
    pub fn millis(&self) -> (r: i64)
        ensures
            r == self.ms_val(),
            0 <= r < MAX_TIMESTAMP_MS,
    {
        proof {
            use_type_invariant(self);
        }
        self.ms
    }
}

impl Default for Timestamp {
    /// The zero point of the epoch-relative time line.
    fn default() -> (r: Self)
        ensures
            r.ms_val() == 0,
    {
        Self::new_unchecked(0)
    }
}

/// A sequence value was outside `[0, MAX_SEQUENCE)`: within one
/// millisecond the sequence space is exhausted.
#[derive(Clone, Copy, PartialEq, Eq, Structural, Debug)]
pub struct CounterError;

/// The per-millisecond sequence counter, in `[0, MAX_SEQUENCE)`.
#[derive(Clone, Copy, PartialEq, Eq, Structural, Debug)]
pub struct Counter(u16);

impl Counter {
    /// The counter as a plain integer.
    pub closed spec fn val(self) -> int {
        self.0 as int
    }

    #[verifier::type_invariant]
    pub open spec fn type_inv(self) -> bool {
        0 <= self.val() < MAX_SEQUENCE
    }

    /// Accepts exactly the values inside the 12-bit range.
    pub fn new(counter: u16) -> (r: Result<Self, CounterError>)
        ensures
            r matches Ok(c) ==> c.val() == counter,
            r is Ok <==> counter < MAX_SEQUENCE,
    {
        if counter >= MAX_SEQUENCE {
            Err(CounterError)
        } else {
            Ok(Self::new_unchecked(counter))
        }
    }

    /// Wraps a value already known to be in range.
    pub fn new_unchecked(counter: u16) -> (r: Self)
        requires
            counter < MAX_SEQUENCE,
        ensures
            r.val() == counter,
    {
        Self(counter)
    }

    /// Steps the counter by one; fails, leaving the counter unchanged,
    /// exactly when the next value would leave the 12-bit range.
    pub fn increment(&mut self) -> (r: Result<(), CounterError>)
        ensures
            r is Ok <==> old(self).val() + 1 < MAX_SEQUENCE,
            r is Ok ==> final(self).val() == old(self).val() + 1,
            r is Err ==> *final(self) == *old(self),
    {
        proof {
            use_type_invariant(&*self);
        }
        match Self::new(self.0 + 1) {
            Ok(next) => {
                *self = next;
                Ok(())
            }
            Err(e) => Err(e),
        }
    }

    /// Returns the counter to 0, for the first identifier of a new
    /// millisecond.
    pub fn reset(&mut self)
        ensures
            final(self).val() == 0,
    {
        *self = Self(0);
    }

    /// The counter as an executable value.
    pub fn value(&self) -> (r: u16)
        ensures
            r == self.val(),
            r < MAX_SEQUENCE,
    {
        proof {
            use_type_invariant(self);
        }
        self.0
    }
}

impl Default for Counter {
    /// The first sequence value of a millisecond.
    fn default() -> (r: Self)
        ensures
            r.val() == 0,
    {
        Self::new_unchecked(0)
    }
}

/// The packed value of a (timestamp, node id, sequence) triple:
/// the timestamp in the top 41 bits, the node id in the next 10, the
/// sequence in the low 12.
pub open spec fn pack_spec(t: int, n: int, s: int) -> int {
    t * 0x40_0000 + n * 0x1000 + s
}

/// The timestamp field of a packed value.
pub open spec fn unpack_timestamp(id: int) -> int {
    id / 0x40_0000
}

/// The node-id field of a packed value.
pub open spec fn unpack_node_id(id: int) -> int {
    (id / 0x1000) % 0x400
}

/// The sequence field of a packed value.
pub open spec fn unpack_sequence(id: int) -> int {
    id % 0x1000
}

/// The packed 64-bit identifier produced by a node.
#[derive(Clone, Copy, PartialEq, Eq, Structural, Debug)]
pub struct Snowflake {
    pub id: i64,
}

impl Snowflake {
    /// Packs the three fields; total on validated fields, and exact.
    pub fn new(timestamp: Timestamp, node_id: NodeId, counter: Counter) -> (r: Self)
        ensures
            r.id == pack_spec(timestamp.ms_val(), node_id.val(), counter.val()),
            0 <= r.id,
    {
        proof {
            use_type_invariant(&timestamp);
            use_type_invariant(&node_id);
            use_type_invariant(&counter);
        }
        let t: u64 = timestamp.ms as u64;
        let n: u64 = node_id.0 as u64;
        let s: u64 = counter.0 as u64;
        let packed: u64 = (t << 22) | (n << 12) | s;
        proof {
            lemma_pack_bits(t, n, s);
        }
        Self { id: packed as i64 }
    }

    /// The timestamp field of this identifier.
    pub fn timestamp(self) -> (r: Timestamp)
        requires
            0 <= self.id,
        ensures
            r.ms_val() == unpack_timestamp(self.id as int),
    {
        let bits: u64 = self.id as u64;
        let t: u64 = bits >> 22;
        proof {
            assert(bits == self.id);
            assert(t == bits / 0x40_0000 && t < 0x200_0000_0000) by (bit_vector)
                requires t == bits >> 22 && bits < 0x8000_0000_0000_0000;
        }
        Timestamp::new_unchecked(t as i64)
    }

    /// The node-id field of this identifier.
    pub fn node_id(self) -> (r: NodeId)
        requires
            0 <= self.id,
        ensures
            r.val() == unpack_node_id(self.id as int),
    {
        let bits: u64 = self.id as u64;
        let n: u64 = (bits >> 12) & 0x3FF;
        proof {
            assert(n == (bits / 0x1000) % 0x400 && n < 0x400) by (bit_vector)
                requires n == (bits >> 12) & 0x3FF;
        }
        NodeId(n as u16)
    }

    /// The sequence field of this identifier.
    pub fn counter(self) -> (r: Counter)
        requires
            0 <= self.id,
        ensures
            r.val() == unpack_sequence(self.id as int),
    {
        let bits: u64 = self.id as u64;
        let s: u64 = bits & 0xFFF;
        proof {
            assert(s == bits % 0x1000 && s < 0x1000) by (bit_vector)
                requires s == bits & 0xFFF;
        }
        Counter(s as u16)
    }
}

/// The shift-and-or packing of in-range fields equals their
/// arithmetic packing, and stays below 2^63.
proof fn lemma_pack_bits(t: u64, n: u64, s: u64)
    requires
        t < 0x200_0000_0000,
        n < 0x400,
        s < 0x1000,
    ensures
        ((t << 22) | (n << 12) | s) == t * 0x40_0000 + n * 0x1000 + s,
        t * 0x40_0000 + n * 0x1000 + s < 0x8000_0000_0000_0000,
{
    assert(((t << 22) | (n << 12) | s) == t * 0x40_0000 + n * 0x1000 + s
        && t * 0x40_0000 + n * 0x1000 + s < 0x8000_0000_0000_0000) by (bit_vector)
        requires t < 0x200_0000_0000 && n < 0x400 && s < 0x1000;
}

/// Law: unpacking a packed value returns exactly the three fields
/// that produced it, for every triple inside the field widths.
pub proof fn lemma_pack_unpack(t: int, n: int, s: int)
    requires
        0 <= t < MAX_TIMESTAMP_MS,
        0 <= n < MAX_NODE_ID,
        0 <= s < MAX_SEQUENCE,
    ensures
        unpack_timestamp(pack_spec(t, n, s)) == t,
        unpack_node_id(pack_spec(t, n, s)) == n,
        unpack_sequence(pack_spec(t, n, s)) == s,
        0 <= pack_spec(t, n, s) < 0x8000_0000_0000_0000,
{
    let tu = t as u64;
    let nu = n as u64;
    let su = s as u64;
    assert((tu * 0x40_0000 + nu * 0x1000 + su) / 0x40_0000 == tu
        && ((tu * 0x40_0000 + nu * 0x1000 + su) / 0x1000) % 0x400 == nu
        && (tu * 0x40_0000 + nu * 0x1000 + su) % 0x1000 == su
        && tu * 0x40_0000 + nu * 0x1000 + su < 0x8000_0000_0000_0000) by (bit_vector)
        requires tu < 0x200_0000_0000 && nu < 0x400 && su < 0x1000;
}

/// Law: for one node, the packed value strictly increases whenever
/// the (timestamp, sequence) pair strictly increases
/// lexicographically.
pub proof fn lemma_pack_increases(t1: int, n: int, s1: int, t2: int, s2: int)
    requires
        0 <= t1 < MAX_TIMESTAMP_MS,
        0 <= n < MAX_NODE_ID,
        0 <= s1 < MAX_SEQUENCE,
        0 <= t2 < MAX_TIMESTAMP_MS,
        0 <= s2 < MAX_SEQUENCE,
        t1 < t2 || (t1 == t2 && s1 < s2),
    ensures
        pack_spec(t1, n, s1) < pack_spec(t2, n, s2),
{
}

/// Law: packing is injective on triples inside the field widths, so
/// distinct (timestamp, node id, sequence) triples never collide.
pub proof fn lemma_pack_injective(t1: int, n1: int, s1: int, t2: int, n2: int, s2: int)
    requires
        0 <= t1 < MAX_TIMESTAMP_MS,
        0 <= n1 < MAX_NODE_ID,
        0 <= s1 < MAX_SEQUENCE,
        0 <= t2 < MAX_TIMESTAMP_MS,
        0 <= n2 < MAX_NODE_ID,
        0 <= s2 < MAX_SEQUENCE,
        pack_spec(t1, n1, s1) == pack_spec(t2, n2, s2),
    ensures
        t1 == t2 && n1 == n2 && s1 == s2,
{
    lemma_pack_unpack(t1, n1, s1);
    lemma_pack_unpack(t2, n2, s2);
}

} // verus!
