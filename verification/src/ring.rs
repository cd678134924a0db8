//! Arithmetic on an identifier ring of `2^m` points.
//!
//! The spec functions are stated for every width `m`; [`Ring`] computes them
//! for widths whose ring size fits in a `u64`.

use vstd::prelude::*;
use vstd::arithmetic::power2::*;
use vstd::arithmetic::div_mod::*;
use vstd::arithmetic::mul::*;
use vstd::bits::*;

verus! {

/// The number of identifiers on a ring of width `m`.
pub open spec fn ring_size(m: nat) -> int {
    pow2(m) as int
}

/// Whether `x` is an identifier of the ring of width `m`.
pub open spec fn on_ring(m: nat, x: int) -> bool {
    0 <= x < ring_size(m)
}

/// The number of clockwise steps that lead from `a` to `b`.
pub open spec fn ring_distance(m: nat, a: int, b: int) -> int {
    (b - a) % ring_size(m)
}

/// Membership of `x` in the interval that starts at `a` and ends before `b`.
/// With `a == b` the interval is the whole ring. The start `a` itself is a
/// member whenever `a != b`, since its distance from `a` is zero.
pub open spec fn in_open_interval(m: nat, a: int, b: int, x: int) -> bool {
    a == b || ring_distance(m, a, x) < ring_distance(m, a, b)
}

/// The interval of [`in_open_interval`] together with its end `b`.
pub open spec fn in_half_open_interval(m: nat, a: int, b: int, x: int) -> bool {
    x == b || in_open_interval(m, a, b, x)
}

/// Whether the node `self_id`, whose predecessor is `pred_id`, is
/// responsible for `key_id`.
pub open spec fn is_owner(m: nat, self_id: int, pred_id: int, key_id: int) -> bool {
    key_id == self_id || (key_id != pred_id && in_half_open_interval(
        m,
        pred_id,
        self_id,
        key_id,
    ))
}

/// The identifier that entry `i` of the finger table of node `n` points at.
pub open spec fn finger_start(m: nat, n: int, i: nat) -> int {
    (n + pow2(i)) % ring_size(m)
}

/// The value of `bytes` read as one number, most significant byte first.
pub open spec fn be_value(bytes: Seq<u8>) -> nat
    decreases bytes.len(),
{
    if bytes.len() == 0 {
        0
    } else {
        256 * be_value(bytes.drop_last()) + bytes.last() as nat
    }
}

/// The identifier of a byte string on the ring of width `m`.
pub open spec fn id_of_bytes(m: nat, bytes: Seq<u8>) -> int {
    be_value(bytes) as int % ring_size(m)
}

/// How many points a clockwise walk from `a` visits before it stops at `b`;
/// a walk from `a` to `a` goes once round the ring.
pub open spec fn walk_length(m: nat, a: int, b: int) -> int {
    if a == b {
        ring_size(m)
    } else {
        ring_distance(m, a, b)
    }
}

/// Whether a clockwise walk from `a`, one step at a time, visits `x` before
/// it stops at `b`.
pub open spec fn reached_by_walking(m: nat, a: int, b: int, x: int) -> bool {
    exists|k: int| 0 <= k < walk_length(m, a, b) && #[trigger] ((a + k) % ring_size(m)) == x
}

pub proof fn lemma_ring_size_positive(m: nat)
    ensures
        ring_size(m) > 0,
{
    lemma_pow2_pos(m);
}

/// Distances are identifiers of the ring.
pub proof fn lemma_distance_on_ring(m: nat, a: int, b: int)
    ensures
        on_ring(m, ring_distance(m, a, b)),
{
    lemma_ring_size_positive(m);
    lemma_mod_bound(b - a, ring_size(m));
}

/// Walking `ring_distance(a, x)` steps from `a` ends at `x`.
pub proof fn lemma_walk_distance_arrives(m: nat, a: int, x: int)
    requires
        on_ring(m, x),
    ensures
        (a + ring_distance(m, a, x)) % ring_size(m) == x,
{
    let r = ring_size(m);
    lemma_ring_size_positive(m);
    lemma_add_mod_noop_right(a, x - a, r);
    lemma_small_mod(x as nat, r as nat);
}

/// A walk of `k` steps from `a`, with `k` below the ring size, ends at the
/// point whose distance from `a` is `k`.
pub proof fn lemma_distance_of_walk(m: nat, a: int, k: int)
    requires
        0 <= k < ring_size(m),
    ensures
        ring_distance(m, a, (a + k) % ring_size(m)) == k,
{
    let r = ring_size(m);
    lemma_sub_mod_noop(a + k, a, r);
    lemma_sub_mod_noop((a + k) % r, a, r);
    lemma_mod_twice(a + k, r);
    lemma_small_mod(k as nat, r as nat);
}

/// The interval predicate agrees with walking clockwise from `a`: `x` lies
/// in the interval from `a` to `b` exactly when the walk that starts at `a`
/// and stops at `b` visits `x`.
pub proof fn lemma_interval_is_clockwise_walk(m: nat, a: int, b: int, x: int)
    requires
        on_ring(m, a),
        on_ring(m, b),
        on_ring(m, x),
    ensures
        in_open_interval(m, a, b, x) == reached_by_walking(m, a, b, x),
{
    let r = ring_size(m);
    lemma_distance_on_ring(m, a, x);
    lemma_distance_on_ring(m, a, b);
    if in_open_interval(m, a, b, x) {
        // the walk of `ring_distance(a, x)` steps ends at `x`
        lemma_walk_distance_arrives(m, a, x);
    }
    if reached_by_walking(m, a, b, x) {
        let k = choose|k: int| 0 <= k < walk_length(m, a, b) && #[trigger] ((a + k) % r) == x;
        lemma_distance_of_walk(m, a, k);
    }
}

/// An interval whose two ends coincide holds every identifier.
pub proof fn lemma_degenerate_interval_is_whole_ring(m: nat, a: int, x: int)
    ensures
        in_open_interval(m, a, a, x),
        in_half_open_interval(m, a, a, x),
{
}

/// The identifiers that the node `self_id` with predecessor `pred_id` is
/// responsible for.
pub open spec fn owned_ids(m: nat, self_id: int, pred_id: int) -> Set<int> {
    Set::new(|k: int| on_ring(m, k) && is_owner(m, self_id, pred_id, k))
}

/// The identifiers that the node `self_id` with predecessor `pred_id` is
/// not responsible for.
pub open spec fn foreign_ids(m: nat, self_id: int, pred_id: int) -> Set<int> {
    Set::new(|k: int| on_ring(m, k) && !is_owner(m, self_id, pred_id, k))
}

/// Under one predecessor a node divides the ring in two: every identifier
/// is either among those it owns or among those it does not, and none is in
/// both.
pub proof fn lemma_ownership_partitions_ring(m: nat, self_id: int, pred_id: int)
    ensures
        owned_ids(m, self_id, pred_id).disjoint(foreign_ids(m, self_id, pred_id)),
        owned_ids(m, self_id, pred_id).union(foreign_ids(m, self_id, pred_id)) == Set::new(
            |k: int| on_ring(m, k),
        ),
        forall|k: int|
            on_ring(m, k) ==> (owned_ids(m, self_id, pred_id).contains(k) != foreign_ids(
                m,
                self_id,
                pred_id,
            ).contains(k)),
{
}

/// A node that is its own predecessor, as the only member of a ring is,
/// owns every key.
pub proof fn lemma_sole_member_owns_every_key(m: nat, id: int, key_id: int)
    ensures
        is_owner(m, id, id, key_id),
{
}

/// The distance from `a` to `b` is zero exactly when they are the same
/// identifier.
pub proof fn lemma_distance_zero(m: nat, a: int, b: int)
    requires
        on_ring(m, a),
        on_ring(m, b),
    ensures
        ring_distance(m, a, b) == 0 <==> a == b,
{
    lemma_walk_distance_arrives(m, a, b);
    lemma_small_mod(a as nat, ring_size(m) as nat);
    lemma_ring_size_positive(m);
    if a == b {
        lemma_small_mod(0, ring_size(m) as nat);
    }
}

/// Going from `a` to `c` by way of `b` takes as many steps as going there
/// directly, or one turn of the ring more.
pub proof fn lemma_distance_by_way_of(m: nat, a: int, b: int, c: int)
    ensures
        ring_distance(m, a, b) + ring_distance(m, b, c) == ring_distance(m, a, c) || ring_distance(
            m,
            a,
            b,
        ) + ring_distance(m, b, c) == ring_distance(m, a, c) + ring_size(m),
{
    let r = ring_size(m);
    lemma_ring_size_positive(m);
    lemma_distance_on_ring(m, a, b);
    lemma_distance_on_ring(m, b, c);
    lemma_distance_on_ring(m, a, c);
    lemma_add_mod_noop(b - a, c - b, r);
    let sum = ring_distance(m, a, b) + ring_distance(m, b, c);
    if sum < r {
        lemma_small_mod(sum as nat, r as nat);
    } else {
        lemma_mod_sub_multiples_vanish(sum, r);
        lemma_small_mod((sum - r) as nat, r as nat);
    }
}

/// Ownership as a range of distances: the node `self_id` owns the keys
/// whose distance behind it is less than that of its predecessor, and
/// every key when it is its own predecessor.
pub proof fn lemma_owner_by_distance(m: nat, self_id: int, pred_id: int, key_id: int)
    requires
        on_ring(m, self_id),
        on_ring(m, pred_id),
        on_ring(m, key_id),
    ensures
        is_owner(m, self_id, pred_id, key_id) <==> (self_id == pred_id || ring_distance(
            m,
            key_id,
            self_id,
        ) < ring_distance(m, pred_id, self_id)),
{
    lemma_distance_zero(m, key_id, self_id);
    lemma_distance_zero(m, pred_id, key_id);
    lemma_distance_zero(m, pred_id, self_id);
    lemma_distance_by_way_of(m, pred_id, key_id, self_id);
    lemma_distance_on_ring(m, pred_id, key_id);
    lemma_distance_on_ring(m, key_id, self_id);
    lemma_distance_on_ring(m, pred_id, self_id);
}

/// A join splits ownership and loses nothing. Let the node `joiner` come in
/// between `pred_id` and `self_id`. Then every key that `self_id` owned
/// before is owned afterwards by exactly one of the two, `joiner` with
/// predecessor `pred_id` and `self_id` with predecessor `joiner`; and a
/// key that `self_id` did not own is owned by neither.
pub proof fn lemma_join_splits_ownership(m: nat, pred_id: int, joiner: int, self_id: int, key_id: int)
    requires
        on_ring(m, pred_id),
        on_ring(m, joiner),
        on_ring(m, self_id),
        on_ring(m, key_id),
        joiner != pred_id,
        joiner != self_id,
        in_open_interval(m, pred_id, self_id, joiner),
    ensures
        is_owner(m, self_id, pred_id, key_id) ==> (is_owner(m, joiner, pred_id, key_id) != is_owner(
            m,
            self_id,
            joiner,
            key_id,
        )),
        !is_owner(m, self_id, pred_id, key_id) ==> !is_owner(m, joiner, pred_id, key_id)
            && !is_owner(m, self_id, joiner, key_id),
{
    lemma_owner_by_distance(m, self_id, pred_id, key_id);
    lemma_owner_by_distance(m, joiner, pred_id, key_id);
    lemma_owner_by_distance(m, self_id, joiner, key_id);
    lemma_distance_by_way_of(m, pred_id, joiner, self_id);
    lemma_distance_by_way_of(m, key_id, joiner, self_id);
    lemma_distance_by_way_of(m, pred_id, key_id, joiner);
    lemma_distance_by_way_of(m, pred_id, key_id, self_id);
    lemma_distance_by_way_of(m, joiner, key_id, self_id);
    lemma_distance_zero(m, pred_id, joiner);
    lemma_distance_zero(m, joiner, self_id);
    lemma_distance_zero(m, pred_id, self_id);
    lemma_distance_zero(m, key_id, joiner);
    lemma_distance_zero(m, key_id, self_id);
    lemma_distance_zero(m, pred_id, key_id);
    lemma_distance_zero(m, joiner, key_id);
    lemma_distance_on_ring(m, pred_id, joiner);
    lemma_distance_on_ring(m, joiner, self_id);
    lemma_distance_on_ring(m, pred_id, self_id);
    lemma_distance_on_ring(m, key_id, joiner);
    lemma_distance_on_ring(m, key_id, self_id);
    lemma_distance_on_ring(m, pred_id, key_id);
    lemma_distance_on_ring(m, joiner, key_id);
}

/// A correct successor pointer gives correct answers. Let `succ` be the
/// successor of the node `node`, and let no member lie between the two.
/// Where `target` is another identifier than `node`'s own and lies in the
/// interval from `node` to `succ`, or is `succ`, then `succ` is the first
/// member at or after `target`: no member `other` is reached from `target`
/// in fewer steps.
pub proof fn lemma_successor_is_first_after_target(
    m: nat,
    node: int,
    succ: int,
    target: int,
    other: int,
)
    requires
        on_ring(m, node),
        on_ring(m, succ),
        on_ring(m, target),
        on_ring(m, other),
        target != node,
        in_half_open_interval(m, node, succ, target),
        other == node || !in_open_interval(m, node, succ, other),
    ensures
        ring_distance(m, target, succ) <= ring_distance(m, target, other),
{
    lemma_distance_by_way_of(m, node, target, succ);
    lemma_distance_by_way_of(m, node, target, other);
    lemma_distance_by_way_of(m, target, succ, other);
    lemma_distance_zero(m, node, target);
    lemma_distance_zero(m, node, succ);
    lemma_distance_zero(m, node, other);
    lemma_distance_zero(m, target, succ);
    lemma_distance_zero(m, target, other);
    lemma_distance_on_ring(m, node, target);
    lemma_distance_on_ring(m, node, succ);
    lemma_distance_on_ring(m, node, other);
    lemma_distance_on_ring(m, target, succ);
    lemma_distance_on_ring(m, target, other);
    lemma_distance_on_ring(m, succ, other);
}

proof fn lemma_size_fits(m: nat)
    requires
        m < 64,
    ensures
        0 < ring_size(m) <= 0x8000_0000_0000_0000,
{
    lemma_pow2_pos(m);
    lemma2_to64_rest();
    if m < 63 {
        lemma_pow2_strictly_increases(m, 63);
    }
}

/// A ring whose size fits in a `u64`: its width is below 64 bits.
#[derive(Clone, Copy, Debug)]
pub struct Ring {
    bits: u32,
}

impl Ring {
    #[verifier::type_invariant]
    spec fn fits(self) -> bool {
        self.bits < 64
    }

    /// The width `m` of the ring, in bits.
    pub closed spec fn width(self) -> nat {
        self.bits as nat
    }

    /// The ring of width `bits`, where its size fits in a `u64`.
    pub fn new(bits: u32) -> (ring: Option<Ring>)
        ensures
            bits < 64 ==> ring is Some && ring->Some_0.width() == bits,
            bits >= 64 ==> ring is None,
    {
        if bits < 64 {
            Some(Ring { bits })
        } else {
            None
        }
    }

    /// The width of the ring, in bits.
    pub fn bits(&self) -> (bits: u32)
        ensures
            bits == self.width(),
            bits < 64,
    {
        proof {
            use_type_invariant(self);
        }
        self.bits
    }

    /// The number of identifiers on the ring.
    pub fn size(&self) -> (size: u64)
        ensures
            size == ring_size(self.width()),
            size > 0,
    {
        proof {
            use_type_invariant(self);
            lemma_u64_pow2_no_overflow(self.bits as nat);
            lemma_u64_shl_is_mul(1, self.bits as u64);
        }
        1u64 << self.bits
    }

    /// The identifier that `x` stands for on this ring.
    pub fn reduce(&self, x: u64) -> (id: u64)
        ensures
            id == x as int % ring_size(self.width()),
            on_ring(self.width(), id as int),
    {
        let size: u64 = self.size();
        proof {
            lemma_mod_bound(x as int, size as int);
        }
        x % size
    }

    /// The number of clockwise steps that lead from `a` to `b`.
    pub fn distance(&self, a: u64, b: u64) -> (d: u64)
        ensures
            d == ring_distance(self.width(), a as int, b as int),
            on_ring(self.width(), d as int),
    {
        let size: u64 = self.size();
        let from: u64 = a % size;
        let to: u64 = b % size;
        proof {
            use_type_invariant(self);
            lemma_size_fits(self.bits as nat);
            let r = size as int;
            lemma_mod_bound(a as int, r);
            lemma_mod_bound(b as int, r);
            lemma_sub_mod_noop(b as int, a as int, r);
            lemma_mod_add_multiples_vanish(to - from, r);
            lemma_distance_on_ring(self.width(), a as int, b as int);
        }
        (to + size - from) % size
    }

    /// Whether `x` lies in the interval from `a` to `b`.
    pub fn in_open_interval(&self, a: u64, b: u64, x: u64) -> (inside: bool)
        ensures
            inside == in_open_interval(self.width(), a as int, b as int, x as int),
    {
        a == b || self.distance(a, x) < self.distance(a, b)
    }

    /// Whether `x` lies in the interval from `a` to `b`, or is `b`.
    pub fn in_half_open_interval(&self, a: u64, b: u64, x: u64) -> (inside: bool)
        ensures
            inside == in_half_open_interval(self.width(), a as int, b as int, x as int),
    {
        x == b || self.in_open_interval(a, b, x)
    }

    /// Whether the node `self_id`, whose predecessor is `pred_id`, is
    /// responsible for `key_id`.
    pub fn is_owner(&self, self_id: u64, pred_id: u64, key_id: u64) -> (owner: bool)
        ensures
            owner == is_owner(self.width(), self_id as int, pred_id as int, key_id as int),
    {
        key_id == self_id || (key_id != pred_id && self.in_half_open_interval(
            pred_id,
            self_id,
            key_id,
        ))
    }

    /// The identifier that entry `i` of the finger table of node `n` points
    /// at: `n + 2^i`, taken on the ring.
    pub fn finger_start(&self, n: u64, i: usize) -> (start: u64)
        ensures
            start == finger_start(self.width(), n as int, i as nat),
            on_ring(self.width(), start as int),
    {
        let size: u64 = self.size();
        let base: u64 = n % size;
        proof {
            use_type_invariant(self);
            lemma_size_fits(self.bits as nat);
            lemma_mod_bound(n as int, size as int);
            lemma_mod_bound(n + pow2(i as nat), size as int);
        }
        if i < self.bits as usize {
            let step: u64 = 1u64 << (i as u32);
            proof {
                lemma_u64_pow2_no_overflow(i as nat);
                lemma_u64_shl_is_mul(1, i as u64);
                lemma_pow2_strictly_increases(i as nat, self.bits as nat);
                lemma_add_mod_noop(n as int, pow2(i as nat) as int, size as int);
                lemma_small_mod(step as nat, size as nat);
            }
            (base + step) % size
        } else {
            proof {
                let extra = (i - self.bits) as nat;
                lemma_pow2_adds(extra, self.bits as nat);
                lemma_mod_multiples_basic(pow2(extra) as int, size as int);
                lemma_add_mod_noop(n as int, pow2(i as nat) as int, size as int);
                lemma_mod_twice(n as int, size as int);
            }
            base
        }
    }

    /// The identifier of a byte string: its bytes read as one number, most
    /// significant byte first, taken on the ring.
    pub fn id_of_bytes(&self, bytes: &[u8]) -> (id: u64)
        ensures
            id == id_of_bytes(self.width(), bytes@),
            on_ring(self.width(), id as int),
    {
        let size: u64 = self.size();
        let mut acc: u64 = 0;
        let mut i: usize = 0;
        proof {
            use_type_invariant(self);
            lemma_size_fits(self.bits as nat);
            lemma_small_mod(0, size as nat);
        }
        while i < bytes.len()
            invariant
                i <= bytes.len(),
                size == ring_size(self.width()),
                0 < size <= 0x8000_0000_0000_0000,
                acc == id_of_bytes(self.width(), bytes@.subrange(0, i as int)),
                acc < size,
            decreases bytes.len() - i,
        {
            let byte: u64 = bytes[i] as u64;
            proof {
                let r = size as int;
                let prefix = bytes@.subrange(0, i as int);
                let next = bytes@.subrange(0, i + 1);
                assert(next.drop_last() =~= prefix);
                let v = be_value(prefix) as int;
                lemma_mul_mod_noop_right(256, v, r);
                lemma_add_mod_noop(256 * v, byte as int, r);
                lemma_add_mod_noop(256 * (acc as int), byte as int, r);
            }
            let wide: u128 = (acc as u128) * 256 + (byte as u128);
            acc = (wide % (size as u128)) as u64;
            i = i + 1;
        }
        proof {
            assert(bytes@.subrange(0, bytes.len() as int) =~= bytes@);
        }
        acc
    }
}

} // verus!
