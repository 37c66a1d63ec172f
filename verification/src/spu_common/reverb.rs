//! Register-free circular-address arithmetic used by sound RAM effects.

use vstd::prelude::*;

verus! {

/// Circular byte address constrained to a caller-supplied effects area.
#[derive(Clone, Copy, Debug, PartialEq, Eq, Structural)]
pub struct RingBufferAddress {
    pub base: usize,
    pub length: usize,
    pub position: usize,
}

proof fn lemma_wrap(position: int, distance: int, offset: int, length: int)
    requires
        0 <= position < length,
        0 <= distance < length,
        offset >= 0 ==> distance == offset % length,
        offset < 0 ==> distance == (-offset) % length,
    ensures
        offset >= 0 ==> (position + offset) % length == if distance >= length - position {
            distance - (length - position)
        } else {
            position + distance
        },
        offset < 0 ==> (position + offset) % length == if distance > position {
            length - (distance - position)
        } else {
            position - distance
        },
{
    if offset >= 0 {
        let quotient = offset / length;
        vstd::arithmetic::div_mod::lemma_fundamental_div_mod(offset, length);
        if distance >= length - position {
            let rest = distance - (length - position);
            assert(position + offset == length * (quotient + 1) + rest) by (nonlinear_arith)
                requires
                    offset == length * quotient + distance,
                    rest == distance - (length - position),
            ;
            vstd::arithmetic::div_mod::lemma_fundamental_div_mod_converse(
                position + offset,
                length,
                quotient + 1,
                rest,
            );
        } else {
            assert(position + offset == length * quotient + (position + distance));
            vstd::arithmetic::div_mod::lemma_fundamental_div_mod_converse(
                position + offset,
                length,
                quotient,
                position + distance,
            );
        }
    } else {
        let quotient = (-offset) / length;
        vstd::arithmetic::div_mod::lemma_fundamental_div_mod(-offset, length);
        if distance > position {
            let rest = length - (distance - position);
            assert(position + offset == length * (-quotient - 1) + rest) by (nonlinear_arith)
                requires
                    -offset == length * quotient + distance,
                    rest == length - (distance - position),
            ;
            vstd::arithmetic::div_mod::lemma_fundamental_div_mod_converse(
                position + offset,
                length,
                -quotient - 1,
                rest,
            );
        } else {
            assert(position + offset == length * (-quotient) + (position - distance))
                by (nonlinear_arith)
                requires
                    -offset == length * quotient + distance,
            ;
            vstd::arithmetic::div_mod::lemma_fundamental_div_mod_converse(
                position + offset,
                length,
                -quotient,
                position - distance,
            );
        }
    }
}

impl RingBufferAddress {
    /// The position lies inside the nonempty ring.
    pub open spec fn wf(self) -> bool {
        self.position < self.length
    }

    /// Constructs an address when the ring length is nonzero.
    pub fn new(base: usize, length: usize) -> (result: Option<Self>)
        ensures
            result == if length == 0 {
                None
            } else {
                Some(RingBufferAddress { base, length, position: 0 })
            },
    {
        if length == 0 {
            return None;
        }
        Some(Self { base, length, position: 0 })
    }

    /// Returns the current absolute byte address.
    pub fn get(self) -> (result: Option<usize>)
        ensures
            result == if self.base + self.position <= usize::MAX {
                Some((self.base + self.position) as usize)
            } else {
                None
            },
    {
        self.base.checked_add(self.position)
    }

    /// The address moved by a signed offset with Euclidean wrap.
    pub open spec fn advanced(self, offset: int) -> RingBufferAddress {
        RingBufferAddress {
            position: ((self.position + offset) % (self.length as int)) as usize,
            ..self
        }
    }

    /// Advances by a signed relative offset with deterministic Euclidean wrap.
    pub fn advance(&mut self, offset: i64)
        requires
            old(self).wf(),
        ensures
            final(self).wf(),
            *final(self) == old(self).advanced(offset as int),
    {
        let length: u64 = self.length as u64;
        let magnitude: u64 = if offset >= 0 {
            offset as u64
        } else {
            (-(offset + 1)) as u64 + 1
        };
        let distance: usize = (magnitude % length) as usize;
        proof {
            lemma_wrap(
                self.position as int,
                distance as int,
                offset as int,
                self.length as int,
            );
        }
        if offset >= 0 {
            let remaining: usize = self.length - self.position;
            self.position = if distance >= remaining {
                distance - remaining
            } else {
                self.position + distance
            };
        } else {
            self.position = if distance > self.position {
                self.length - (distance - self.position)
            } else {
                self.position - distance
            };
        }
    }
}

/// Moving by one offset and then another is moving by their sum.
pub proof fn law_ring_offsets_add(address: RingBufferAddress, first: int, second: int)
    requires
        address.wf(),
    ensures
        address.advanced(first).wf(),
        address.advanced(first).advanced(second) == address.advanced(first + second),
{
    let length = address.length as int;
    vstd::arithmetic::div_mod::lemma_mod_bound(address.position + first, length);
    vstd::arithmetic::div_mod::lemma_add_mod_noop_right(second, address.position + first, length);
    assert(second + (address.position + first) == address.position + (first + second));
    assert(second + (address.position + first) % length == (address.position + first) % length
        + second);
}

/// Moving back by an offset undoes moving forward by it.
pub proof fn law_ring_advance_is_reversible(address: RingBufferAddress, offset: int)
    requires
        address.wf(),
    ensures
        address.advanced(offset).advanced(-offset) == address,
{
    law_ring_offsets_add(address, offset, -offset);
    vstd::arithmetic::div_mod::lemma_small_mod(address.position as nat, address.length as nat);
}

} // verus!
