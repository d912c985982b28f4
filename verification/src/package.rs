//! Identities of simulation packages and the per-category allocator that hands them out.

use vstd::prelude::*;

use crate::text::{decimal_digits, decimal_string};

verus! {

/// The category a simulation package belongs to.
#[derive(Copy, Clone, Debug, Hash, PartialEq, Eq, Structural)]
pub enum PackageType {
    Init,
    Context,
    State,
    Output,
}

impl PackageType {
    /// The fixed prime that scales every identity of this category.
    pub open spec fn multiplier(self) -> nat {
        match self {
            PackageType::Init => 3,
            PackageType::Context => 5,
            PackageType::State => 7,
            PackageType::Output => 11,
        }
    }
}

/// An opaque identity of a simulation package: a plain non-negative integer.
#[derive(Copy, Clone, Debug, Hash, PartialEq, Eq, Structural)]
pub struct PackageId(usize);

impl View for PackageId {
    type V = nat;

    closed spec fn view(&self) -> nat {
        self.0 as nat
    }
}

impl PackageId {
    #[inline]
    pub fn as_usize(&self) -> (value: usize)
        ensures
            value == self@,
    {
        self.0
    }

    /// The identity written in decimal.
    pub fn to_string(&self) -> (text: String)
        ensures
            text@ == decimal_digits(self@),
    {
        decimal_string(self.0)
    }
}

impl From<usize> for PackageId {
    /// Wraps a raw integer that crossed a serialization boundary.
    fn from(id: usize) -> (package_id: Self)
        ensures
            package_id@ == id,
    {
        Self(id)
    }
}

impl vstd::std_specs::convert::FromSpecImpl<usize> for PackageId {
    open spec fn obeys_from_spec() -> bool {
        true
    }

    closed spec fn from_spec(id: usize) -> Self {
        PackageId(id)
    }
}

/// Two identities are the same exactly when their integers are.
pub proof fn lemma_package_id_equal_by_value(first: PackageId, second: PackageId)
    ensures
        first == second <==> first@ == second@,
{
}

/// The counter value with its second-lowest bit flipped, which is what
/// `count XOR 2` computes: two more where that bit was clear, two less
/// where it was set.
pub open spec fn flip_second_bit(count: nat) -> nat {
    if (count / 2) % 2 == 0 {
        count + 2
    } else {
        (count - 2) as nat
    }
}

/// The identity handed out by the call that finds the counter at `count`.
///
/// The counter is combined with the constant 2 by bitwise XOR, not by
/// exponentiation: the sequence of counters 0, 1, 2, 3, 4, ... gives the
/// factors 2, 3, 0, 1, 6, ... Flipping one bit is a bijection on the
/// counters, so the identities of one generator never repeat (see
/// [`lemma_identities_distinct`]); they are neither increasing nor disjoint
/// between categories.
pub open spec fn identity_at(multiplier: nat, count: nat) -> nat {
    multiplier * flip_second_bit(count)
}

/// Hands out the identities of one package category: on each call the
/// category's prime times the call counter XOR 2 (see [`identity_at`]),
/// then the counter moves on by one.
pub struct PackageIdGenerator {
    cur: usize,
    multiplier: usize,
}

impl PackageIdGenerator {
    /// How many identities this generator has handed out so far.
    pub closed spec fn count(&self) -> nat {
        self.cur as nat
    }

    /// The prime of the category this generator was created for.
    pub closed spec fn multiplier(&self) -> nat {
        self.multiplier as nat
    }

    /// Whether the next identity, and the counter after it, still fit the
    /// machine word.
    pub open spec fn has_next(&self) -> bool {
        &&& identity_at(self.multiplier(), self.count()) <= usize::MAX
        &&& self.count() < usize::MAX
    }

    #[verifier::type_invariant]
    spec fn inv(&self) -> bool {
        self.multiplier == 3 || self.multiplier == 5 || self.multiplier == 7 || self.multiplier
            == 11
    }

    /// Tells whether [`PackageIdGenerator::next`] may be called.
    pub fn can_advance(&self) -> (ready: bool)
        ensures
            ready == self.has_next(),
    {
        proof {
            use_type_invariant(self);
            lemma_xor_two_flips(self.cur);
        }
        let factor: usize = self.cur ^ 2;
        let limit: usize = usize::MAX / self.multiplier;
        let multiplier: usize = self.multiplier;
        assert(factor <= limit <==> multiplier * factor <= usize::MAX) by (nonlinear_arith)
            requires
                multiplier > 0,
                limit == usize::MAX / multiplier,
        ;
        self.cur < usize::MAX && factor <= limit
    }

    pub fn new(package_group: PackageType) -> (generator: PackageIdGenerator)
        ensures
            generator.count() == 0,
            generator.multiplier() == package_group.multiplier(),
    {
        let multiplier: usize = match package_group {
            PackageType::Init => 3,
            PackageType::Context => 5,
            PackageType::State => 7,
            PackageType::Output => 11,
        };

        PackageIdGenerator { cur: 0, multiplier }
    }

    /// Returns the next identity of the category and advances the counter.
    pub fn next(&mut self) -> (id: PackageId)
        requires
            old(self).has_next(),
        ensures
            id@ == identity_at(old(self).multiplier(), old(self).count()),
            final(self).count() == old(self).count() + 1,
            final(self).multiplier() == old(self).multiplier(),
    {
        let cur: usize = self.cur;
        let factor: usize = cur ^ 2;
        proof {
            use_type_invariant(&*self);
            lemma_xor_two_flips(cur);
        }
        let id = PackageId(self.multiplier * factor);
        self.cur += 1;
        id
    }
}

/// XOR with 2 flips the second-lowest bit of a machine word.
proof fn lemma_xor_two_flips(count: usize)
    ensures
        (count ^ 2) as nat == flip_second_bit(count as nat),
{
    let flipped: usize = count ^ 2;
    assert((count / 2) % 2 == 0 ==> flipped == count + 2) by (bit_vector)
        requires
            flipped == count ^ 2,
    ;
    assert((count / 2) % 2 != 0 ==> flipped == count - 2) by (bit_vector)
        requires
            flipped == count ^ 2,
    ;
}

/// Flipping the second bit twice gives the counter back.
pub proof fn lemma_flip_second_bit_involution(count: nat)
    ensures
        flip_second_bit(flip_second_bit(count)) == count,
{
}

/// Two different calls on one generator never hand out the same identity:
/// in every category, different counter values give different identities.
pub proof fn lemma_identities_distinct(category: PackageType, first: nat, second: nat)
    requires
        first != second,
    ensures
        identity_at(category.multiplier(), first) != identity_at(category.multiplier(), second),
{
    lemma_flip_second_bit_involution(first);
    lemma_flip_second_bit_involution(second);
    let multiplier = category.multiplier();
    let a = flip_second_bit(first);
    let b = flip_second_bit(second);
    assert(a != b);
    assert(multiplier * a != multiplier * b) by (nonlinear_arith)
        requires
            multiplier > 0,
            a != b,
    ;
}

} // verus!
