//! Plain values that the observers carry: addresses, hashes and 256-bit words.

use vstd::prelude::*;

verus! {

/// A copy of a list of plain values.
pub fn copy_vec<T: Copy>(items: &Vec<T>) -> (copy: Vec<T>)
    ensures
        copy@ == items@,
{
    let mut copy: Vec<T> = Vec::new();
    let mut i: usize = 0;
    while i < items.len()
        invariant
            i <= items@.len(),
            copy@ == items@.subrange(0, i as int),
        decreases items@.len() - i,
    {
        copy.push(items[i]);
        assert(copy@ =~= items@.subrange(0, i + 1));
        i += 1;
    }
    assert(copy@ =~= items@);
    copy
}

/// A 20-byte account address.
#[derive(Clone, Copy, Debug, PartialEq, Eq)]
pub struct Address {
    pub bytes: [u8; 20],
}

impl Address {
    /// Whether every byte of the address is zero.
    pub open spec fn is_zero(self) -> bool {
        self.bytes@ == Seq::new(20, |i: int| 0u8)
    }

    /// The address whose bytes are all zero.
    #[verifier::when_used_as_spec(spec_zero)]
    pub fn zero() -> (a: Address)
        ensures
            a.is_zero(),
            a == Address::spec_zero(),
    {
        let a = Address { bytes: [0u8; 20] };
        assert(a.bytes@ =~= Seq::new(20, |i: int| 0u8));
        assert(a.bytes@ =~= Address::spec_zero().bytes@);
        assert(a.bytes == Address::spec_zero().bytes);
        a
    }

    /// The address whose bytes are all zero.
    pub open spec fn spec_zero() -> Address {
        Address { bytes: [0u8, 0, 0, 0, 0, 0, 0, 0, 0, 0, 0, 0, 0, 0, 0, 0, 0, 0, 0, 0] }
    }
}

/// A 32-byte word, such as a log topic.
#[derive(Clone, Copy, Debug, PartialEq, Eq)]
pub struct B256 {
    pub bytes: [u8; 32],
}

/// An unsigned 256-bit number in four 64-bit limbs, the lowest first.
#[derive(Clone, Copy, Debug, PartialEq, Eq)]
pub struct U256 {
    pub limbs: [u64; 4],
}

impl U256 {
    /// The number that the limbs stand for.
    pub open spec fn value(self) -> nat {
        (self.limbs[0] as nat) + (self.limbs[1] as nat) * 0x1_0000_0000_0000_0000 + (
        self.limbs[2] as nat) * 0x1_0000_0000_0000_0000 * 0x1_0000_0000_0000_0000 + (
        self.limbs[3] as nat) * 0x1_0000_0000_0000_0000 * 0x1_0000_0000_0000_0000
            * 0x1_0000_0000_0000_0000
    }

    /// Zero.
    pub fn zero() -> (n: U256)
        ensures
            n.value() == 0,
            n == U256::from_u64(0),
    {
        U256::from_u64(0)
    }

    /// The 256-bit number equal to `x`.
    #[verifier::when_used_as_spec(spec_from_u64)]
    pub fn from_u64(x: u64) -> (n: U256)
        ensures
            n == U256::spec_from_u64(x),
            n.value() == x,
    {
        let n = U256 { limbs: [x, 0, 0, 0] };
        proof {
            assert(n.limbs@ =~= U256::spec_from_u64(x).limbs@);
            assert(n.limbs == U256::spec_from_u64(x).limbs);
        }
        n
    }

    /// The 256-bit number equal to `x`.
    pub open spec fn spec_from_u64(x: u64) -> U256 {
        U256 { limbs: [x, 0, 0, 0] }
    }

    /// Whether the number is zero.
    pub fn is_zero(&self) -> (zero: bool)
        ensures
            zero == (self.value() == 0),
    {
        let zero = self.limbs[0] == 0 && self.limbs[1] == 0 && self.limbs[2] == 0 && self.limbs[3]
            == 0;
        proof {
            let b: nat = 0x1_0000_0000_0000_0000;
            let l1 = self.limbs[1] as nat;
            let l2 = self.limbs[2] as nat;
            let l3 = self.limbs[3] as nat;
            assert(l1 * b >= 0 && (l1 > 0 ==> l1 * b > 0)) by (nonlinear_arith)
                requires
                    b > 0,
            ;
            assert(l2 * b * b >= 0 && (l2 > 0 ==> l2 * b * b > 0)) by (nonlinear_arith)
                requires
                    b > 0,
            ;
            assert(l3 * b * b * b >= 0 && (l3 > 0 ==> l3 * b * b * b > 0)) by (nonlinear_arith)
                requires
                    b > 0,
            ;
        }
        zero
    }
}

} // verus!
