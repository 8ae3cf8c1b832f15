//! Plain values that the engine works on: the integer keys of the resource
//! kinds and the fixed-width byte strings that stand for chain data.

use crate::hex_text::encode;
use crate::hex_text::hex_string;
use crate::text::decimal;
use crate::text::decimal_string;
use crate::text::number;
use crate::text::parse_decimal;
use vstd::prelude::*;
use vstd::string::StringExecFns;

verus! {

/// Identifier of a group. Group `0` is the group that seeds the router.
#[derive(Debug, Clone, Copy, PartialEq, Eq, Structural, PartialOrd, Ord, Hash)]
pub struct GroupId(pub usize);

/// Depth of a group's accumulator tree.
#[derive(Debug, Clone, Copy, PartialEq, Eq, Structural, PartialOrd, Ord, Hash)]
pub struct TreeDepth(pub usize);

/// Number of operations that a verifier checks in one proof.
#[derive(Debug, Clone, Copy, PartialEq, Eq, Structural, PartialOrd, Ord, Hash)]
pub struct BatchSize(pub usize);

/// A 20-byte contract or account address.
#[derive(Debug, Clone, Copy, PartialEq, Eq, Hash)]
pub struct Address(pub [u8; 20]);

/// A 32-byte word: a tree root, a leaf value or a transaction hash.
#[derive(Debug, Clone, Copy, PartialEq, Eq, Hash)]
pub struct H256(pub [u8; 32]);

impl GroupId {
    /// The group identifier in decimal.
    pub fn to_string(&self) -> (r: String)
        ensures
            r@ == decimal(self.0 as nat),
    {
        decimal_string(self.0)
    }

    /// Reads a group identifier: a whole number in decimal. `None` for any other text
    /// and for a number that is too large.
    pub fn from_str(s: &str) -> (r: Option<Self>)
        ensures
            r == match number(s@) {
                Some(n) => if n <= usize::MAX {
                    Some(GroupId(n as usize))
                } else {
                    None
                },
                None => None,
            },
    {
        match parse_decimal(s) {
            Some(n) => Some(GroupId(n)),
            None => None,
        }
    }
}

impl TreeDepth {
    /// The tree depth in decimal.
    pub fn to_string(&self) -> (r: String)
        ensures
            r@ == decimal(self.0 as nat),
    {
        decimal_string(self.0)
    }

    /// Reads a tree depth: a whole number in decimal. `None` for any other text
    /// and for a number that is too large.
    pub fn from_str(s: &str) -> (r: Option<Self>)
        ensures
            r == match number(s@) {
                Some(n) => if n <= usize::MAX {
                    Some(TreeDepth(n as usize))
                } else {
                    None
                },
                None => None,
            },
    {
        match parse_decimal(s) {
            Some(n) => Some(TreeDepth(n)),
            None => None,
        }
    }
}

impl BatchSize {
    /// The batch size in decimal.
    pub fn to_string(&self) -> (r: String)
        ensures
            r@ == decimal(self.0 as nat),
    {
        decimal_string(self.0)
    }

    /// Reads a batch size: a whole number in decimal. `None` for any other text
    /// and for a number that is too large.
    pub fn from_str(s: &str) -> (r: Option<Self>)
        ensures
            r == match number(s@) {
                Some(n) => if n <= usize::MAX {
                    Some(BatchSize(n as usize))
                } else {
                    None
                },
                None => None,
            },
    {
        match parse_decimal(s) {
            Some(n) => Some(BatchSize(n)),
            None => None,
        }
    }
}

impl View for Address {
    type V = Seq<u8>;

    open spec fn view(&self) -> Seq<u8> {
        self.0@
    }
}

impl View for H256 {
    type V = Seq<u8>;

    open spec fn view(&self) -> Seq<u8> {
        self.0@
    }
}

impl Address {
    /// The address whose twenty bytes are all zero.
    pub fn zero() -> (r: Address)
        ensures
            r@ == Seq::new(20, |i: int| 0u8),
    {
        let r = Address([0u8; 20]);
        assert(r@ =~= Seq::new(20, |i: int| 0u8));
        r
    }

    /// The address as text: `0x` and forty hexadecimal digits in lower case.
    pub open spec fn text(&self) -> Seq<char> {
        seq!['0', 'x'] + hex_string(self@)
    }

    /// The address written out in full.
    pub fn to_string(&self) -> (r: String)
        ensures
            r@ == self.text(),
    {
        proof {
            reveal_strlit("0x");
        }
        let digits = encode(self.0.as_slice());
        let mut r = String::from_str("0x");
        r.append(digits.as_str());
        assert("0x"@ =~= seq!['0', 'x']);
        r
    }

    /// Whether the two addresses hold the same bytes.
    pub fn same(&self, other: &Address) -> (r: bool)
        ensures
            r == (*self == *other),
            r == (self@ == other@),
    {
        let mut i: usize = 0;
        while i < 20
            invariant
                0 <= i <= 20,
                forall|j: int| 0 <= j < i ==> self.0@[j] == other.0@[j],
            decreases 20 - i,
        {
            if self.0[i] != other.0[i] {
                return false;
            }
            i += 1;
        }
        assert(self.0@ =~= other.0@);
        assert(self.0 == other.0);
        true
    }
}

impl H256 {
    /// The word whose thirty-two bytes are all zero.
    pub fn zero() -> (r: H256)
        ensures
            r@ == Seq::new(32, |i: int| 0u8),
    {
        let r = H256([0u8; 32]);
        assert(r@ =~= Seq::new(32, |i: int| 0u8));
        r
    }

    /// Whether the two words hold the same bytes.
    pub fn same(&self, other: &H256) -> (r: bool)
        ensures
            r == (*self == *other),
            r == (self@ == other@),
    {
        let mut i: usize = 0;
        while i < 32
            invariant
                0 <= i <= 32,
                forall|j: int| 0 <= j < i ==> self.0@[j] == other.0@[j],
            decreases 32 - i,
        {
            if self.0[i] != other.0[i] {
                return false;
            }
            i += 1;
        }
        assert(self.0@ =~= other.0@);
        assert(self.0 == other.0);
        true
    }
}

} // verus!
