//! The nonce sequencer: the one counter from which every transaction of a
//! run takes its nonce.

use vstd::prelude::*;

verus! {

/// The nonce that is handed out as number `index` (counting from zero) by a
/// sequencer seeded with `first`. The counter wraps at the width of a nonce.
pub open spec fn nonce_at(first: u64, index: nat) -> u64 {
    ((first + index) % 0x1_0000_0000_0000_0000) as u64
}

/// A counter seeded once from the chain and advanced by one for every
/// transaction that the run issues.
pub struct NonceSequencer {
    first: u64,
    next: u64,
    issued: Ghost<nat>,
}

impl NonceSequencer {
    /// The nonce that the sequencer was seeded with.
    pub closed spec fn first(&self) -> u64 {
        self.first
    }

    /// How many nonces have been handed out so far.
    pub closed spec fn issued(&self) -> nat {
        self.issued@
    }

    /// The counter holds the nonce that goes out next.
    #[verifier::type_invariant]
    spec fn inv(&self) -> bool {
        self.next == nonce_at(self.first, self.issued@)
    }

    /// A sequencer whose first nonce is `first`, the transaction count that
    /// the chain reports for the signing account.
    pub fn new(first: u64) -> (r: NonceSequencer)
        ensures
            r.first() == first,
            r.issued() == 0,
    {
        NonceSequencer { first, next: first, issued: Ghost(0) }
    }

    /// Hands out the next nonce and advances the counter.
    pub fn next_nonce(&mut self) -> (n: u64)
        ensures
            n == nonce_at(old(self).first(), old(self).issued()),
            final(self).first() == old(self).first(),
            final(self).issued() == old(self).issued() + 1,
    {
        proof {
            use_type_invariant(&*self);
        }
        let n = self.next;
        let following: u64 = if n == u64::MAX {
            0
        } else {
            n + 1
        };
        let ghost count = self.issued@ + 1;
        proof {
            lemma_nonce_step(self.first, self.issued@);
        }
        *self = NonceSequencer { first: self.first, next: following, issued: Ghost(count) };
        n
    }

    /// The nonce that goes out next, without handing it out.
    pub fn peek(&self) -> (n: u64)
        ensures
            n == nonce_at(self.first(), self.issued()),
    {
        proof {
            use_type_invariant(self);
        }
        self.next
    }
}

/// Each nonce is the one before it plus one, wrapping at the top.
pub proof fn lemma_nonce_step(first: u64, index: nat)
    ensures
        nonce_at(first, index + 1) == if nonce_at(first, index) == u64::MAX {
            0
        } else {
            nonce_at(first, index) + 1
        },
{
    let m = 0x1_0000_0000_0000_0000int;
    let a = first + index;
    assert((a + 1) % m == if a % m == m - 1 { 0 } else { a % m + 1 }) by (nonlinear_arith)
        requires
            m > 0,
            a >= 0,
    ;
}

/// As long as the counter does not wrap, nonce number `index` is the seed
/// plus `index`.
pub proof fn lemma_nonce_is_offset(first: u64, index: nat)
    requires
        first + index <= u64::MAX,
    ensures
        nonce_at(first, index) == first + index,
{
    let m = 0x1_0000_0000_0000_0000int;
    let a = first + index;
    assert(a % m == a) by (nonlinear_arith)
        requires
            m > 0,
            0 <= a < m,
    ;
}

/// No nonce is issued twice: as long as the counter does not wrap, two
/// different requests get two different nonces.
pub proof fn lemma_nonces_are_distinct(first: u64, i: nat, j: nat)
    requires
        i != j,
        first + i <= u64::MAX,
        first + j <= u64::MAX,
    ensures
        nonce_at(first, i) != nonce_at(first, j),
{
    lemma_nonce_is_offset(first, i);
    lemma_nonce_is_offset(first, j);
}

/// The nonces of the first `count` requests, as a set: whatever the order in
/// which the requests are served, it is the set of what was handed out.
pub open spec fn issued_nonces(first: u64, count: nat) -> Set<int> {
    Set::new(|n: int| exists|i: nat| i < count && nonce_at(first, i) == n)
}

/// The nonces used by `count` requests are exactly
/// `first, first + 1, ..., first + count - 1`, as long as the counter does
/// not wrap.
pub proof fn lemma_issued_nonces_are_contiguous(first: u64, count: nat)
    requires
        first + count <= u64::MAX + 1,
    ensures
        issued_nonces(first, count) == Set::new(|n: int| first <= n < first + count),
{
    let range = Set::new(|n: int| first <= n < first + count);
    assert forall|n: int| issued_nonces(first, count).contains(n) <==> range.contains(n) by {
        if issued_nonces(first, count).contains(n) {
            let i = choose|i: nat| i < count && nonce_at(first, i) == n;
            lemma_nonce_is_offset(first, i);
        }
        if range.contains(n) {
            let i = (n - first) as nat;
            lemma_nonce_is_offset(first, i);
            assert(i < count && nonce_at(first, i) == n);
        }
    }
    assert(issued_nonces(first, count) =~= range);
}

} // verus!
