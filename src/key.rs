use vstd::prelude::*;

verus! {

/// The big-endian value of a byte string.
pub open spec fn be_value(b: Seq<u8>) -> nat
    decreases b.len(),
{
    if b.len() == 0 {
        0
    } else {
        be_value(b.drop_last()) * 256 + b.last() as nat
    }
}

/// 256 to the power `n`.
pub open spec fn pow256(n: nat) -> nat
    decreases n,
{
    if n == 0 {
        1
    } else {
        256 * pow256((n - 1) as nat)
    }
}

proof fn lemma_be_value_bound(b: Seq<u8>)
    ensures
        be_value(b) < pow256(b.len()),
    decreases b.len(),
{
    if b.len() > 0 {
        lemma_be_value_bound(b.drop_last());
        let v = be_value(b.drop_last());
        let p = pow256((b.len() - 1) as nat);
        assert(v * 256 + (b.last() as nat) < 256 * p) by (nonlinear_arith)
            requires
                v < p,
                b.last() < 256,
        ;
    }
}

/// A 32-byte account identifier (a player, or the address of a stored record),
/// held as four big-endian 64-bit words.
#[derive(Clone, Copy, Debug, PartialEq, Eq, Structural)]
pub struct AccountKey {
    pub w0: u64,
    pub w1: u64,
    pub w2: u64,
    pub w3: u64,
}

/// The all-zero key, which stands for "nobody".
pub open spec fn none_key() -> AccountKey {
    AccountKey { w0: 0, w1: 0, w2: 0, w3: 0 }
}

/// The key whose words are read, in order, from the 32 bytes `b`.
pub open spec fn key_of_bytes(b: Seq<u8>) -> AccountKey {
    AccountKey {
        w0: be_value(b.subrange(0, 8)) as u64,
        w1: be_value(b.subrange(8, 16)) as u64,
        w2: be_value(b.subrange(16, 24)) as u64,
        w3: be_value(b.subrange(24, 32)) as u64,
    }
}

/// Reads eight bytes from `start` as a big-endian integer.
fn read_word(b: &[u8; 32], start: usize) -> (r: u64)
    requires
        start + 8 <= 32,
    ensures
        r as nat == be_value(b@.subrange(start as int, start + 8)),
{
    let mut acc: u64 = 0;
    let mut j: usize = 0;
    proof {
        assert(b@.subrange(start as int, start as int) =~= Seq::<u8>::empty());
        reveal_with_fuel(pow256, 9);
    }
    while j < 8
        invariant
            j <= 8,
            start + 8 <= 32,
            pow256(8) == 0x1_0000_0000_0000_0000,
            acc as nat == be_value(b@.subrange(start as int, start + j)),
        decreases 8 - j,
    {
        let ghost prefix = b@.subrange(start as int, start + j);
        let ghost next = b@.subrange(start as int, start + j + 1);
        proof {
            assert(next.drop_last() =~= prefix);
            lemma_be_value_bound(next);
            lemma_pow256_mono((j + 1) as nat, 8);
        }
        acc = acc * 256 + b[start + j] as u64;
        j = j + 1;
    }
    acc
}

proof fn lemma_pow256_mono(m: nat, n: nat)
    requires
        m <= n,
    ensures
        pow256(m) <= pow256(n),
    decreases n,
{
    if m < n {
        lemma_pow256_mono(m, (n - 1) as nat);
    }
}

impl AccountKey {
    /// Builds a key from its 32 bytes.
    pub fn from_bytes(b: &[u8; 32]) -> (r: AccountKey)
        ensures
            r == key_of_bytes(b@),
    {
        AccountKey {
            w0: read_word(b, 0),
            w1: read_word(b, 8),
            w2: read_word(b, 16),
            w3: read_word(b, 24),
        }
    }

    /// The key that stands for "nobody".
    pub fn none() -> (r: AccountKey)
        ensures
            r == none_key(),
    {
        AccountKey { w0: 0, w1: 0, w2: 0, w3: 0 }
    }

    /// Whether this is the key that stands for "nobody".
    pub fn is_none(&self) -> (r: bool)
        ensures
            r == (*self == none_key()),
    {
        self.w0 == 0 && self.w1 == 0 && self.w2 == 0 && self.w3 == 0
    }
}

} // verus!
