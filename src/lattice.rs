//! Lattice hashing for the noise kernels: a random permutation of the bytes
//! `0..=255`, and the simplex kernel that uses nothing else.
use vstd::prelude::*;
use rand::rngs::StdRng;

verus! {

#[verifier::external_type_specification]
#[verifier::external_body]
pub struct ExStdRng(rand::rngs::StdRng);

/// Relies on rand's `SliceRandom::shuffle` for slices, which reorders the
/// elements by swapping them: the bytes are kept, only their order changes.
#[verifier::external_body]
fn shuffle_bytes(v: &mut Vec<u8>, rng: &mut StdRng)
    ensures
        final(v)@.to_multiset() == old(v)@.to_multiset(),
        final(v)@.len() == old(v)@.len(),
{
    rand::seq::SliceRandom::shuffle(v.as_mut_slice(), rng)
}

/// The bytes `0, 1, ..., 255` in order.
pub open spec fn identity_bytes() -> Seq<u8> {
    Seq::new(256, |i: int| i as u8)
}

/// The lattice hash of `(x, y)`: `p[(x + p[y mod 256]) mod 256]`. It tiles
/// every 256 units along each axis.
pub open spec fn lattice_hash(p: Seq<u8>, x: int, y: int) -> u8 {
    p[(x + p[y % 256] as int) % 256]
}

/// A permutation of the bytes `0..=255`, used to hash lattice coordinates.
pub struct PermutationTable {
    perm: Vec<u8>,
}

impl View for PermutationTable {
    type V = Seq<u8>;

    closed spec fn view(&self) -> Seq<u8> {
        self.perm@
    }
}

impl PermutationTable {
    /// The table holds each byte exactly once.
    pub open spec fn wf(&self) -> bool {
        &&& self@.len() == 256
        &&& self@.to_multiset() == identity_bytes().to_multiset()
    }

    /// A random permutation of the bytes, drawn from `rng`.
    pub fn new(rng: &mut StdRng) -> (t: PermutationTable)
        ensures
            t.wf(),
    {
        let mut perm: Vec<u8> = Vec::new();
        let mut i: usize = 0;
        while i < 256
            invariant
                i <= 256,
                perm@ =~= Seq::new(i as nat, |k: int| k as u8),
            decreases 256 - i,
        {
            perm.push(i as u8);
            i = i + 1;
        }
        assert(perm@ =~= identity_bytes());
        shuffle_bytes(&mut perm, rng);
        PermutationTable { perm }
    }

    /// The byte at position `i`.
    pub fn at(&self, i: u8) -> (b: u8)
        requires
            self.wf(),
        ensures
            b == self@[i as int],
    {
        self.perm[i as usize]
    }

    /// The lattice hash of `(x, y)`.
    pub fn hash(&self, x: usize, y: usize) -> (h: u8)
        requires
            self.wf(),
        ensures
            h == lattice_hash(self@, x as int, y as int),
    {
        let a = self.perm[y % 256];
        proof {
            vstd::arithmetic::div_mod::lemma_add_mod_noop(x as int, a as int, 256);
            vstd::arithmetic::div_mod::lemma_small_mod(a as nat, 256);
        }
        self.perm[(x % 256 + a as usize) % 256]
    }
}

/// Simplex noise state: a permutation table and nothing else.
pub struct Simplex2d {
    pub permutations: PermutationTable,
}

impl Simplex2d {
    /// A kernel whose permutation table is drawn from `rng`.
    pub fn new(rng: &mut StdRng) -> (s: Simplex2d)
        ensures
            s.permutations.wf(),
    {
        Simplex2d { permutations: PermutationTable::new(rng) }
    }

    /// The lattice hash of the simplex corner `(x, y)`.
    pub fn idx(&self, x: usize, y: usize) -> (h: u8)
        requires
            self.permutations.wf(),
        ensures
            h == lattice_hash(self.permutations@, x as int, y as int),
    {
        self.permutations.hash(x, y)
    }
}

/// The gradient direction that a lattice hash selects by its low three bits,
/// as the coefficients `(a, b)` of `a * x + b * y`.
pub open spec fn gradient_of(hash: u8) -> (int, int) {
    let k = hash % 8;
    if k == 0 {
        (1, 1)
    } else if k == 1 {
        (1, 0)
    } else if k == 2 {
        (1, -1)
    } else if k == 3 {
        (0, 1)
    } else if k == 4 {
        (0, -1)
    } else if k == 5 {
        (-1, 1)
    } else if k == 6 {
        (-1, 0)
    } else {
        (-1, -1)
    }
}

/// The gradient direction of the simplex kernel for a lattice hash: one of
/// eight, chosen by the hash's low three bits.
pub fn grad_direction(hash: u8) -> (g: (i8, i8))
    ensures
        (g.0 as int, g.1 as int) == gradient_of(hash),
{
    match hash % 8 {
        0 => (1, 1),
        1 => (1, 0),
        2 => (1, -1),
        3 => (0, 1),
        4 => (0, -1),
        5 => (-1, 1),
        6 => (-1, 0),
        _ => (-1, -1),
    }
}

} // verus!
