use mapgen::{difference_stencil, grad_direction, PermutationTable, Simplex2d};
use rand::rngs::StdRng;
use rand::SeedableRng;

fn table_bytes(t: &PermutationTable) -> Vec<u8> {
    (0..=255u8).map(|i| t.at(i)).collect()
}

#[test]
fn permutation_holds_each_byte_once() {
    let mut rng = StdRng::seed_from_u64(42);
    let t = PermutationTable::new(&mut rng);
    let mut bytes = table_bytes(&t);
    assert_ne!(bytes, (0..=255u8).collect::<Vec<u8>>());
    bytes.sort();
    assert_eq!(bytes, (0..=255u8).collect::<Vec<u8>>());
}

#[test]
fn permutation_is_reproducible_for_a_seed() {
    let a = PermutationTable::new(&mut StdRng::seed_from_u64(3));
    let b = PermutationTable::new(&mut StdRng::seed_from_u64(3));
    assert_eq!(table_bytes(&a), table_bytes(&b));
}

#[test]
fn hash_follows_the_table_and_tiles() {
    let t = PermutationTable::new(&mut StdRng::seed_from_u64(11));
    for &(x, y) in &[(0usize, 0usize), (5, 9), (255, 255), (1000, 3), (usize::MAX, 77)] {
        let expected = t.at(((x % 256 + t.at((y % 256) as u8) as usize) % 256) as u8);
        assert_eq!(t.hash(x, y), expected);
        assert_eq!(t.hash(x % 256, y % 256), expected);
    }
    assert_eq!(t.hash(3, 4), t.hash(3 + 256, 4 + 512));
}

#[test]
fn simplex_uses_the_lattice_hash() {
    let s = Simplex2d::new(&mut StdRng::seed_from_u64(5));
    let t = PermutationTable::new(&mut StdRng::seed_from_u64(5));
    assert_eq!(s.idx(12, 34), t.hash(12, 34));
}

#[test]
fn gradient_directions() {
    assert_eq!(grad_direction(0), (1, 1));
    assert_eq!(grad_direction(1), (1, 0));
    assert_eq!(grad_direction(2), (1, -1));
    assert_eq!(grad_direction(3), (0, 1));
    assert_eq!(grad_direction(4), (0, -1));
    assert_eq!(grad_direction(5), (-1, 1));
    assert_eq!(grad_direction(6), (-1, 0));
    assert_eq!(grad_direction(7), (-1, -1));
    assert_eq!(grad_direction(8 + 5), (-1, 1));
    assert_eq!(grad_direction(255), (-1, -1));
}

#[test]
fn stencil_is_one_sided_at_edges() {
    assert_eq!(difference_stencil(0, 5), (0, 1, true));
    assert_eq!(difference_stencil(4, 5), (3, 4, true));
    assert_eq!(difference_stencil(2, 5), (1, 3, false));
    assert_eq!(difference_stencil(1, 2), (0, 1, true));
}
