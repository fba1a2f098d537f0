use rtgc_siberian_cities::terrain_generator::{shuffle_with_draws, PerlinNoise, SurfaceType};

fn first_row(noise: &PerlinNoise) -> Vec<u8> {
    (0..256usize).map(|x| noise.lattice_hash(x, 0, 0)).collect()
}

#[test]
fn rough_surfaces() {
    assert!(SurfaceType::AsphaltBad.is_rough());
    assert!(SurfaceType::Gravel.is_rough());
    assert!(SurfaceType::RockBare.is_rough());
    assert!(!SurfaceType::AsphaltGood.is_rough());
    assert!(!SurfaceType::Mud.is_rough());
    assert!(!SurfaceType::Ice.is_rough());
    assert!(!SurfaceType::Water.is_rough());
}

#[test]
fn same_seed_same_table() {
    let a = PerlinNoise::new(42);
    let b = PerlinNoise::new(42);
    for x in 0..=256usize {
        for y in [0usize, 1, 100, 256] {
            assert_eq!(a.lattice_hash(x, y, 3), b.lattice_hash(x, y, 3));
        }
    }
}

#[test]
fn table_is_a_shuffle_of_all_bytes() {
    for seed in [0u64, 1, 12345, u64::MAX] {
        let noise = PerlinNoise::new(seed);
        // with y = z = 0 the hash is p[p[p[x]]]: a permutation of the bytes
        let mut row = first_row(&noise);
        row.sort();
        let all: Vec<u8> = (0..=255u8).collect();
        assert_eq!(row, all);
    }
}

#[test]
fn table_wraps_around() {
    let noise = PerlinNoise::new(7);
    // index 256 holds the same value as index 0
    assert_eq!(noise.lattice_hash(256, 0, 0), noise.lattice_hash(0, 0, 0));
}

#[test]
fn seeds_shuffle_differently() {
    let a = first_row(&PerlinNoise::new(1));
    let b = first_row(&PerlinNoise::new(2));
    let identity: Vec<u8> = (0..=255u8).collect();
    assert_ne!(a, identity);
    assert_ne!(a, b);
}

#[test]
fn draws_that_keep_every_entry_give_the_identity() {
    let draws: Vec<u64> = (0..255u64).map(|k| 255 - k).collect();
    let table = shuffle_with_draws(&draws);
    let identity: Vec<u8> = (0..=255u8).collect();
    assert_eq!(table, identity);
}

#[test]
fn shuffle_follows_the_draws() {
    // every step exchanges entry i (from 255 down to 1) with entry 0
    let draws: Vec<u64> = vec![0; 255];
    let table = shuffle_with_draws(&draws);
    let mut expected: Vec<u8> = (0..=255u8).collect();
    for i in (1..256usize).rev() {
        expected.swap(i, 0);
    }
    assert_eq!(table, expected);
    assert_eq!(table[0], 1);
    assert_eq!(table[255], 0);
}

#[test]
fn shuffle_first_draws() {
    let mut draws: Vec<u64> = (0..255u64).map(|k| 255 - k).collect();
    draws[0] = 3; // exchange entries 255 and 3
    draws[1] = 0; // then entries 254 and 0
    let table = shuffle_with_draws(&draws);
    assert_eq!(table[255], 3);
    assert_eq!(table[3], 255);
    assert_eq!(table[254], 0);
    assert_eq!(table[0], 254);
    assert_eq!(table[1], 1);
}
