//! Road and ground surfaces, and the permutation table of the Perlin noise
//! used for terrain. The noise arithmetic itself works on floats and is not
//! part of the library.

use vstd::prelude::*;
use rand::Rng;
use rand::SeedableRng;
use rand_chacha::ChaCha8Rng;

verus! {

/// Surface types affecting vehicle physics.
#[derive(Debug, Clone, Copy, PartialEq, Eq, Hash, Structural)]
pub enum SurfaceType {
    /// Good asphalt.
    AsphaltGood,
    /// Bad asphalt (potholes).
    AsphaltBad,
    /// Gravel road.
    Gravel,
    /// Dry dirt.
    DirtDry,
    /// Wet dirt.
    DirtWet,
    /// Mud.
    Mud,
    /// Sand.
    Sand,
    /// Snow.
    Snow,
    /// Ice.
    Ice,
    /// Grass.
    Grass,
    /// Bare rock.
    RockBare,
    /// Water.
    Water,
}

impl SurfaceType {
    /// Whether the surface is rough enough to make the vehicle vibrate.
    pub open spec fn spec_is_rough(self) -> bool {
        self == SurfaceType::AsphaltBad || self == SurfaceType::Gravel || self == SurfaceType::RockBare
    }

    /// Whether the surface causes vibration: bad asphalt, gravel and bare rock.
    pub fn is_rough(&self) -> (r: bool)
        ensures
            r == self.spec_is_rough(),
    {
        match self {
            SurfaceType::AsphaltBad | SurfaceType::Gravel | SurfaceType::RockBare => true,
            _ => false,
        }
    }
}

/// Only bad asphalt, gravel and bare rock make the vehicle vibrate; every
/// other surface, smooth or soft, does not.
pub proof fn law_rough_surfaces(surface: SurfaceType)
    ensures
        SurfaceType::AsphaltBad.spec_is_rough(),
        SurfaceType::Gravel.spec_is_rough(),
        SurfaceType::RockBare.spec_is_rough(),
        !SurfaceType::AsphaltGood.spec_is_rough(),
        !SurfaceType::DirtDry.spec_is_rough(),
        !SurfaceType::DirtWet.spec_is_rough(),
        !SurfaceType::Mud.spec_is_rough(),
        !SurfaceType::Sand.spec_is_rough(),
        !SurfaceType::Snow.spec_is_rough(),
        !SurfaceType::Ice.spec_is_rough(),
        !SurfaceType::Grass.spec_is_rough(),
        !SurfaceType::Water.spec_is_rough(),
        surface.spec_is_rough() ==> (surface == SurfaceType::AsphaltBad || surface == SurfaceType::Gravel
            || surface == SurfaceType::RockBare),
{
}

/// The draws that a ChaCha8 generator seeded with `seed` makes for the
/// shuffle of the permutation table: `gen_range(0..=i)` for `i` from 255
/// down to 1, in that order.
pub uninterp spec fn chacha8_draws(seed: u64) -> Seq<u64>;

/// Whether `draws` fits a shuffle of 256 entries: 255 draws, the `k`-th of
/// them at most `255 - k`.
pub open spec fn valid_draws(draws: Seq<u64>) -> bool {
    &&& draws.len() == 255
    &&& forall|k: int| 0 <= k < 255 ==> #[trigger] draws[k] <= 255 - k
}

/// `SeedableRng::seed_from_u64` for `ChaCha8Rng`, then `Rng::gen_range(0..=i)`
/// for `i` from 255 down to 1 on that generator. Seeding from a `u64` is
/// deterministic (rand_core documents a change of it as value-breaking), and
/// so are the ChaCha8 stream and rand's uniform sampler; the draws are
/// therefore named as a function of the seed alone. They are drawn as `u64`,
/// which on 64-bit targets gives the same values as drawing `usize`. The
/// contract also claims what the sampler documents: each draw lies in its
/// range.
#[verifier::external_body]
fn seeded_shuffle_draws(seed: u64) -> (r: Vec<u64>)
    ensures
        r@ == chacha8_draws(seed),
        valid_draws(r@),
{
    let mut rng = ChaCha8Rng::seed_from_u64(seed);
    let mut draws: Vec<u64> = Vec::with_capacity(255);
    for i in (1..256u64).rev() {
        draws.push(rng.gen_range(0..=i));
    }
    draws
}

/// Whether `s` holds 256 bytes, each byte value exactly once.
pub open spec fn is_byte_permutation(s: Seq<u8>) -> bool {
    &&& s.len() == 256
    &&& forall|a: int, b: int| 0 <= a < b < 256 ==> #[trigger] s[a] != #[trigger] s[b]
    &&& forall|v: u8| #[trigger] s.contains(v)
}

/// The bytes 0 to 255 in order.
pub open spec fn identity_table() -> Seq<u8> {
    Seq::new(256, |i: int| i as u8)
}

/// `s` with the entries at `a` and `b` exchanged.
pub open spec fn swapped(s: Seq<u8>, a: int, b: int) -> Seq<u8> {
    s.update(a, s[b]).update(b, s[a])
}

/// The table after the first `n` steps of the Fisher–Yates shuffle driven by
/// `draws`: step `k` exchanges entry `255 - k` with entry `draws[k]`.
pub open spec fn shuffled(draws: Seq<u64>, n: nat) -> Seq<u8>
    decreases n,
{
    if n == 0 {
        identity_table()
    } else {
        swapped(shuffled(draws, (n - 1) as nat), 255 - (n - 1), draws[n - 1] as int)
    }
}

/// The Fisher–Yates shuffle of the bytes 0 to 255 driven by `draws`: for `i`
/// from 255 down to 1, entry `i` is exchanged with entry `draws[255 - i]`.
pub fn shuffle_with_draws(draws: &Vec<u64>) -> (r: Vec<u8>)
    requires
        valid_draws(draws@),
    ensures
        r@ == shuffled(draws@, 255),
        is_byte_permutation(r@),
{
    let mut permutations: Vec<u8> = Vec::new();
    let mut v: usize = 0;
    while v < 256
        invariant
            v <= 256,
            permutations@.len() == v,
            forall|k: int| 0 <= k < v ==> permutations@[k] == k,
        decreases 256 - v,
    {
        permutations.push(v as u8);
        v = v + 1;
    }
    proof {
        assert(permutations@ =~= identity_table());
        assert forall|b: u8| #[trigger] permutations@.contains(b) by {
            assert(permutations@[b as int] == b);
        }
    }
    let mut i: usize = 255;
    while i >= 1
        invariant
            i <= 255,
            valid_draws(draws@),
            is_byte_permutation(permutations@),
            permutations@ == shuffled(draws@, (255 - i) as nat),
        decreases i,
    {
        let j = draws[255 - i] as usize;
        let ghost before = permutations@;
        let a = permutations[i];
        let b = permutations[j];
        permutations.set(i, b);
        permutations.set(j, a);
        proof {
            let s = permutations@;
            assert(s =~= swapped(before, i as int, j as int));
            assert(shuffled(draws@, (255 - i + 1) as nat) == swapped(
                shuffled(draws@, (255 - i) as nat),
                i as int,
                j as int,
            ));
            assert forall|x: int, y: int| 0 <= x < y < 256 implies #[trigger] s[x] != #[trigger] s[y] by {
                let ox = if x == i { j as int } else if x == j { i as int } else { x };
                let oy = if y == i { j as int } else if y == j { i as int } else { y };
                assert(s[x] == before[ox]);
                assert(s[y] == before[oy]);
                if ox < oy {
                    assert(before[ox] != before[oy]);
                } else if oy < ox {
                    assert(before[oy] != before[ox]);
                }
            }
            assert forall|w: u8| #[trigger] s.contains(w) by {
                assert(before.contains(w));
                let k = choose|k: int| 0 <= k < 256 && before[k] == w;
                let nk = if k == i { j as int } else if k == j { i as int } else { k };
                assert(s[nk] == w);
            }
        }
        i = i - 1;
    }
    permutations
}

/// The Perlin table of `seed`: its shuffled bytes, stored twice in a row.
pub open spec fn seeded_table(seed: u64) -> Seq<u8> {
    shuffled(chacha8_draws(seed), 255) + shuffled(chacha8_draws(seed), 255)
}

/// Perlin noise generator: a shuffled table of the 256 byte values, stored
/// twice in a row so that lookups may run past the first copy.
pub struct PerlinNoise {
    permutations: Vec<u8>,
}

impl PerlinNoise {
    /// The permutation table.
    pub closed spec fn table(&self) -> Seq<u8> {
        self.permutations@
    }

    /// 512 entries: a permutation of the byte values followed by itself.
    pub open spec fn wf(&self) -> bool {
        &&& self.table().len() == 512
        &&& is_byte_permutation(self.table().take(256))
        &&& forall|i: int| 0 <= i < 256 ==> #[trigger] self.table()[i + 256] == self.table()[i]
    }

    /// A generator whose table is the identity shuffled by a Fisher–Yates
    /// shuffle driven by a ChaCha8 generator seeded with `seed`, stored twice.
    pub fn new(seed: u64) -> (r: Self)
        ensures
            r.wf(),
            r.table() == seeded_table(seed),
    {
        let draws = seeded_shuffle_draws(seed);
        let mut permutations = shuffle_with_draws(&draws);
        let ghost first = permutations@;
        proof {
            assert(permutations@.take(256) =~= permutations@);
        }
        let mut k: usize = 0;
        while k < 256
            invariant
                k <= 256,
                first.len() == 256,
                is_byte_permutation(first),
                permutations@ == first + first.take(k as int),
            decreases 256 - k,
        {
            let value = permutations[k];
            permutations.push(value);
            proof {
                assert(first.take(k + 1) =~= first.take(k as int).push(first[k as int]));
            }
            k = k + 1;
        }
        proof {
            assert(first.take(256) =~= first);
            assert(permutations@.take(256) =~= first);
        }
        PerlinNoise { permutations }
    }

    /// The lattice hash of a cell corner: `p[p[p[x] + y] + z]` for the
    /// table `p`. Coordinates are wrapped cell coordinates (0 to 255) or one
    /// past them.
    pub fn lattice_hash(&self, xi: usize, yi: usize, zi: usize) -> (r: u8)
        requires
            self.wf(),
            xi <= 256,
            yi <= 256,
            zi <= 256,
        ensures
            r == self.table()[self.table()[self.table()[xi as int] + yi] + zi],
    {
        let a = self.permutations[xi] as usize;
        let b = self.permutations[a + yi] as usize;
        self.permutations[b + zi]
    }
}

/// The table, and so every lattice hash and noise value, is fixed by the
/// seed: two generators made from one seed agree.
pub proof fn law_same_seed_same_table(a: &PerlinNoise, b: &PerlinNoise, seed: u64)
    requires
        a.table() == seeded_table(seed),
        b.table() == seeded_table(seed),
    ensures
        a.table() == b.table(),
{
}

} // verus!
