use vstd::prelude::*;

verus! {

/// One step of the linear congruential generator behind the grain effects:
/// `seed * 1103515245 + 12345` modulo 2^32.
pub open spec fn lcg_step(seed: u32) -> int {
    (seed * 1103515245 + 12345) % 0x1_0000_0000
}

/// The next seed of the grain generator.
pub fn next_noise_seed(seed: u32) -> (r: u32)
    ensures
        r == lcg_step(seed),
{
    let product = seed.wrapping_mul(1103515245);
    let r = product.wrapping_add(12345);
    proof {
        let p = seed as int * 1103515245;
        assert(product == p % 0x1_0000_0000);
        vstd::arithmetic::div_mod::lemma_add_mod_noop(p, 12345, 0x1_0000_0000);
        let q = product as int + 12345;
        if q >= 0x1_0000_0000 {
            assert(q % 0x1_0000_0000 == q - 0x1_0000_0000);
        } else {
            assert(q % 0x1_0000_0000 == q);
        }
    }
    r
}

/// The noise level (0 to 255) that a seed stands for: bits 16 to 23.
pub fn noise_level(seed: u32) -> (r: u8)
    ensures
        r == (seed / 0x1_0000) % 0x100,
{
    let r = ((seed >> 16) & 0xFF) as u8;
    assert((seed >> 16) & 0xFF == (seed / 0x1_0000) % 0x100) by (bit_vector);
    r
}

/// The seed of the grain cell `(noise_x, noise_y)`: the cell coordinates
/// hashed (each multiplied by a large prime modulo 2^32, then combined by
/// exclusive or) and passed through one generator step.
pub fn grain_cell_seed(noise_x: u32, noise_y: u32) -> (r: u32)
    ensures
        r == lcg_step(
            (((noise_x * 73856093) % 0x1_0000_0000) as u32) ^ (((noise_y * 19349663)
                % 0x1_0000_0000) as u32),
        ),
{
    let hash_input = noise_x.wrapping_mul(73856093) ^ noise_y.wrapping_mul(19349663);
    next_noise_seed(hash_input)
}

} // verus!
