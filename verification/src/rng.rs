use vstd::prelude::*;

verus! {

/// Additive constant of the deterministic random source's state step.
pub const SEED_STEP: u64 = 0x9E37_79B9_7F4A_7C15;

/// First mixing multiplier of the deterministic random source.
pub const SEED_MIX_A: u64 = 0xBF58_476D_1CE4_E5B9;

/// Second mixing multiplier of the deterministic random source.
pub const SEED_MIX_B: u64 = 0x94D0_49BB_1331_11EB;

/// State of the deterministic random source after one draw.
pub open spec fn pick_state(s: u64) -> u64 {
    vstd::wrapping::u64_specs::wrapping_add(s, SEED_STEP)
}

/// Raw 64-bit value drawn by stepping the source from state `s`.
pub open spec fn pick_output(s: u64) -> u64 {
    let a = pick_state(s);
    let b = vstd::wrapping::u64_specs::wrapping_mul(a ^ (a >> 30u64), SEED_MIX_A);
    let c = vstd::wrapping::u64_specs::wrapping_mul(b ^ (b >> 27u64), SEED_MIX_B);
    c ^ (c >> 31u64)
}

/// Index drawn for a list of `n` candidates by stepping the source from `s`.
pub open spec fn pick_index(s: u64, n: nat) -> nat
    recommends
        n > 0,
{
    pick_output(s) as nat % n
}

/// Advances the deterministic random source and returns an index below `n`.
pub fn next_index(state: &mut u64, n: usize) -> (r: usize)
    requires
        n > 0,
    ensures
        *final(state) == pick_state(*old(state)),
        r as nat == pick_index(*old(state), n as nat),
        r < n,
{
    let a: u64 = state.wrapping_add(SEED_STEP);
    *state = a;
    let b: u64 = (a ^ (a >> 30u64)).wrapping_mul(SEED_MIX_A);
    let c: u64 = (b ^ (b >> 27u64)).wrapping_mul(SEED_MIX_B);
    let o: u64 = c ^ (c >> 31u64);
    let r: usize = (o % (n as u64)) as usize;
    r
}

/// Relies on rand::random: a fresh seed drawn from the thread-local entropy
/// source.  Nothing is promised of the value.
#[verifier::external_body]
pub(crate) fn entropy_seed() -> u64 {
    rand::random::<u64>()
}

} // verus!
