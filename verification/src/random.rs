use vstd::prelude::*;

verus! {

/// The next word of macroquad's process-wide pseudo-random generator
/// (`macroquad::rand::rand`). The word depends on how the generator was seeded
/// and on every draw made before, so nothing is claimed of it.
#[verifier::external_body]
pub(crate) fn next_random_word() -> u32 {
    macroquad::rand::rand()
}

} // verus!
