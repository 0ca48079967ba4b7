//! Inter-page pacing: the random delays drawn before a run, one per
//! page, to space requests out. Drawing randomness is delegated to
//! the `fastrand` generator behind trusted declarations; everything
//! provable about the delays is proved here.

use vstd::prelude::*;

verus! {

#[verifier::external_type_specification]
#[verifier::external_body]
pub struct ExRng(fastrand::Rng);

/// Relies on `fastrand::Rng::new`: a generator seeded from system
/// entropy. Nothing is assumed about the values it will produce.
#[verifier::external_body]
pub fn new_rng() -> fastrand::Rng {
    fastrand::Rng::new()
}

/// Relies on `fastrand::Rng::u8` over the inclusive range 1 to 3:
/// whatever the generator state, the drawn value lies in that range,
/// and a nonempty range never panics.
#[verifier::external_body]
fn draw_delay(rng: &mut fastrand::Rng) -> (r: u8)
    ensures
        1 <= r <= 3,
{
    rng.u8(1..=3)
}

/// Draw one pacing delay per page, each between 1 and 3 time units.
pub fn make_delays(rng: &mut fastrand::Rng, page_count: usize) -> (r: Vec<u8>)
    ensures
        r@.len() == page_count,
        forall|i: int| 0 <= i < r@.len() ==> 1 <= #[trigger] r@[i] <= 3,
{
    let mut r: Vec<u8> = Vec::new();
    let mut k: usize = 0;
    while k < page_count
        invariant
            k <= page_count,
            r@.len() == k,
            forall|i: int| 0 <= i < r@.len() ==> 1 <= #[trigger] r@[i] <= 3,
        decreases page_count - k,
    {
        let d = draw_delay(rng);
        r.push(d);
        k += 1;
    }
    r
}

} // verus!
