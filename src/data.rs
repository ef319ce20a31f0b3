//! Bounded random generators for simulated sensor values.

use vstd::prelude::*;

verus! {

#[verifier::external_type_specification]
#[verifier::external_body]
pub struct ExThreadRng(rand::ThreadRng);

/// Relies on `rand::thread_rng`: hands out the generator of the calling
/// thread. Nothing is stated of its state.
pub assume_specification[ rand::thread_rng ]() -> rand::ThreadRng;

/// Relies on `rand::Rng::gen_range`: for `low < high` it returns a value of
/// `[low, high)` (it panics when `low >= high`, which `requires` excludes).
#[verifier::external_body]
fn offset_below(rng: &mut rand::ThreadRng, delta: i32) -> (r: i32)
    requires
        0 < delta,
    ensures
        0 <= r < delta,
{
    rand::Rng::gen_range(rng, 0, delta)
}

/// Why a generator could not be built.
#[derive(Debug, Clone, Copy, PartialEq, Eq, Structural)]
pub enum GenError {
    /// The range width was not positive.
    InvalidConfiguration,
}

/// An endless source of integers drawn uniformly from `[base, base + delta)`.
pub struct DataGen {
    base: i32,
    delta: i32,
    rgen: rand::ThreadRng,
}

impl DataGen {
    /// Lower bound of the values drawn.
    pub closed spec fn low(&self) -> int {
        self.base as int
    }

    /// Width of the half-open range the values are drawn from.
    pub closed spec fn width(&self) -> int {
        self.delta as int
    }

    /// The range is not empty and every value of it is an `i32`.
    pub closed spec fn wf(&self) -> bool {
        1 <= self.delta && self.base + self.delta <= i32::MAX + 1
    }

    /// A generator of values in `[base, base + delta)`; fails when `delta < 1`.
    pub fn new(base: i32, delta: i32) -> (r: Result<DataGen, GenError>)
        requires
            base + delta <= i32::MAX + 1,
        ensures
            r is Err <==> delta < 1,
            r is Err ==> r == Err::<DataGen, GenError>(GenError::InvalidConfiguration),
            r matches Ok(g) ==> g.wf() && g.low() == base && g.width() == delta,
    {
        if delta < 1 {
            return Err(GenError::InvalidConfiguration);
        }
        let rgen = rand::thread_rng();
        Ok(DataGen { base, delta, rgen })
    }

    /// Draws the next value; the sequence never ends.
    pub fn next(&mut self) -> (r: Option<i32>)
        requires
            old(self).wf(),
        ensures
            final(self).wf(),
            final(self).low() == old(self).low(),
            final(self).width() == old(self).width(),
            r matches Some(v) && old(self).low() <= v < old(self).low() + old(self).width(),
    {
        let offset = offset_below(&mut self.rgen, self.delta);
        Some(self.base + offset)
    }
}

} // verus!
