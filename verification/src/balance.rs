//! Load-balancing strategies for picking one address out of the resolved set.

use vstd::prelude::*;

verus! {

/// Connection load balancing algorithm
#[derive(Debug, Clone, Copy, PartialEq, Eq, Structural)]
pub enum LoadBalancing {
    /// Choose the first address from resolved DNS records
    First,
    /// Randomly choose an address from resolved DNS records
    Random,
    /// Choose addresses in order from resolved DNS records
    Next,
}

/// Relies on rand::RngExt::random_range over rand::rng(): a draw from the
/// half-open range `0..n` is uniform and always below `n`; the range must be
/// non-empty, as the call panics on an empty one.
#[verifier::external_body]
pub(crate) fn random_index(n: usize) -> (r: usize)
    requires
        n > 0,
    ensures
        r < n,
{
    rand::RngExt::random_range(&mut rand::rng(), 0..n)
}

} // verus!
