//! Sharing of sampler objects by parameter set.
//!
//! Samplers are pooled by an identifier computed from their parameters. A
//! pooled sampler that is still alive is handed out again; the parameters
//! first seen for an identifier are remembered, and a later request with the
//! same identifier but other parameters is a collision.
use vstd::prelude::*;

verus! {

/// What to do with a request for the sampler of some parameters.
#[derive(Clone, Copy, Debug, PartialEq, Eq)]
pub enum PoolStep {
    /// Hand out the pooled sampler; when `record` holds, remember the
    /// request's parameters for its identifier first.
    Reuse { record: bool },
    /// The pooled sampler was made from other parameters.
    Collision,
    /// Make a new sampler and pool it.
    Create,
}

/// Whether two parameter lists are the same, pair by pair.
pub fn same_params(a: &Vec<(u32, u32)>, b: &Vec<(u32, u32)>) -> (r: bool)
    ensures
        r == (a@ == b@),
{
    if a.len() != b.len() {
        return false;
    }
    let mut i: usize = 0;
    while i < a.len()
        invariant
            a@.len() == b@.len(),
            0 <= i <= a@.len(),
            forall|j: int| 0 <= j < i ==> #[trigger] a@[j] == b@[j],
        decreases a@.len() - i,
    {
        let x = a[i];
        let y = b[i];
        if x.0 != y.0 || x.1 != y.1 {
            assert(a@[i as int] != b@[i as int]);
            return false;
        }
        i = i + 1;
    }
    assert(a@ =~= b@);
    true
}

/// The decision for a request with parameters `args`: `alive` says whether a
/// sampler pooled under the request's identifier is still alive, `stored`
/// holds the parameters remembered for that identifier.
pub fn pool_step(alive: bool, stored: Option<&Vec<(u32, u32)>>, args: &Vec<(u32, u32)>) -> (r: PoolStep)
    ensures
        !alive ==> r == PoolStep::Create,
        alive && stored is None ==> r == (PoolStep::Reuse { record: true }),
        alive && stored is Some ==> r == (if stored.unwrap()@ == args@ {
            PoolStep::Reuse { record: false }
        } else {
            PoolStep::Collision
        }),
{
    if !alive {
        return PoolStep::Create;
    }
    match stored {
        None => PoolStep::Reuse { record: true },
        Some(p) => {
            if same_params(p, args) {
                PoolStep::Reuse { record: false }
            } else {
                PoolStep::Collision
            }
        },
    }
}

} // verus!
