use vstd::prelude::*;

verus! {

/// Relies on rand::random::<bool> for one unbiased coin flip. Nothing is
/// promised of the outcome: everything proved of the engine holds for
/// every sequence of draws.
#[verifier::external_body]
pub(crate) fn random_cell() -> bool {
    rand::random()
}

} // verus!
