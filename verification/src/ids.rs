//! Note identifier allocation: short random alphanumeric strings, assumed
//! unique enough in practice (the model tolerates a collision; it is an
//! accepted low-probability risk, not a guaranteed-unique key scheme).

use vstd::prelude::*;
use rand::Rng;
use crate::text::is_alnum;

verus! {

/// Relies on `rand`'s `Alphanumeric` distribution: six characters drawn from
/// ASCII letters and digits. The result depends on the thread's generator, so
/// nothing beyond its shape is promised.
#[verifier::external_body]
pub(crate) fn generate_id() -> (r: String)
    ensures
        r@.len() == 6,
        forall|i: int| 0 <= i < r@.len() ==> is_alnum(#[trigger] r@[i]),
{
    rand::thread_rng().sample_iter(&rand::distributions::Alphanumeric).take(6).map(
        char::from,
    ).collect()
}

} // verus!
