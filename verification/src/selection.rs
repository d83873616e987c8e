//! What plays next: one of the rows that may, picked at random.

use crate::queue::lemma_candidates;
use crate::request::{request_views, Request};
use crate::store::RequestStore;
use vstd::prelude::*;

verus! {

/// Nothing is left to play.
#[derive(Clone, Copy, Debug, PartialEq, Eq, Structural)]
pub struct NotFound;

/// Picks one of `requests` at random through the rand crate:
/// `SliceRandom::choose` on the slice, with the generator that `thread_rng`
/// gives.
///
/// Trusted, not proved: an empty slice gives nothing, any other gives one of
/// its elements. Which one is left open, so callers are verified for every
/// pick. `thread_rng` gives up where the system cannot seed it.
#[verifier::external_body]
fn pick_at_random<'a>(requests: &'a Vec<Request>) -> (r: Option<&'a Request>)
    ensures
        r is None <==> requests@.len() == 0,
        r matches Some(picked) ==> requests@.contains(*picked),
{
    rand::seq::SliceRandom::choose(requests.as_slice(), &mut rand::thread_rng())
}

/// The outcome of a selection for what was picked among the candidates: the
/// pick itself, or `NotFound` where nothing could be picked.
pub fn selection_of(picked: Option<&Request>) -> (r: Result<Request, NotFound>)
    ensures
        match picked {
            Some(request) => r == Ok::<Request, NotFound>(*request),
            None => r is Err,
        },
{
    match picked {
        Some(request) => Ok(request.clone()),
        None => Err(NotFound),
    }
}

/// Selects the request to play next: one of the unplayed rows of the lowest
/// rank among the unplayed rows, picked at random with equal chances. There
/// is nothing to select exactly when every row is played.
pub fn select_next(store: &RequestStore) -> (r: Result<Request, NotFound>)
    ensures
        r is Err <==> store@.all_played(),
        r matches Ok(request) ==> store@.candidates().contains(request@) && store@.rows.contains(
            request@,
        ) && store@.eligible(request@),
{
    let candidates = store.candidates_for_next();
    proof {
        lemma_candidates(store@);
    }
    let picked = pick_at_random(&candidates);
    proof {
        if let Some(request) = picked {
            let i = choose|i: int| 0 <= i < candidates@.len() && candidates@[i] == *request;
            assert(request_views(candidates@)[i] == request@);
        }
    }
    selection_of(picked)
}

} // verus!
