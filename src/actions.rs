//! The context shared by the action handlers.
use vstd::prelude::*;

verus! {

/// What every action handler works with: the store, the repository and the timeseries
/// gateway, each of whatever type the server provides.
pub struct ActionContext<S, R, G> {
    pub store: S,
    pub repo: R,
    pub ts_gw: G,
}

impl<S, R, G> ActionContext<S, R, G> {
    /// Bundles the three collaborators.
    pub fn new(store: S, repo: R, ts_gw: G) -> (r: Self)
        ensures
            r.store == store,
            r.repo == repo,
            r.ts_gw == ts_gw,
    {
        Self { store, repo, ts_gw }
    }
}

} // verus!
