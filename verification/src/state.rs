//! The state that every handler shares.

use vstd::prelude::*;
use crate::config::Config;

verus! {

/// The bundle that is made once, after the migrations, and handed to every
/// handler: the persistence handle and the configuration. Nothing in it
/// changes afterwards; the handle synchronises its own use.
pub struct AppState<P> {
    pub db: P,
    pub config: Config,
}

impl<P> AppState<P> {
    /// Bundles the handle and the configuration. This cannot fail.
    pub fn new(db: P, config: Config) -> (state: AppState<P>)
        ensures
            state.db == db,
            state.config == config,
    {
        AppState { db, config }
    }
}

} // verus!
