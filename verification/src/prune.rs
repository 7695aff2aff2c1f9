//! Removing what is no longer useful.

use crate::effects::Step;
use crate::repos::RepositoryStore;
use crate::session_ops;
use crate::session_ops::{PruneSessions, SessionStore};
use vstd::prelude::*;

verus! {

/// What can be pruned.
pub struct PruneStore {
    pub sessions: SessionStore,
}

impl PruneStore {
    /// What can be pruned of the given repositories.
    pub fn open(repos: RepositoryStore) -> (r: Self)
        ensures
            r.sessions.repos@ == repos@,
    {
        PruneStore { sessions: SessionStore::open(repos) }
    }

    /// Begins to remove the sessions that have ended.
    pub fn sessions(&self) -> (r: Step<PruneSessions, usize>)
        ensures
            r@ == session_ops::prune_listed(
                self.sessions.repos@,
                session_ops::list_sessions_start(self.sessions.repos@, None),
            ),
    {
        self.sessions.prune_terminal_sessions()
    }
}

} // verus!
