//! The commands that only read the registry.

use vstd::prelude::*;
use crate::events::{EventView, ServerEvent};
use crate::keyed::values;
use crate::state::{by_update, recent_cwds_of, SessionState};
use crate::text::views;

verus! {

/// The number of working directories that are listed when none is asked
/// for.
pub const DEFAULT_RECENT_CWDS: usize = 8;

/// The number of working directories that are listed at most.
pub const MAX_RECENT_CWDS: usize = 20;

/// The number of working directories to list where `limit` are asked for:
/// 8 where none is, and never fewer than 1 or more than 20.
pub open spec fn clamped_limit(limit: Option<usize>) -> nat {
    let wanted = match limit {
        Some(n) => n,
        None => DEFAULT_RECENT_CWDS,
    };
    if wanted < 1 {
        1
    } else if wanted > MAX_RECENT_CWDS {
        MAX_RECENT_CWDS as nat
    } else {
        wanted as nat
    }
}

/// The event that lists the sessions, in rising order of their last
/// change.
pub fn session_list(state: &SessionState) -> (r: ServerEvent)
    ensures
        r@ == (EventView::SessionList { sessions: by_update(values(state.sessions())) }),
{
    ServerEvent::SessionList { sessions: state.list_sessions() }
}

/// The working directories of the sessions, most recently changed first,
/// each once: as many as asked for, within 1 and 20, or 8.
pub fn recent_cwds(state: &SessionState, limit: Option<usize>) -> (r: Vec<String>)
    ensures
        views(r@) == recent_cwds_of(by_update(values(state.sessions())), clamped_limit(limit)),
        views(r@).no_duplicates(),
        r@.len() <= clamped_limit(limit),
{
    let wanted = match limit {
        Some(n) => n,
        None => DEFAULT_RECENT_CWDS,
    };
    let limit = if wanted < 1 {
        1
    } else if wanted > MAX_RECENT_CWDS {
        MAX_RECENT_CWDS
    } else {
        wanted
    };
    state.list_recent_cwds(limit)
}

} // verus!
