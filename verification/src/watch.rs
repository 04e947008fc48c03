//! The hot-reload watcher's debounce logic.  The watcher remembers the
//! last seen modification time; a poll reloads only when a newer time has
//! moved at least the debounce threshold past it, and only a successful
//! reload advances the remembered time.

use vstd::prelude::*;

verus! {

/// A watcher's memory between polls: the modification time of the last
/// snapshot it loaded.
pub struct WatcherState {
    pub last_mtime: u64,
}

/// Whether a polled modification time asks for a reload.
pub open spec fn reload_due(last: u64, stat: Option<u64>, debounce: u64) -> bool {
    match stat {
        Some(m) => m >= last && m - last >= debounce,
        None => false,
    }
}

impl WatcherState {
    /// Starts watching: the first stat must succeed, else the watcher
    /// cannot run at all.
    pub fn start(stat: Option<u64>) -> (r: Result<WatcherState, ()>)
        ensures
            match r {
                Ok(w) => stat matches Some(m) && w.last_mtime == m,
                Err(_) => stat is None,
            },
    {
        match stat {
            Some(m) => Ok(WatcherState { last_mtime: m }),
            None => Err(()),
        }
    }

    /// One poll: whether the freshly-read modification time asks for a
    /// reload.  A failed stat never does, and the state never changes here.
    pub fn poll(&self, stat: Option<u64>, debounce: u64) -> (r: bool)
        ensures
            r == reload_due(self.last_mtime, stat, debounce),
    {
        match stat {
            Some(m) => m >= self.last_mtime && m - self.last_mtime >= debounce,
            None => false,
        }
    }

    /// Records a reload that succeeded; a failed reload leaves the state
    /// as it was, so the change is seen again on the next poll.
    pub fn reload_done(&mut self, mtime: u64)
        ensures
            final(self).last_mtime == mtime,
    {
        self.last_mtime = mtime;
    }
}

/// A change past the threshold triggers the reload, and once the reload
/// has been recorded the same modification time triggers no second one.
pub proof fn law_debounce_once(last: u64, m: u64, debounce: u64)
    requires
        debounce > 0,
        m >= last,
        m - last >= debounce,
    ensures
        reload_due(last, Some(m), debounce),
        !reload_due(m, Some(m), debounce),
{
}

/// A touch below the threshold triggers nothing.
pub proof fn law_debounce_below(last: u64, m: u64, debounce: u64)
    requires
        m < last || m - last < debounce,
    ensures
        !reload_due(last, Some(m), debounce),
{
}

} // verus!
