//! The world configuration of the simulation and the bookkeeping that decides when a
//! configuration file is read again.

use vstd::prelude::*;

verus! {

/// How the grid treats coordinates that fall outside of it.
///
/// On a torus the pheromone levels blur into the opposite edge; on a plane they are clipped at
/// the edge.
#[derive(Clone, Copy, Debug, PartialEq, Eq, Structural)]
pub enum GridTopology {
    /// Opposite edges are joined: an outside coordinate wraps around.
    Torus,
    /// The grid ends at its edges: an outside coordinate is clamped to the nearest edge.
    Plane,
}

/// Configuration of the world the simulation runs in: what the outermost cells are held at,
/// the grid's topology, and how much of each cell's value remains from one step to the next.
pub struct WorldConfig<T, D> {
    /// Value for the outermost rows and columns, if they are held at one.
    pub wall_value: Option<T>,
    /// How the edges of the grid are treated.
    pub topology: GridTopology,
    /// How much of each cell's value remains after each step.
    pub decay_factor: D,
}

/// Minimal time between two looks at the configuration file, in nanoseconds.
pub const POLL_INTERVAL_NANOS: u64 = 1_000_000_000;

/// Whether a poll at `now` looks at the file, given the modification time of the last
/// successful load and the time of the last look.
pub open spec fn spec_poll_due(modified: Option<u64>, timestamp: u64, now: u64) -> bool {
    modified is Some && now - timestamp >= POLL_INTERVAL_NANOS
}

/// Whether a file modified at `modified_new` is newer than the loaded one.
pub open spec fn spec_is_update(modified: Option<u64>, modified_new: u64) -> bool {
    match modified {
        Some(loaded) => modified_new > loaded,
        None => false,
    }
}

/// Remembers which configuration file was loaded and when, and decides when to look at it
/// again. Times are nanoseconds: modification times on the file system's clock, and the other
/// times on a monotonic clock.
pub struct ConfigWatcher {
    /// Path of the configuration file; empty while none was loaded.
    path: String,
    /// Modification time of the file at the last successful load; `None` while none was loaded,
    /// and the watcher does not look for updates then.
    modified: Option<u64>,
    /// Time of the last successful load or look at the file.
    timestamp: u64,
}

impl ConfigWatcher {
    /// Path of the configuration file.
    pub closed spec fn spec_path(&self) -> Seq<char> {
        self.path@
    }

    /// Modification time of the loaded file.
    pub closed spec fn spec_modified(&self) -> Option<u64> {
        self.modified
    }

    /// Time of the last successful load or look at the file.
    pub closed spec fn spec_timestamp(&self) -> u64 {
        self.timestamp
    }

    /// A watcher without a configuration file, created at `now`.
    pub fn new(now: u64) -> (watcher: Self)
        ensures
            watcher.spec_path() == Seq::<char>::empty(),
            watcher.spec_modified() is None,
            watcher.spec_timestamp() == now,
    {
        ConfigWatcher { path: String::new(), modified: None, timestamp: now }
    }

    /// Path of the configuration file.
    pub fn path(&self) -> (path: &str)
        ensures
            path@ == self.spec_path(),
    {
        self.path.as_str()
    }

    /// Records that the configuration file at `path` was read and parsed at `now`. Where its
    /// modification time could be read, the watcher watches it from then on.
    pub fn record_load(&mut self, path: String, modified: Option<u64>, now: u64)
        ensures
            final(self).spec_path() == path@,
            final(self).spec_modified() == if modified is Some {
                modified
            } else {
                old(self).spec_modified()
            },
            final(self).spec_timestamp() == if modified is Some {
                now
            } else {
                old(self).spec_timestamp()
            },
    {
        if let Some(modified) = modified {
            self.modified = Some(modified);
            self.timestamp = now;
        }
        self.path = path;
    }

    /// Decides at `now` whether to look at the configuration file again: only once a file was
    /// loaded, and at most once per `POLL_INTERVAL_NANOS`. A look resets the interval.
    pub fn poll_due(&mut self, now: u64) -> (due: bool)
        ensures
            due == spec_poll_due(old(self).spec_modified(), old(self).spec_timestamp(), now),
            final(self).spec_timestamp() == if due {
                now
            } else {
                old(self).spec_timestamp()
            },
            final(self).spec_modified() == old(self).spec_modified(),
            final(self).spec_path() == old(self).spec_path(),
    {
        if self.modified.is_none() {
            return false;
        }
        if now.saturating_sub(self.timestamp) < POLL_INTERVAL_NANOS {
            return false;
        }
        self.timestamp = now;
        true
    }

    /// Whether a file modified at `modified_new` should be loaded again.
    pub fn is_update(&self, modified_new: u64) -> (update: bool)
        ensures
            update == spec_is_update(self.spec_modified(), modified_new),
    {
        match self.modified {
            Some(modified) => modified_new > modified,
            None => false,
        }
    }

    /// Records that the file, modified at `modified_new`, was loaded again.
    pub fn record_update(&mut self, modified_new: u64)
        ensures
            final(self).spec_modified() == Some(modified_new),
            final(self).spec_timestamp() == old(self).spec_timestamp(),
            final(self).spec_path() == old(self).spec_path(),
    {
        self.modified = Some(modified_new);
    }
}

/// The file is looked at no more than once per interval: after a look at `first`, a poll
/// before `first + POLL_INTERVAL_NANOS` does not look.
pub proof fn lemma_poll_at_most_once_per_interval(modified: Option<u64>, first: u64, second: u64)
    requires
        first <= second,
        second < first + POLL_INTERVAL_NANOS,
    ensures
        !spec_poll_due(modified, first, second),
{
}

/// Once a file was loaded, the watcher looks at it again exactly when a full interval has
/// passed since the last look: a poll at least `POLL_INTERVAL_NANOS` after it is due, an
/// earlier one is not.
pub proof fn lemma_poll_due_after_interval(loaded: u64, timestamp: u64, now: u64)
    ensures
        spec_poll_due(Some(loaded), timestamp, now) <==> now >= timestamp + POLL_INTERVAL_NANOS,
{
}

/// A file counts as updated exactly when it was modified after the loaded version, and
/// never before a first successful load.
pub proof fn lemma_update_is_newer_version(loaded: u64, modified_new: u64)
    ensures
        spec_is_update(Some(loaded), modified_new) <==> modified_new > loaded,
        !spec_is_update(None, modified_new),
{
}

/// Without a successful load the watcher never looks at a file.
pub proof fn lemma_no_poll_before_load(timestamp: u64, now: u64)
    ensures
        !spec_poll_due(None, timestamp, now),
{
}

/// Once a version of the file is loaded, neither it nor an older one counts as an update.
pub proof fn lemma_loaded_version_is_no_update(loaded: u64, modified_new: u64)
    requires
        modified_new <= loaded,
    ensures
        !spec_is_update(Some(loaded), modified_new),
{
}

} // verus!
