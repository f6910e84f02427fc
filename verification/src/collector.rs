//! What every collector shares: the record of how far it has read.

use vstd::prelude::*;
use crate::text::owned;

verus! {

/// Where a collector keeps its read position: the collector's name and the
/// archive database that stores the position. Reading and writing the
/// position are storage operations of the caller.
pub struct OffsetTracker {
    collector_name: String,
    db_path: String,
}

impl OffsetTracker {
    /// The collector's name, under which its position is stored.
    pub closed spec fn name_view(&self) -> Seq<char> {
        self.collector_name@
    }

    /// The database path, as text.
    pub closed spec fn path_view(&self) -> Seq<char> {
        self.db_path@
    }

    /// A tracker for a collector and a database.
    pub fn new(collector_name: String, db_path: String) -> (t: OffsetTracker)
        ensures
            t.name_view() == collector_name@,
            t.path_view() == db_path@,
    {
        OffsetTracker { collector_name, db_path }
    }

    /// The database path.
    pub fn db_path(&self) -> (p: &str)
        ensures
            p@ == self.path_view(),
    {
        self.db_path.as_str()
    }

    /// The collector's name.
    pub fn collector_name(&self) -> (n: &str)
        ensures
            n@ == self.name_view(),
    {
        self.collector_name.as_str()
    }

    /// A tracker for the same database under another collector name.
    pub fn renamed(&self, collector_name: String) -> (t: OffsetTracker)
        ensures
            t.name_view() == collector_name@,
            t.path_view() == self.path_view(),
    {
        OffsetTracker { collector_name, db_path: owned(self.db_path.as_str()) }
    }
}

} // verus!
