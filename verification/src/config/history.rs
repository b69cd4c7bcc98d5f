//! The record of configuration changes.

use vstd::prelude::*;

verus! {

/// What caused a configuration change.
#[derive(Debug, Clone, PartialEq)]
pub enum ChangeSource {
    /// Changed by hand.
    Manual { operator: String },
    /// Found by polling.
    Poll,
    /// Found by watching the file.
    Watch,
    /// Changed through the API.
    Api,
    /// Reloaded.
    Reload,
    /// Rolled back to an earlier version.
    Rollback { target_version: String },
}

/// One configuration change.
#[derive(Debug, Clone, PartialEq)]
pub struct ConfigChangeRecord {
    /// When it happened, in milliseconds since the Unix epoch.
    pub timestamp_millis: i64,
    /// Version before, if there was a configuration before.
    pub old_version: Option<String>,
    /// Version after.
    pub new_version: String,
    /// Fingerprint before, if there was a configuration before.
    pub old_hash: Option<String>,
    /// Fingerprint after.
    pub new_hash: String,
    /// What caused it.
    pub source: ChangeSource,
    /// What changed, in words.
    pub changes: Vec<String>,
}

/// The most recent changes, oldest first, at most a fixed number of them.
#[derive(Debug, Clone)]
pub struct ConfigHistory {
    records: Vec<ConfigChangeRecord>,
    max_records: usize,
}

/// The records kept after adding one to `records` with room for `max`: the
/// oldest is dropped when the list grows beyond `max`.
pub open spec fn spec_add_record(records: Seq<ConfigChangeRecord>, r: ConfigChangeRecord, max: usize) -> Seq<ConfigChangeRecord> {
    let s = records.push(r);
    if s.len() > max {
        s.drop_first()
    } else {
        s
    }
}

impl View for ConfigHistory {
    type V = Seq<ConfigChangeRecord>;

    closed spec fn view(&self) -> Seq<ConfigChangeRecord> {
        self.records@
    }
}

impl ConfigHistory {
    /// The room of the history.
    pub closed spec fn capacity(&self) -> usize {
        self.max_records
    }

    /// An empty history with room for `max_records` records.
    pub fn new(max_records: usize) -> (r: Self)
        ensures
            r@ == Seq::<ConfigChangeRecord>::empty(),
            r.capacity() == max_records,
    {
        ConfigHistory { records: Vec::new(), max_records }
    }

    /// The room of the history.
    pub fn max_records(&self) -> (r: usize)
        ensures
            r == self.capacity(),
    {
        self.max_records
    }

    /// Appends a record, dropping the oldest when there is no room.
    pub fn add_record(&mut self, record: ConfigChangeRecord)
        ensures
            final(self)@ == spec_add_record(old(self)@, record, old(self).capacity()),
            final(self).capacity() == old(self).capacity(),
    {
        let ghost before = self.records@;
        self.records.push(record);
        if self.records.len() > self.max_records {
            self.records.remove(0);
            assert(self.records@ =~= before.push(record).drop_first());
        }
    }

    /// The records, oldest first.
    pub fn get_records(&self) -> (r: &[ConfigChangeRecord])
        ensures
            r@ == self@,
    {
        self.records.as_slice()
    }

    /// The newest record.
    pub fn get_latest(&self) -> (r: Option<&ConfigChangeRecord>)
        ensures
            self@.len() == 0 ==> r is None,
            self@.len() > 0 ==> r == Some(&self@.last()),
    {
        if self.records.len() == 0 {
            None
        } else {
            Some(&self.records[self.records.len() - 1])
        }
    }

    /// Forgets every record.
    pub fn clear(&mut self)
        ensures
            final(self)@ == Seq::<ConfigChangeRecord>::empty(),
            final(self).capacity() == old(self).capacity(),
    {
        self.records.clear();
    }
}

impl Default for ConfigHistory {
    fn default() -> (r: Self)
        ensures
            r@ == Seq::<ConfigChangeRecord>::empty(),
            r.capacity() == 100,
    {
        ConfigHistory::new(100)
    }
}

/// A history never holds more records than its room allows (once it fits),
/// and the record just added is the newest whenever there is any room.
pub proof fn law_history_bounded(records: Seq<ConfigChangeRecord>, r: ConfigChangeRecord, max: usize)
    requires
        records.len() <= max,
    ensures
        spec_add_record(records, r, max).len() <= max,
        max > 0 ==> spec_add_record(records, r, max).last() == r,
        max > 0 && records.len() < max ==> spec_add_record(records, r, max) == records.push(r),
{
}


/// The records kept after adding each of `rs`, in order, to `records` with
/// room for `max`.
pub open spec fn spec_add_records(
    records: Seq<ConfigChangeRecord>,
    rs: Seq<ConfigChangeRecord>,
    max: usize,
) -> Seq<ConfigChangeRecord>
    decreases rs.len(),
{
    if rs.len() == 0 {
        records
    } else {
        spec_add_records(spec_add_record(records, rs[0], max), rs.drop_first(), max)
    }
}

/// The newest `max` records of `s` (all of them when there are no more).
pub open spec fn newest(s: Seq<ConfigChangeRecord>, max: usize) -> Seq<ConfigChangeRecord> {
    if s.len() > max {
        s.skip(s.len() - max)
    } else {
        s
    }
}

/// However many records are added to a history that fits its room, it keeps
/// exactly the newest of all it was given, as many as its room allows, in
/// the order they came; with any room at all, the record added last is the
/// newest.
pub proof fn law_history_keeps_newest(
    records: Seq<ConfigChangeRecord>,
    rs: Seq<ConfigChangeRecord>,
    max: usize,
)
    requires
        records.len() <= max,
    ensures
        spec_add_records(records, rs, max) == newest(records + rs, max),
        spec_add_records(records, rs, max).len() <= max,
        max > 0 && rs.len() > 0 ==> spec_add_records(records, rs, max).last() == rs.last(),
    decreases rs.len(),
{
    if rs.len() == 0 {
        assert(records + rs =~= records);
    } else {
        let r1 = spec_add_record(records, rs[0], max);
        let rest = rs.drop_first();
        law_history_keeps_newest(r1, rest, max);
        let y = records + rs;
        let x = records.push(rs[0]);
        assert(x + rest =~= y);
        if x.len() > max {
            assert(r1 + rest =~= y.skip(1));
            if y.len() - 1 > max {
                assert(newest(r1 + rest, max) =~= y.skip(y.len() - max));
            } else {
                assert(y.len() - max == 1);
            }
        } else {
            assert(r1 + rest =~= y);
        }
        if max > 0 {
            assert(y.last() == rs.last());
        }
    }
}

} // verus!
