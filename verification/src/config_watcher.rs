//! Watching a configuration file for changes.
//!
//! The watcher's state and every decision it takes live here: whether it may
//! start and which watching tasks it then runs, which file events call for a
//! check, and what a check records. Reading the file, computing its hash,
//! sleeping between polls and calling back are left to the caller, which
//! hands each outcome to these functions.

use vstd::prelude::*;
use crate::config::flow::{spec_diff, FlowControlConfig};
use crate::config::history::{spec_add_record, ChangeSource, ConfigChangeRecord, ConfigHistory};
use crate::text::str_eq;
use crate::time::Duration;

verus! {

/// How a watcher notices changes.
#[derive(Debug, Clone, Copy, PartialEq, Eq, Structural)]
pub enum WatchMode {
    /// By reading the file at a fixed interval.
    Poll,
    /// By file system events.
    Watch,
    /// Both.
    Hybrid,
}

impl Default for WatchMode {
    fn default() -> (r: Self)
        ensures
            r == WatchMode::Poll,
    {
        WatchMode::Poll
    }
}

/// The kind of a file system event, as far as the watcher tells kinds apart.
#[derive(Debug, Clone, Copy, PartialEq, Eq, Structural)]
pub enum FileEventKind {
    /// The file was created.
    Create,
    /// The file was modified.
    Modify,
    /// Anything else: access, removal, and so on.
    Other,
}

/// Whether an event calls for a check: creating or modifying the file does.
pub fn should_check(kind: FileEventKind) -> (r: bool)
    ensures
        r == (kind == FileEventKind::Create || kind == FileEventKind::Modify),
{
    match kind {
        FileEventKind::Create | FileEventKind::Modify => true,
        FileEventKind::Other => false,
    }
}

/// The source recorded for a change that a task of the given mode found:
/// a file-event task records `Watch`, every other task `Poll`.
pub open spec fn spec_change_source(task_mode: WatchMode) -> ChangeSource {
    if task_mode == WatchMode::Watch {
        ChangeSource::Watch
    } else {
        ChangeSource::Poll
    }
}

/// The source recorded for a change that a task of the given mode found.
pub fn change_source(task_mode: WatchMode) -> (r: ChangeSource)
    ensures
        r == spec_change_source(task_mode),
{
    if task_mode == WatchMode::Watch {
        ChangeSource::Watch
    } else {
        ChangeSource::Poll
    }
}

/// The tasks a watcher of the given mode runs, by the mode each task works in.
pub open spec fn spec_tasks(mode: WatchMode) -> Seq<WatchMode> {
    match mode {
        WatchMode::Poll => seq![WatchMode::Poll],
        WatchMode::Watch => seq![WatchMode::Watch],
        WatchMode::Hybrid => seq![WatchMode::Poll, WatchMode::Watch],
    }
}

/// The number of records a watcher keeps.
pub const WATCHER_HISTORY_CAPACITY: usize = 100;

/// The message of a watcher asked to start while it runs.
pub open spec fn already_running_message() -> Seq<char> {
    "配置监视器已在运行"@
}

/// The abstract state of a watcher.
pub struct WatcherView {
    pub config_path: Option<Seq<char>>,
    pub poll_interval: nat,
    pub current_version: Seq<char>,
    pub current_hash: Seq<char>,
    pub history: Seq<ConfigChangeRecord>,
    pub history_capacity: usize,
    pub running: bool,
    pub watch_mode: WatchMode,
}

/// A watcher of one configuration file: the version and hash it last saw,
/// the changes it recorded, and whether it runs.
#[derive(Debug)]
pub struct ConfigWatcher {
    config_path: Option<String>,
    poll_interval: Duration,
    current_version: String,
    current_hash: String,
    history: ConfigHistory,
    running: bool,
    watch_mode: WatchMode,
}

impl View for ConfigWatcher {
    type V = WatcherView;

    closed spec fn view(&self) -> WatcherView {
        WatcherView {
            config_path: match self.config_path {
                Some(p) => Some(p@),
                None => None,
            },
            poll_interval: self.poll_interval@,
            current_version: self.current_version@,
            current_hash: self.current_hash@,
            history: self.history@,
            history_capacity: self.history.capacity(),
            running: self.running,
            watch_mode: self.watch_mode,
        }
    }
}

impl ConfigWatcher {
    /// A stopped watcher of the file at `config_path` that has seen nothing
    /// yet, polling at `poll_interval` when its mode polls.
    pub fn new(config_path: Option<String>, poll_interval: Duration, watch_mode: WatchMode) -> (r: Self)
        ensures
            r@.config_path == (match config_path {
                Some(p) => Some(p@),
                None => None::<Seq<char>>,
            }),
            r@.poll_interval == poll_interval@,
            r@.current_version == Seq::<char>::empty(),
            r@.current_hash == Seq::<char>::empty(),
            r@.history == Seq::<ConfigChangeRecord>::empty(),
            r@.history_capacity == WATCHER_HISTORY_CAPACITY,
            !r@.running,
            r@.watch_mode == watch_mode,
    {
        ConfigWatcher {
            config_path,
            poll_interval,
            current_version: String::new(),
            current_hash: String::new(),
            history: ConfigHistory::new(WATCHER_HISTORY_CAPACITY),
            running: false,
            watch_mode,
        }
    }

    /// The file watched.
    pub fn config_path(&self) -> (r: Option<&str>)
        ensures
            match r {
                Some(p) => self@.config_path == Some(p@),
                None => self@.config_path is None,
            },
    {
        match &self.config_path {
            Some(p) => Some(p.as_str()),
            None => None,
        }
    }

    /// The polling interval.
    pub fn poll_interval(&self) -> (r: Duration)
        ensures
            r@ == self@.poll_interval,
    {
        self.poll_interval
    }

    /// The mode of the watcher.
    pub fn watch_mode(&self) -> (r: WatchMode)
        ensures
            r == self@.watch_mode,
    {
        self.watch_mode
    }

    /// Starts the watcher: refused while it runs; otherwise it runs from now
    /// on, and the answer lists the tasks to launch, by the mode each works in.
    pub fn start(&mut self) -> (r: Result<Vec<WatchMode>, String>)
        ensures
            old(self)@.running ==> {
                &&& r matches Err(m) && m@ == already_running_message()
                &&& final(self)@ == old(self)@
            },
            !old(self)@.running ==> {
                &&& r matches Ok(tasks) && tasks@ == spec_tasks(old(self)@.watch_mode)
                &&& final(self)@ == (WatcherView { running: true, ..old(self)@ })
            },
    {
        if self.running {
            return Err(String::from_str("配置监视器已在运行"));
        }
        self.running = true;
        let mut tasks: Vec<WatchMode> = Vec::new();
        match self.watch_mode {
            WatchMode::Poll => tasks.push(WatchMode::Poll),
            WatchMode::Watch => tasks.push(WatchMode::Watch),
            WatchMode::Hybrid => {
                tasks.push(WatchMode::Poll);
                tasks.push(WatchMode::Watch);
            },
        }
        assert(tasks@ =~= spec_tasks(self.watch_mode));
        Ok(tasks)
    }

    /// Stops the watcher; its tasks end at their next look at it.
    pub fn stop(&mut self)
        ensures
            final(self)@ == (WatcherView { running: false, ..old(self)@ }),
    {
        self.running = false;
    }

    /// Whether the watcher runs.
    pub fn is_running(&self) -> (r: bool)
        ensures
            r == self@.running,
    {
        self.running
    }

    /// Records a check by a task of mode `task_mode` that read `new_config`,
    /// whose hash is `new_hash`. The configuration has changed when that hash
    /// differs from the last one seen; then the watcher keeps the new hash
    /// and version and records the change against `previous` (the
    /// configuration read again for comparison, with its hash) at
    /// `timestamp_millis`. The answer says whether it changed, and so whether
    /// to call back.
    pub fn record_check(
        &mut self,
        task_mode: WatchMode,
        new_config: &FlowControlConfig,
        new_hash: String,
        previous: Option<&FlowControlConfig>,
        previous_hash: Option<String>,
        timestamp_millis: i64,
    ) -> (changed: bool)
        ensures
            changed == (old(self)@.current_hash != new_hash@),
            !changed ==> final(self)@ == old(self)@,
            changed ==> exists|rec: ConfigChangeRecord| #![trigger after_change(old(self)@, new_config.version@, new_hash@, rec)] {
                &&& rec.timestamp_millis == timestamp_millis
                &&& rec.new_version@ == new_config.version@
                &&& rec.new_hash == new_hash
                &&& rec.old_hash == previous_hash
                &&& rec.source == spec_change_source(task_mode)
                &&& match previous {
                    Some(o) => rec.old_version matches Some(v) && v@ == o.version@
                        && crate::text::strings_view(rec.changes@) == spec_diff(*new_config, *o),
                    None => rec.old_version is None && crate::text::strings_view(rec.changes@)
                        == seq!["初始配置"@],
                }
                &&& final(self)@ == after_change(old(self)@, new_config.version@, new_hash@, rec)
            },
    {
        if str_eq(self.current_hash.as_str(), new_hash.as_str()) {
            return false;
        }
        let source = change_source(task_mode);
        let record = new_config.create_change_record(
            previous,
            source,
            timestamp_millis,
            new_hash.clone(),
            previous_hash,
        );
        let ghost rec = record;
        self.current_hash = new_hash;
        self.current_version = new_config.version.clone();
        self.history.add_record(record);
        assert(self@ == after_change(old(self)@, new_config.version@, self.current_hash@, rec));
        true
    }

    /// The recorded changes, oldest first.
    pub fn get_history(&self) -> (r: &[ConfigChangeRecord])
        ensures
            r@ == self@.history,
    {
        self.history.get_records()
    }

    /// The version last seen.
    pub fn get_current_version(&self) -> (r: String)
        ensures
            r@ == self@.current_version,
    {
        self.current_version.clone()
    }

    /// The hash last seen.
    pub fn get_current_hash(&self) -> (r: String)
        ensures
            r@ == self@.current_hash,
    {
        self.current_hash.clone()
    }
}

/// The watcher after a change to a configuration of version `version` and
/// hash `hash`, recorded as `rec`.
pub open spec fn after_change(w: WatcherView, version: Seq<char>, hash: Seq<char>, rec: ConfigChangeRecord) -> WatcherView {
    WatcherView {
        current_version: version,
        current_hash: hash,
        history: spec_add_record(w.history, rec, w.history_capacity),
        ..w
    }
}

/// Once a change is recorded, a check that reads a configuration with the
/// same hash finds no change; and the record is the newest in the history.
pub proof fn law_recheck_finds_no_change(
    w: WatcherView,
    version: Seq<char>,
    hash: Seq<char>,
    rec: ConfigChangeRecord,
)
    requires
        w.history.len() <= w.history_capacity,
        w.history_capacity > 0,
    ensures
        after_change(w, version, hash, rec).current_hash == hash,
        after_change(w, version, hash, rec).history.last() == rec,
        after_change(w, version, hash, rec).history.len() <= w.history_capacity,
{
    crate::config::history::law_history_bounded(w.history, rec, w.history_capacity);
}

} // verus!
