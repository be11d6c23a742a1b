//! Mock boot environment
//!
//! Keeps its variables in memory and fails on demand.

use vstd::prelude::*;
use vstd::string::*;

use crate::bootloader::{BootEnv, BootEnvKey, EnvDone, EnvRead, EnvRecord, EnvResult, FsckRecord};
use crate::error::BootEnvError;
use crate::filesystem::FsckExitCode;
use crate::map::OrderedMap;
use crate::partition::layout::text_values;
use crate::partition::PartitionName;
use crate::system::{Session, Stop, Transcript};

verus! {

/// Create a mock boot environment for testing
pub fn create_mock_bootloader() -> (r: MockBootEnv)
    ensures
        r@ == MockView::empty(),
{
    MockBootEnv::new()
}

/// Mock boot environment for testing
pub struct MockBootEnv {
    env: OrderedMap<String, String>,
    /// fsck results stored as typed records.
    fsck: OrderedMap<PartitionName, FsckRecord>,
    /// Keys passed to set_env, in call order. Used by tests to verify set_env was/wasn't called.
    pub set_env_calls: Vec<BootEnvKey>,
    /// When true, `get_env` returns an error instead of looking up the key.
    get_env_errors: bool,
    /// When set, `get_env` succeeds for this many calls, then errors. Lets a
    /// test reach the read-back path: first read ok, read-back fails.
    get_env_ok_calls: Option<usize>,
    /// Count of `get_env` calls seen, for `get_env_ok_calls`.
    get_env_seen: usize,
    /// When true, `set_env` returns an error instead of setting the key.
    set_env_errors: bool,
    /// When set, `set_env` stores this fixed value instead of the given one,
    /// simulating a bootloader tool that normalizes the written value.
    set_env_normalize: Option<String>,
}

/// What a mock boot environment holds.
pub struct MockView {
    pub env: Map<Seq<char>, Seq<char>>,
    pub fsck: Map<PartitionName, (FsckExitCode, Seq<char>)>,
    pub set_env_calls: Seq<BootEnvKey>,
    pub get_env_errors: bool,
    pub get_env_ok_calls: Option<usize>,
    pub get_env_seen: usize,
    pub set_env_errors: bool,
    pub set_env_normalize: Option<Seq<char>>,
}

impl MockView {
    pub open spec fn empty() -> Self {
        MockView {
            env: Map::empty(),
            fsck: Map::empty(),
            set_env_calls: Seq::empty(),
            get_env_errors: false,
            get_env_ok_calls: None,
            get_env_seen: 0,
            set_env_errors: false,
            set_env_normalize: None,
        }
    }

    /// The next read fails.
    pub open spec fn read_fails(self) -> bool {
        self.get_env_errors || (self.get_env_ok_calls is Some && self.get_env_seen
            >= self.get_env_ok_calls->0)
    }

    /// What the next read of `key` answers.
    pub open spec fn answer(self, key: BootEnvKey) -> EnvRead {
        if self.read_fails() {
            Err(Stop::Failed(BootEnvError::CommandFailed { command: "mock"@, reason: "injected error"@ }))
        } else if self.env.dom().contains(key.text()) {
            Ok(Some(self.env[key.text()]))
        } else {
            Ok(None)
        }
    }

    /// The state after a read.
    pub open spec fn after_read(self) -> Self {
        MockView {
            get_env_seen: if self.get_env_seen < usize::MAX {
                (self.get_env_seen + 1) as usize
            } else {
                self.get_env_seen
            },
            ..self
        }
    }

    /// What a write of `value` stores.
    pub open spec fn stored(self, value: Option<Seq<char>>) -> Option<Seq<char>> {
        match self.set_env_normalize {
            Some(forced) => Some(forced),
            None => value,
        }
    }

    /// The state after a write.
    pub open spec fn after_write(self, key: BootEnvKey, value: Option<Seq<char>>) -> Self {
        if self.set_env_errors {
            self
        } else {
            MockView {
                env: match self.stored(value) {
                    Some(v) => self.env.insert(key.text(), v),
                    None => self.env.remove(key.text()),
                },
                set_env_calls: self.set_env_calls.push(key),
                ..self
            }
        }
    }

    /// The state after a fsck record is saved.
    pub open spec fn after_save(self, partition: PartitionName, code: FsckExitCode, output: Seq<char>) -> Self {
        MockView { fsck: self.fsck.insert(partition, (code, output)), ..self }
    }

    /// The state after a fsck record is cleared.
    pub open spec fn after_clear(self, partition: PartitionName) -> Self {
        MockView { fsck: self.fsck.remove(partition), ..self }
    }

    /// What the fsck record of a partition is.
    pub open spec fn record(self, partition: PartitionName) -> EnvRecord {
        Ok(
            if self.fsck.dom().contains(partition) {
                Some(self.fsck[partition])
            } else {
                None
            },
        )
    }

    /// What a write answers.
    pub open spec fn write_answer(self) -> EnvDone {
        if self.set_env_errors {
            Err(Stop::Failed(BootEnvError::CommandFailed { command: "mock"@, reason: "injected set_env error"@ }))
        } else {
            Ok(())
        }
    }
}

impl View for MockBootEnv {
    type V = MockView;

    closed spec fn view(&self) -> MockView {
        MockView {
            env: text_values(self.env@),
            fsck: self.fsck@.map_values(|r: FsckRecord| r@),
            set_env_calls: self.set_env_calls@,
            get_env_errors: self.get_env_errors,
            get_env_ok_calls: self.get_env_ok_calls,
            get_env_seen: self.get_env_seen,
            set_env_errors: self.set_env_errors,
            set_env_normalize: self.set_env_normalize.deep_view(),
        }
    }
}

impl MockBootEnv {
    pub fn new() -> (r: Self)
        ensures
            r@ == MockView::empty(),
    {
        let r = MockBootEnv {
            env: OrderedMap::new(),
            fsck: OrderedMap::new(),
            set_env_calls: Vec::new(),
            get_env_errors: false,
            get_env_ok_calls: None,
            get_env_seen: 0,
            set_env_errors: false,
            set_env_normalize: None,
        };
        assert(r@.env =~= Map::<Seq<char>, Seq<char>>::empty());
        assert(r@.fsck =~= Map::<PartitionName, (FsckExitCode, Seq<char>)>::empty());
        assert(r@.set_env_calls =~= Seq::<BootEnvKey>::empty());
        r
    }

    pub fn with_env(self, key: BootEnvKey, value: &str) -> (r: Self)
        ensures
            r@ == (MockView { env: self@.env.insert(key.text(), value@), ..self@ }),
    {
        let mut r = self;
        r.env.insert(key.to_string(), value.to_owned());
        assert(r@.env =~= self@.env.insert(key.text(), value@));
        r
    }

    pub fn with_get_env_error(self) -> (r: Self)
        ensures
            r@ == (MockView { get_env_errors: true, ..self@ }),
    {
        let mut r = self;
        r.get_env_errors = true;
        r
    }

    pub fn with_get_env_error_after(self, ok_calls: usize) -> (r: Self)
        ensures
            r@ == (MockView { get_env_ok_calls: Some(ok_calls), ..self@ }),
    {
        let mut r = self;
        r.get_env_ok_calls = Some(ok_calls);
        r
    }

    pub fn with_set_env_error(self) -> (r: Self)
        ensures
            r@ == (MockView { set_env_errors: true, ..self@ }),
    {
        let mut r = self;
        r.set_env_errors = true;
        r
    }

    pub fn with_set_env_normalize(self, stored: &str) -> (r: Self)
        ensures
            r@ == (MockView { set_env_normalize: Some(stored@), ..self@ }),
    {
        let mut r = self;
        r.set_env_normalize = Some(stored.to_owned());
        r
    }
}

impl Default for MockBootEnv {
    fn default() -> (r: Self)
        ensures
            r@ == MockView::empty(),
    {
        MockBootEnv::new()
    }
}

fn copy_record(record: &FsckRecord) -> (r: FsckRecord)
    ensures
        r@ == record@,
{
    FsckRecord { exit_code: record.exit_code, output: record.output.clone() }
}

impl BootEnv for MockBootEnv {
    type State = MockView;

    open spec fn state(&self) -> MockView {
        self@
    }

    open spec fn reads(t: Transcript, s: MockView, key: BootEnvKey) -> (Transcript, MockView, EnvRead) {
        (t, s.after_read(), s.answer(key))
    }

    open spec fn writes(t: Transcript, s: MockView, key: BootEnvKey, value: Option<Seq<char>>) -> (
        Transcript,
        MockView,
        EnvDone,
    ) {
        (t, s.after_write(key, value), s.write_answer())
    }

    open spec fn saves(t: Transcript, s: MockView, partition: PartitionName, code: FsckExitCode, output: Seq<char>) -> (
        Transcript,
        MockView,
        EnvDone,
    ) {
        (t, s.after_save(partition, code, output), Ok(()))
    }

    open spec fn recalls(t: Transcript, s: MockView, partition: PartitionName) -> (Transcript, MockView, EnvRecord) {
        (t, s, s.record(partition))
    }

    open spec fn clears(t: Transcript, s: MockView, partition: PartitionName) -> (Transcript, MockView, EnvDone) {
        (t, s.after_clear(partition), Ok(()))
    }

    fn get_env(&mut self, key: BootEnvKey, _sys: &mut Session) -> (r: EnvResult<Option<String>>) {
        let seen: usize = self.get_env_seen;
        if seen < usize::MAX {
            self.get_env_seen = seen + 1;
        }
        let exhausted = match self.get_env_ok_calls {
            Some(ok) => seen >= ok,
            None => false,
        };
        let r = if self.get_env_errors || exhausted {
            Err(
                Stop::Failed(
                    BootEnvError::CommandFailed {
                        command: String::from_str("mock"),
                        reason: String::from_str("injected error"),
                    },
                ),
            )
        } else {
            let name = key.to_string();
            match self.env.get(&name) {
                Some(v) => Ok(Some(v.clone())),
                None => Ok(None),
            }
        };
        r
    }

    fn set_env(&mut self, key: BootEnvKey, value: Option<&str>, _sys: &mut Session) -> (r: EnvResult<()>) {
        if self.set_env_errors {
            return Err(
                Stop::Failed(
                    BootEnvError::CommandFailed {
                        command: String::from_str("mock"),
                        reason: String::from_str("injected set_env error"),
                    },
                ),
            );
        }
        self.set_env_calls.push(key);
        let to_store: Option<String> = match &self.set_env_normalize {
            Some(forced) => Some(forced.clone()),
            None => match value {
                Some(v) => Some(v.to_owned()),
                None => None,
            },
        };
        let name = key.to_string();
        match to_store {
            Some(v) => {
                self.env.insert(name, v);
                assert(self@.env =~= old(self)@.env.insert(key.text(), v@));
            },
            None => {
                self.env.remove(&name);
                assert(self@.env =~= old(self)@.env.remove(key.text()));
            },
        }
        Ok(())
    }

    fn save_fsck_status(&mut self, partition: PartitionName, code: FsckExitCode, output: &str, _sys: &mut Session) -> (r:
        EnvResult<()>) {
        self.fsck.insert(partition, FsckRecord { exit_code: code, output: output.to_owned() });
        assert(self@.fsck =~= old(self)@.fsck.insert(partition, (code, output@)));
        Ok(())
    }

    fn get_fsck_status(&mut self, partition: PartitionName, _sys: &mut Session) -> (r: EnvResult<Option<FsckRecord>>) {
        let r: EnvResult<Option<FsckRecord>> = match self.fsck.get(&partition) {
            Some(record) => Ok(Some(copy_record(record))),
            None => Ok(None),
        };
        r
    }

    fn clear_fsck_status(&mut self, partition: PartitionName, _sys: &mut Session) -> (r: EnvResult<()>) {
        self.fsck.remove(&partition);
        assert(self@.fsck =~= old(self)@.fsck.remove(partition));
        Ok(())
    }
}

/// A read gives back what the last write stored, and nothing after a deletion; other
/// variables keep their values.
pub proof fn law_read_after_write(m: MockView, key: BootEnvKey, value: Option<Seq<char>>, other: BootEnvKey)
    requires
        !m.set_env_errors,
        m.set_env_normalize is None,
        !m.read_fails(),
    ensures
        m.after_write(key, value).answer(key) == EnvRead::Ok(value),
        other != key ==> m.after_write(key, value).answer(other) == m.answer(other),
{
    if other != key {
        crate::bootloader::law_keys_differ(key, other);
    }
}

/// A saved fsck record comes back until it is cleared, and other partitions keep theirs.
pub proof fn law_fsck_records(m: MockView, p: PartitionName, code: FsckExitCode, output: Seq<char>, other: PartitionName)
    ensures
        m.after_save(p, code, output).record(p) == EnvRecord::Ok(Some((code, output))),
        m.after_clear(p).record(p) == EnvRecord::Ok(None),
        other != p ==> m.after_save(p, code, output).record(other) == m.record(other),
        other != p ==> m.after_clear(p).record(other) == m.record(other),
{
}

} // verus!
