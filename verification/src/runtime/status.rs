//! Status information for omnect-device-service

use vstd::prelude::*;
use vstd::string::*;

use crate::filesystem::FsckExitCode;
use crate::json::{
    lemma_put, lemma_texts_plain, opt_json, opt_member, opt_text, opt_text_of, plain, text_list, texts_of, unnamed, Json,
    JsonView, Members,
};
use crate::map::{keys_of, position_in, stands_at, OrderedMap};
use crate::partition::PartitionName;
use crate::system::opt_view;

verus! {

/// Outcome codes for a factory reset operation.
///
/// Written as a plain integer, which is what `omnect-device-service` reads.
#[derive(Debug, Clone, Copy, PartialEq, Eq, Structural)]
pub enum FactoryResetStatusCode {
    Success,
    Invalid,
    Error,
    ConfigError,
    /// The reset succeeded after a partition had to be formatted twice.
    Warning,
}

impl FactoryResetStatusCode {
    /// The number of the code on the wire.
    pub open spec fn number(self) -> i128 {
        match self {
            FactoryResetStatusCode::Success => 0,
            FactoryResetStatusCode::Invalid => 1,
            FactoryResetStatusCode::Error => 2,
            FactoryResetStatusCode::ConfigError => 3,
            FactoryResetStatusCode::Warning => 4,
        }
    }

    pub fn as_number(self) -> (r: i128)
        ensures
            r == self.number(),
    {
        match self {
            FactoryResetStatusCode::Success => 0,
            FactoryResetStatusCode::Invalid => 1,
            FactoryResetStatusCode::Error => 2,
            FactoryResetStatusCode::ConfigError => 3,
            FactoryResetStatusCode::Warning => 4,
        }
    }

    pub open spec fn text(self) -> Seq<char> {
        match self {
            FactoryResetStatusCode::Success => "success"@,
            FactoryResetStatusCode::Invalid => "invalid"@,
            FactoryResetStatusCode::Error => "error"@,
            FactoryResetStatusCode::ConfigError => "config_error"@,
            FactoryResetStatusCode::Warning => "warning"@,
        }
    }

    pub fn to_string(&self) -> (s: String)
        ensures
            s@ == self.text(),
    {
        match self {
            FactoryResetStatusCode::Success => String::from_str("success"),
            FactoryResetStatusCode::Invalid => String::from_str("invalid"),
            FactoryResetStatusCode::Error => String::from_str("error"),
            FactoryResetStatusCode::ConfigError => String::from_str("config_error"),
            FactoryResetStatusCode::Warning => String::from_str("warning"),
        }
    }
}

/// Fsck status for a single partition
#[derive(Debug, Clone)]
pub struct FsckStatus<S = String> {
    /// Exit code from fsck
    pub code: i32,
    /// Output from fsck (may be compressed in bootloader)
    pub output: S,
}

impl View for FsckStatus {
    type V = FsckStatus<Seq<char>>;

    open spec fn view(&self) -> FsckStatus<Seq<char>> {
        FsckStatus { code: self.code, output: self.output@ }
    }
}

/// Reason the boot env was unavailable on this boot.
///
/// Present only on release images where env-unavailable is treated as a
/// degraded-continue rather than a fatal abort. Debug images abort immediately,
/// so this struct is never populated there.
#[derive(Debug, Clone)]
pub struct DegradedBootStatus<S = String> {
    /// The text of the underlying `BootEnvError`.
    pub reason: S,
}

/// Why resize-data did not complete on this boot.
///
/// Written as snake_case so ODS and cloud consumers can match exact strings.
#[derive(Debug, Clone, Copy, PartialEq, Eq, Structural)]
pub enum ResizeOutcome {
    /// Data partition fsck reported uncorrected errors before resize.
    SkippedFsck,
    /// An external tool (parted / sgdisk / resize2fs / sync) failed.
    ToolError,
    /// Layout problem (missing data partition, non-UTF-8 path, …) —
    /// the init setup step could not run at all.
    InvalidLayout,
}

impl ResizeOutcome {
    pub open spec fn text(self) -> Seq<char> {
        match self {
            ResizeOutcome::SkippedFsck => "skipped_fsck"@,
            ResizeOutcome::ToolError => "tool_error"@,
            ResizeOutcome::InvalidLayout => "invalid_layout"@,
        }
    }

    /// The name on the wire.
    pub fn as_str(self) -> (s: &'static str)
        ensures
            s@ == self.text(),
    {
        match self {
            ResizeOutcome::SkippedFsck => "skipped_fsck",
            ResizeOutcome::ToolError => "tool_error",
            ResizeOutcome::InvalidLayout => "invalid_layout",
        }
    }
}

/// Reason resize-data did not complete on this boot.
///
/// Present only when resize was attempted and could not finish.
/// `None` means resize succeeded or the guard was already present.
#[derive(Debug, Clone)]
pub struct ResizeStatus<S = String> {
    /// Why resize did not complete.
    pub outcome: ResizeOutcome,
    /// The text of the underlying error — one line for operator diagnosis.
    pub reason: S,
}

/// Why the sync of the extra boot arguments failed on this boot.
#[derive(Debug, Clone, Copy, PartialEq, Eq, Structural)]
pub enum ExtraBootArgsOutcome {
    /// A boot-partition file could not be read.
    FileReadFailed,
    /// The stored value could not be read.
    ReadFailed,
    /// The new value could not be stored.
    SetEnvFailed,
    /// The new value could not be read back.
    ReadBackFailed,
    /// What was read back is not what was stored.
    ReadBackMismatch,
}

impl ExtraBootArgsOutcome {
    pub open spec fn text(self) -> Seq<char> {
        match self {
            ExtraBootArgsOutcome::FileReadFailed => "file_read_failed"@,
            ExtraBootArgsOutcome::ReadFailed => "read_failed"@,
            ExtraBootArgsOutcome::SetEnvFailed => "set_env_failed"@,
            ExtraBootArgsOutcome::ReadBackFailed => "read_back_failed"@,
            ExtraBootArgsOutcome::ReadBackMismatch => "read_back_mismatch"@,
        }
    }

    /// The name on the wire.
    pub fn as_str(self) -> (s: &'static str)
        ensures
            s@ == self.text(),
    {
        match self {
            ExtraBootArgsOutcome::FileReadFailed => "file_read_failed",
            ExtraBootArgsOutcome::ReadFailed => "read_failed",
            ExtraBootArgsOutcome::SetEnvFailed => "set_env_failed",
            ExtraBootArgsOutcome::ReadBackFailed => "read_back_failed",
            ExtraBootArgsOutcome::ReadBackMismatch => "read_back_mismatch",
        }
    }
}

/// Reason the extra boot arguments were not synced on this boot.
#[derive(Debug, Clone)]
pub struct ExtraBootArgsStatus<S = String> {
    pub outcome: ExtraBootArgsOutcome,
    pub reason: S,
}

/// Factory reset execution status
#[derive(Debug, Clone)]
pub struct FactoryResetStatus<S = String, L = Vec<String>> {
    /// Outcome of the factory reset operation.
    pub status: FactoryResetStatusCode,
    /// Error message if failed
    pub error: Option<S>,
    /// Additional context
    pub context: Option<S>,
    /// Paths that were preserved
    pub paths: L,
    /// `true` once the destructive phase (partition reformat) began. On
    /// `status: Error` this distinguishes a safe no-op abort (nothing touched)
    /// from a failure after data was already wiped. Always written — absence
    /// of the key would itself be a bug (mirrors `OdsStatus.first_boot`).
    pub data_wiped: bool,
}

/// The status of a factory reset by view.
pub type FactoryResetView = FactoryResetStatus<Seq<char>, Seq<Seq<char>>>;

impl View for DegradedBootStatus {
    type V = DegradedBootStatus<Seq<char>>;

    open spec fn view(&self) -> DegradedBootStatus<Seq<char>> {
        DegradedBootStatus { reason: self.reason@ }
    }
}

impl View for ResizeStatus {
    type V = ResizeStatus<Seq<char>>;

    open spec fn view(&self) -> ResizeStatus<Seq<char>> {
        ResizeStatus { outcome: self.outcome, reason: self.reason@ }
    }
}

impl View for ExtraBootArgsStatus {
    type V = ExtraBootArgsStatus<Seq<char>>;

    open spec fn view(&self) -> ExtraBootArgsStatus<Seq<char>> {
        ExtraBootArgsStatus { outcome: self.outcome, reason: self.reason@ }
    }
}

impl View for FactoryResetStatus {
    type V = FactoryResetView;

    open spec fn view(&self) -> FactoryResetView {
        FactoryResetStatus {
            status: self.status,
            error: self.error.deep_view(),
            context: self.context.deep_view(),
            paths: self.paths.deep_view(),
            data_wiped: self.data_wiped,
        }
    }
}

/// Status information for omnect-device-service
#[derive(Debug, Clone)]
pub struct OdsStatus {
    /// Fsck results for each partition
    pub fsck: OrderedMap<PartitionName, FsckStatus>,
    /// Factory reset status (if performed)
    pub factory_reset: Option<FactoryResetStatus>,
    /// Carries the boot-env error cause when the env was unavailable on this
    /// boot, so ODS consumers can diagnose which tool or file failed rather
    /// than receiving an opaque signal. `None` on the happy path.
    pub degraded_boot: Option<DegradedBootStatus>,
    /// `true` if this boot is the first boot since flashing (i.e. the
    /// `omnect_first_boot_done` marker was absent when the boot env was opened).
    /// Always written — absence of the key would itself be a bug.
    pub first_boot: bool,
    /// Carries the resize-data failure cause when resize did not complete on
    /// this boot, so ODS consumers can diagnose and notify the cloud. `None`
    /// on the happy path (resize succeeded or guard already present).
    pub resize_data: Option<ResizeStatus>,
    /// Carries the cause when the extra boot arguments could not be synced.
    /// `None` on the happy path.
    pub extra_bootargs: Option<ExtraBootArgsStatus>,
}

/// A fsck result by view.
pub type FsckView = FsckStatus<Seq<char>>;

/// The status by view; the fsck results are in the order in which their partitions
/// were first recorded.
pub struct OdsView {
    pub fsck: Seq<(PartitionName, FsckView)>,
    pub factory_reset: Option<FactoryResetView>,
    pub degraded_boot: Option<DegradedBootStatus<Seq<char>>>,
    pub first_boot: bool,
    pub resize_data: Option<ResizeStatus<Seq<char>>>,
    pub extra_bootargs: Option<ExtraBootArgsStatus<Seq<char>>>,
}

/// Fsck results by view.
pub open spec fn fsck_view(entries: Seq<(PartitionName, FsckStatus)>) -> Seq<(PartitionName, FsckView)> {
    entries.map_values(|e: (PartitionName, FsckStatus)| (e.0, e.1@))
}

impl View for OdsStatus {
    type V = OdsView;

    open spec fn view(&self) -> OdsView {
        OdsView {
            fsck: fsck_view(self.fsck.entries()),
            factory_reset: opt_view(self.factory_reset),
            degraded_boot: opt_view(self.degraded_boot),
            first_boot: self.first_boot,
            resize_data: opt_view(self.resize_data),
            extra_bootargs: opt_view(self.extra_bootargs),
        }
    }
}

/// The partitions that have a fsck result.
pub open spec fn recorded(entries: Seq<(PartitionName, FsckView)>) -> Seq<PartitionName> {
    entries.map_values(|e: (PartitionName, FsckView)| e.0)
}

/// The fsck results with that of `partition` replaced, or added at the end.
pub open spec fn upsert(entries: Seq<(PartitionName, FsckView)>, partition: PartitionName, status: FsckView) -> Seq<
    (PartitionName, FsckView),
> {
    match position_in(recorded(entries), partition) {
        Some(i) => entries.update(i, (partition, status)),
        None => entries.push((partition, status)),
    }
}

impl OdsView {
    pub open spec fn empty() -> Self {
        OdsView {
            fsck: Seq::empty(),
            factory_reset: None,
            degraded_boot: None,
            first_boot: false,
            resize_data: None,
            extra_bootargs: None,
        }
    }

    /// With a fsck result added, whatever it is.
    pub open spec fn with_fsck(self, partition: PartitionName, code: i32, output: Seq<char>) -> Self {
        OdsView { fsck: upsert(self.fsck, partition, FsckStatus { code, output }), ..self }
    }

    /// With a fsck result recorded, unless it is clean.
    pub open spec fn recording(self, partition: PartitionName, code: FsckExitCode, output: Seq<char>) -> Self {
        if code.0 == 0 {
            self
        } else {
            self.with_fsck(partition, code.0, output)
        }
    }
}

impl Default for OdsStatus {
    fn default() -> (r: Self)
        ensures
            r@ == OdsView::empty(),
    {
        OdsStatus::new()
    }
}

impl OdsStatus {
    /// Create a new empty status
    pub fn new() -> (r: Self)
        ensures
            r@ == OdsView::empty(),
    {
        let r = OdsStatus {
            fsck: OrderedMap::new(),
            factory_reset: None,
            degraded_boot: None,
            first_boot: false,
            resize_data: None,
            extra_bootargs: None,
        };
        assert(r@.fsck =~= Seq::<(PartitionName, FsckView)>::empty());
        r
    }

    /// Add fsck result for a partition
    pub fn add_fsck_result(&mut self, partition: PartitionName, code: i32, output: String)
        ensures
            final(self)@ == old(self)@.with_fsck(partition, code, output@),
    {
        let ghost before = self.fsck.entries();
        let status = FsckStatus { code, output };
        let ghost seen = status@;
        self.fsck.insert(partition, status);
        assert(keys_of(before) =~= recorded(fsck_view(before)));
        assert(self@.fsck =~= upsert(old(self)@.fsck, partition, seen));
    }

    /// Record the fsck result of a partition. A clean result is dropped: the status
    /// names only the partitions with findings.
    pub fn record_fsck_result(&mut self, partition: PartitionName, code: FsckExitCode, output: String)
        ensures
            final(self)@ == old(self)@.recording(partition, code, output@),
    {
        if !code.is_clean() {
            self.add_fsck_result(partition, code.bits(), output);
        }
    }

    /// Set factory reset status
    pub fn set_factory_reset(&mut self, status: FactoryResetStatus)
        ensures
            final(self)@ == (OdsView { factory_reset: Some(status@), ..old(self)@ }),
    {
        self.factory_reset = Some(status);
    }

    /// Stores the boot-env error cause for ODS. `reason` is the text
    /// of the `BootEnvError` returned when the boot env was opened.
    pub fn set_degraded_boot(&mut self, reason: String)
        ensures
            final(self)@ == (OdsView {
                degraded_boot: Some(DegradedBootStatus { reason: reason@ }),
                ..old(self)@
            }),
    {
        self.degraded_boot = Some(DegradedBootStatus { reason });
    }

    /// Record a resize-data failure indicator for ODS.
    pub fn set_resize_status(&mut self, status: ResizeStatus)
        ensures
            final(self)@ == (OdsView { resize_data: Some(status@), ..old(self)@ }),
    {
        self.resize_data = Some(status);
    }

    /// Record a failed sync of the extra boot arguments for ODS.
    pub fn set_extra_bootargs_status(&mut self, status: ExtraBootArgsStatus)
        ensures
            final(self)@ == (OdsView { extra_bootargs: Some(status@), ..old(self)@ }),
    {
        self.extra_bootargs = Some(status);
    }
}

/// No partition has two fsck results.
pub open spec fn distinct_partitions(entries: Seq<(PartitionName, FsckView)>) -> bool {
    forall|i: int, j: int|
        #![trigger entries[i], entries[j]]
        0 <= i < j < entries.len() ==> entries[i].0 != entries[j].0
}

/// Recording the result of a partition makes it the one result of that partition and
/// leaves the results of the others alone; a clean result changes nothing.
pub proof fn law_recording(ods: OdsView, partition: PartitionName, code: FsckExitCode, output: Seq<char>)
    requires
        distinct_partitions(ods.fsck),
    ensures
        distinct_partitions(ods.recording(partition, code, output).fsck),
        code.0 == 0 ==> ods.recording(partition, code, output) == ods,
        code.0 != 0 ==> ods.recording(partition, code, output).fsck.contains(
            (partition, FsckStatus { code: code.0, output }),
        ),
        forall|e: (PartitionName, FsckView)|
            e.0 != partition ==> (#[trigger] ods.recording(partition, code, output).fsck.contains(e)
                <==> ods.fsck.contains(e)),
{
    if code.0 != 0 {
        let before = ods.fsck;
        let entry = (partition, FsckStatus { code: code.0, output });
        let after = upsert(before, partition, entry.1);
        let keys = recorded(before);
        match position_in(keys, partition) {
            Some(i) => {
                assert(stands_at(keys, partition, i));
                assert(before[i].0 == partition);
                assert(after[i] == entry);
                assert forall|a: int, b: int|
                    #![trigger after[a], after[b]]
                    0 <= a < b < after.len() implies after[a].0 != after[b].0 by {
                    assert(before[a].0 != before[b].0);
                }
                assert forall|e: (PartitionName, FsckView)| e.0 != partition implies (#[trigger] after.contains(e)
                    <==> before.contains(e)) by {
                    if after.contains(e) {
                        let k = choose|k: int| 0 <= k < after.len() && after[k] == e;
                        assert(before[k] == e);
                    }
                    if before.contains(e) {
                        let k = choose|k: int| 0 <= k < before.len() && before[k] == e;
                        assert(after[k] == e);
                    }
                }
            },
            None => {
                assert(after[before.len() as int] == entry);
                assert forall|a: int, b: int|
                    #![trigger after[a], after[b]]
                    0 <= a < b < after.len() implies after[a].0 != after[b].0 by {
                    if b == before.len() {
                        assert(!stands_at(keys, partition, a));
                    } else {
                        assert(before[a].0 != before[b].0);
                    }
                }
                assert forall|e: (PartitionName, FsckView)| e.0 != partition implies (#[trigger] after.contains(e)
                    <==> before.contains(e)) by {
                    if after.contains(e) {
                        let k = choose|k: int| 0 <= k < after.len() && after[k] == e;
                        assert(before[k] == e);
                    }
                    if before.contains(e) {
                        let k = choose|k: int| 0 <= k < before.len() && before[k] == e;
                        assert(after[k] == e);
                    }
                }
            },
        }
    }
}

/// The result of a partition's fsck as JSON.
pub open spec fn fsck_json(status: FsckView) -> JsonView {
    JsonView::Object(
        seq![("code"@, JsonView::Number(Some(status.code as i128))), ("output"@, JsonView::Text(status.output))],
    )
}

/// A reason as JSON, behind an outcome where there is one.
pub open spec fn reason_json(outcome: Option<Seq<char>>, reason: Seq<char>) -> JsonView {
    JsonView::Object(opt_member("outcome"@, opt_text_of(outcome)) + seq![("reason"@, JsonView::Text(reason))])
}

/// The status of a factory reset as JSON. The preserved paths appear only if there are
/// some, `data_wiped` always.
pub open spec fn factory_reset_json(status: FactoryResetView) -> JsonView {
    JsonView::Object(
        seq![("status"@, JsonView::Number(Some(status.status.number())))] + opt_member(
            "error"@,
            opt_text_of(status.error),
        ) + opt_member("context"@, opt_text_of(status.context)) + opt_member(
            "paths"@,
            if status.paths.len() == 0 {
                None
            } else {
                Some(texts_of(status.paths))
            },
        ) + seq![("data_wiped"@, JsonView::Bool(status.data_wiped))],
    )
}

/// The fsck results as JSON, by partition.
pub open spec fn fsck_members(entries: Seq<(PartitionName, FsckView)>) -> Seq<(Seq<char>, JsonView)> {
    entries.map_values(|e: (PartitionName, FsckView)| (e.0.text(), fsck_json(e.1)))
}

/// The status as JSON. Everything but `first_boot` appears only if there is something
/// to report.
pub open spec fn ods_json(status: OdsView) -> JsonView {
    JsonView::Object(
        opt_member(
            "fsck"@,
            if status.fsck.len() == 0 {
                None
            } else {
                Some(JsonView::Object(fsck_members(status.fsck)))
            },
        ) + opt_member(
            "factory_reset"@,
            match status.factory_reset {
                Some(f) => Some(factory_reset_json(f)),
                None => None,
            },
        ) + opt_member(
            "degraded_boot"@,
            match status.degraded_boot {
                Some(d) => Some(reason_json(None, d.reason)),
                None => None,
            },
        ) + seq![("first_boot"@, JsonView::Bool(status.first_boot))] + opt_member(
            "resize_data"@,
            match status.resize_data {
                Some(r) => Some(reason_json(Some(r.outcome.text()), r.reason)),
                None => None,
            },
        ) + opt_member(
            "extra_bootargs"@,
            match status.extra_bootargs {
                Some(x) => Some(reason_json(Some(x.outcome.text()), x.reason)),
                None => None,
            },
        ),
    )
}

/// The members of two lists of members, put one behind the other.
proof fn lemma_members_add(a: Seq<(Seq<char>, JsonView)>, b: Seq<(Seq<char>, JsonView)>)
    ensures
        forall|name: Seq<char>| #[trigger]
            unnamed(a + b, name) <==> unnamed(a, name) && unnamed(b, name),
        forall|e: (Seq<char>, JsonView)| #[trigger] (a + b).contains(e) <==> a.contains(e) || b.contains(e),
{
    assert forall|name: Seq<char>| #[trigger] unnamed(a + b, name) <==> unnamed(a, name) && unnamed(
        b,
        name,
    ) by {
        if unnamed(a + b, name) {
            assert forall|i: int| 0 <= i < a.len() implies (#[trigger] a[i]).0 != name by {
                assert((a + b)[i] == a[i]);
            }
            assert forall|i: int| 0 <= i < b.len() implies (#[trigger] b[i]).0 != name by {
                assert((a + b)[a.len() + i] == b[i]);
            }
        }
    }
    assert forall|e: (Seq<char>, JsonView)| #[trigger] (a + b).contains(e) <==> a.contains(e) || b.contains(e) by {
        if a.contains(e) {
            let i = choose|i: int| 0 <= i < a.len() && a[i] == e;
            assert((a + b)[i] == e);
        }
        if b.contains(e) {
            let i = choose|i: int| 0 <= i < b.len() && b[i] == e;
            assert((a + b)[a.len() + i] == e);
        }
    }
}

/// A member that appears only if there is a value for it.
proof fn lemma_opt_member(name: Seq<char>, value: Option<JsonView>)
    ensures
        forall|other: Seq<char>| #[trigger]
            unnamed(opt_member(name, value), other) <==> value is None || name != other,
        value matches Some(v) ==> opt_member(name, value).contains((name, v)),
{
    match value {
        Some(v) => {
            assert(opt_member(name, value)[0] == (name, v));
        },
        None => {},
    }
}

/// Whether it is the first boot is reported in every status. Of everything else, what
/// there is to report is reported, and a name without anything to report does not
/// appear.
pub proof fn law_reported_fields(status: OdsView)
    ensures
        ods_json(status) is Object,
        ods_json(status)->Object_0.contains(("first_boot"@, JsonView::Bool(status.first_boot))),
        unnamed(ods_json(status)->Object_0, "fsck"@) <==> status.fsck.len() == 0,
        status.fsck.len() > 0 ==> ods_json(status)->Object_0.contains(
            ("fsck"@, JsonView::Object(fsck_members(status.fsck))),
        ),
        unnamed(ods_json(status)->Object_0, "factory_reset"@) <==> status.factory_reset is None,
        status.factory_reset matches Some(f) ==> ods_json(status)->Object_0.contains(
            ("factory_reset"@, factory_reset_json(f)),
        ),
        unnamed(ods_json(status)->Object_0, "degraded_boot"@) <==> status.degraded_boot is None,
        status.degraded_boot matches Some(d) ==> ods_json(status)->Object_0.contains(
            ("degraded_boot"@, reason_json(None, d.reason)),
        ),
        unnamed(ods_json(status)->Object_0, "resize_data"@) <==> status.resize_data is None,
        status.resize_data matches Some(r) ==> ods_json(status)->Object_0.contains(
            ("resize_data"@, reason_json(Some(r.outcome.text()), r.reason)),
        ),
        unnamed(ods_json(status)->Object_0, "extra_bootargs"@) <==> status.extra_bootargs is None,
        status.extra_bootargs matches Some(x) ==> ods_json(status)->Object_0.contains(
            ("extra_bootargs"@, reason_json(Some(x.outcome.text()), x.reason)),
        ),
{
    reveal_strlit("fsck");
    reveal_strlit("factory_reset");
    reveal_strlit("degraded_boot");
    reveal_strlit("first_boot");
    reveal_strlit("resize_data");
    reveal_strlit("extra_bootargs");
    assert("fsck"@.len() == 4);
    assert("factory_reset"@.len() == 13);
    assert("degraded_boot"@.len() == 13);
    assert("first_boot"@.len() == 10);
    assert("resize_data"@.len() == 11);
    assert("extra_bootargs"@.len() == 14);
    assert("factory_reset"@[0] != "degraded_boot"@[0]);
    let fsck = if status.fsck.len() == 0 {
        None
    } else {
        Some(JsonView::Object(fsck_members(status.fsck)))
    };
    let reset = match status.factory_reset {
        Some(f) => Some(factory_reset_json(f)),
        None => None,
    };
    let degraded = match status.degraded_boot {
        Some(d) => Some(reason_json(None, d.reason)),
        None => None,
    };
    let first = Some(JsonView::Bool(status.first_boot));
    let resize = match status.resize_data {
        Some(r) => Some(reason_json(Some(r.outcome.text()), r.reason)),
        None => None,
    };
    let args = match status.extra_bootargs {
        Some(x) => Some(reason_json(Some(x.outcome.text()), x.reason)),
        None => None,
    };
    lemma_opt_member("fsck"@, fsck);
    lemma_opt_member("factory_reset"@, reset);
    lemma_opt_member("degraded_boot"@, degraded);
    lemma_opt_member("first_boot"@, first);
    lemma_opt_member("resize_data"@, resize);
    lemma_opt_member("extra_bootargs"@, args);
    let m1 = opt_member("fsck"@, fsck);
    let m2 = m1 + opt_member("factory_reset"@, reset);
    let m3 = m2 + opt_member("degraded_boot"@, degraded);
    let m4 = m3 + opt_member("first_boot"@, first);
    let m5 = m4 + opt_member("resize_data"@, resize);
    lemma_members_add(m1, opt_member("factory_reset"@, reset));
    lemma_members_add(m2, opt_member("degraded_boot"@, degraded));
    lemma_members_add(m3, opt_member("first_boot"@, first));
    lemma_members_add(m4, opt_member("resize_data"@, resize));
    lemma_members_add(m5, opt_member("extra_bootargs"@, args));
    assert(ods_json(status)->Object_0 == m5 + opt_member("extra_bootargs"@, args));
}

/// The report of a factory reset always says how it ended and whether the data were
/// wiped. An error, a context and preserved paths appear only where there are some.
pub proof fn law_reset_fields(status: FactoryResetView)
    ensures
        factory_reset_json(status) is Object,
        factory_reset_json(status)->Object_0.contains(
            ("status"@, JsonView::Number(Some(status.status.number()))),
        ),
        factory_reset_json(status)->Object_0.contains(("data_wiped"@, JsonView::Bool(status.data_wiped))),
        unnamed(factory_reset_json(status)->Object_0, "error"@) <==> status.error is None,
        status.error matches Some(e) ==> factory_reset_json(status)->Object_0.contains(
            ("error"@, JsonView::Text(e)),
        ),
        unnamed(factory_reset_json(status)->Object_0, "context"@) <==> status.context is None,
        status.context matches Some(c) ==> factory_reset_json(status)->Object_0.contains(
            ("context"@, JsonView::Text(c)),
        ),
        unnamed(factory_reset_json(status)->Object_0, "paths"@) <==> status.paths.len() == 0,
        status.paths.len() > 0 ==> factory_reset_json(status)->Object_0.contains(
            ("paths"@, texts_of(status.paths)),
        ),
{
    reveal_strlit("status");
    reveal_strlit("error");
    reveal_strlit("context");
    reveal_strlit("paths");
    reveal_strlit("data_wiped");
    assert("status"@.len() == 6);
    assert("error"@.len() == 5);
    assert("context"@.len() == 7);
    assert("paths"@.len() == 5);
    assert("data_wiped"@.len() == 10);
    assert("error"@[0] != "paths"@[0]);
    let number = Some(JsonView::Number(Some(status.status.number())));
    let error = opt_text_of(status.error);
    let context = opt_text_of(status.context);
    let paths = if status.paths.len() == 0 {
        None
    } else {
        Some(texts_of(status.paths))
    };
    let wiped = Some(JsonView::Bool(status.data_wiped));
    lemma_opt_member("status"@, number);
    lemma_opt_member("error"@, error);
    lemma_opt_member("context"@, context);
    lemma_opt_member("paths"@, paths);
    lemma_opt_member("data_wiped"@, wiped);
    let m1 = opt_member("status"@, number);
    let m2 = m1 + opt_member("error"@, error);
    let m3 = m2 + opt_member("context"@, context);
    let m4 = m3 + opt_member("paths"@, paths);
    lemma_members_add(m1, opt_member("error"@, error));
    lemma_members_add(m2, opt_member("context"@, context));
    lemma_members_add(m3, opt_member("paths"@, paths));
    lemma_members_add(m4, opt_member("data_wiped"@, wiped));
    assert(factory_reset_json(status)->Object_0 == m4 + opt_member("data_wiped"@, wiped));
}

proof fn lemma_fsck_plain(status: FsckView)
    ensures
        plain(fsck_json(status)),
{
    reveal_strlit("code");
    reveal_strlit("output");
    assert("code"@.len() != "output"@.len());
    let none = Seq::<(Seq<char>, JsonView)>::empty();
    let code = JsonView::Number(Some(status.code as i128));
    lemma_put(none, "code"@, Some(code));
    let m1 = none + opt_member("code"@, Some(code));
    lemma_put(m1, "output"@, Some(JsonView::Text(status.output)));
    assert(m1 + opt_member("output"@, Some(JsonView::Text(status.output))) =~= fsck_json(status)->Object_0);
}

proof fn lemma_reason_plain(outcome: Option<Seq<char>>, reason: Seq<char>)
    ensures
        plain(reason_json(outcome, reason)),
{
    reveal_strlit("outcome");
    reveal_strlit("reason");
    assert("outcome"@.len() != "reason"@.len());
    let none = Seq::<(Seq<char>, JsonView)>::empty();
    lemma_put(none, "outcome"@, opt_text_of(outcome));
    lemma_put(none + opt_member("outcome"@, opt_text_of(outcome)), "reason"@, Some(JsonView::Text(reason)));
    assert(none + opt_member("outcome"@, opt_text_of(outcome)) =~= opt_member("outcome"@, opt_text_of(outcome)));
}

proof fn lemma_factory_reset_plain(status: FactoryResetView)
    ensures
        plain(factory_reset_json(status)),
{
    reveal_strlit("status");
    reveal_strlit("error");
    reveal_strlit("context");
    reveal_strlit("paths");
    reveal_strlit("data_wiped");
    lemma_texts_plain(status.paths);
    let none = Seq::<(Seq<char>, JsonView)>::empty();
    let number = JsonView::Number(Some(status.status.number()));
    let paths = if status.paths.len() == 0 {
        None
    } else {
        Some(texts_of(status.paths))
    };
    assert("status"@.len() == 6);
    assert("error"@.len() == 5);
    assert("context"@.len() == 7);
    assert("paths"@.len() == 5);
    assert("data_wiped"@.len() == 10);
    assert("error"@[0] != "paths"@[0]);
    lemma_put(none, "status"@, Some(number));
    let m1 = none + opt_member("status"@, Some(number));
    assert(m1 =~= seq![("status"@, number)]);
    lemma_put(m1, "error"@, opt_text_of(status.error));
    let m2 = m1 + opt_member("error"@, opt_text_of(status.error));
    lemma_put(m2, "context"@, opt_text_of(status.context));
    let m3 = m2 + opt_member("context"@, opt_text_of(status.context));
    lemma_put(m3, "paths"@, paths);
    let m4 = m3 + opt_member("paths"@, paths);
    lemma_put(m4, "data_wiped"@, Some(JsonView::Bool(status.data_wiped)));
}

/// The status as JSON is an object without a name twice.
pub proof fn lemma_ods_plain(status: OdsView)
    requires
        distinct_partitions(status.fsck),
    ensures
        plain(ods_json(status)),
{
    reveal_strlit("fsck");
    reveal_strlit("factory_reset");
    reveal_strlit("degraded_boot");
    reveal_strlit("first_boot");
    reveal_strlit("resize_data");
    reveal_strlit("extra_bootargs");
    assert("fsck"@.len() == 4);
    assert("factory_reset"@.len() == 13);
    assert("degraded_boot"@.len() == 13);
    assert("first_boot"@.len() == 10);
    assert("resize_data"@.len() == 11);
    assert("extra_bootargs"@.len() == 14);
    assert("factory_reset"@[0] != "degraded_boot"@[0]);
    let members = fsck_members(status.fsck);
    assert forall|i: int| 0 <= i < members.len() implies plain((#[trigger] members[i]).1) by {
        lemma_fsck_plain(status.fsck[i].1);
    }
    assert forall|i: int, j: int|
        #![trigger members[i], members[j]]
        0 <= i < j < members.len() implies members[i].0 != members[j].0 by {
        assert(status.fsck[i].0 != status.fsck[j].0);
        crate::partition::layout::law_names_differ(status.fsck[i].0, status.fsck[j].0);
    }
    let none = Seq::<(Seq<char>, JsonView)>::empty();
    let fsck = if status.fsck.len() == 0 {
        None
    } else {
        Some(JsonView::Object(members))
    };
    let reset = match status.factory_reset {
        Some(f) => {
            lemma_factory_reset_plain(f);
            Some(factory_reset_json(f))
        },
        None => None,
    };
    let degraded = match status.degraded_boot {
        Some(d) => {
            lemma_reason_plain(None, d.reason);
            Some(reason_json(None, d.reason))
        },
        None => None,
    };
    let resize = match status.resize_data {
        Some(r) => {
            lemma_reason_plain(Some(r.outcome.text()), r.reason);
            Some(reason_json(Some(r.outcome.text()), r.reason))
        },
        None => None,
    };
    let extra = match status.extra_bootargs {
        Some(x) => {
            lemma_reason_plain(Some(x.outcome.text()), x.reason);
            Some(reason_json(Some(x.outcome.text()), x.reason))
        },
        None => None,
    };
    let first = Some(JsonView::Bool(status.first_boot));
    lemma_put(none, "fsck"@, fsck);
    let m1 = none + opt_member("fsck"@, fsck);
    assert(m1 =~= opt_member("fsck"@, fsck));
    lemma_put(m1, "factory_reset"@, reset);
    let m2 = m1 + opt_member("factory_reset"@, reset);
    lemma_put(m2, "degraded_boot"@, degraded);
    let m3 = m2 + opt_member("degraded_boot"@, degraded);
    lemma_put(m3, "first_boot"@, first);
    let m4 = m3 + opt_member("first_boot"@, first);
    lemma_put(m4, "resize_data"@, resize);
    let m5 = m4 + opt_member("resize_data"@, resize);
    lemma_put(m5, "extra_bootargs"@, extra);
}

/// A reason as JSON, behind an outcome where there is one.
fn reason_to_json(outcome: Option<&str>, reason: &str) -> (j: Json)
    ensures
        j@ == reason_json(crate::bootloader::opt_text(outcome), reason@),
{
    let mut m = Members::new();
    let first: Option<Json> = match outcome {
        Some(s) => Some(Json::Text(s.to_owned())),
        None => None,
    };
    let ghost seen = opt_json(first);
    m.put_opt("outcome", first);
    assert(m@ =~= opt_member("outcome"@, seen));
    m.put("reason", Json::Text(reason.to_owned()));
    assert(m@ =~= opt_member("outcome"@, seen) + seq![("reason"@, JsonView::Text(reason@))]);
    m.finish()
}

impl FactoryResetStatus {
    /// The status as JSON.
    pub fn to_json(&self) -> (j: Json)
        ensures
            j@ == factory_reset_json(self@),
    {
        let mut m = Members::new();
        m.put("status", Json::Number(Some(self.status.as_number())));
        assert(m@ =~= seq![("status"@, JsonView::Number(Some(self.status.number())))]);
        m.put_opt("error", opt_text(&self.error));
        m.put_opt("context", opt_text(&self.context));
        let paths: Option<Json> = if self.paths.len() == 0 {
            None
        } else {
            Some(text_list(&self.paths))
        };
        m.put_opt("paths", paths);
        let ghost before = m@;
        m.put("data_wiped", Json::Bool(self.data_wiped));
        assert(m@ =~= before + seq![("data_wiped"@, JsonView::Bool(self.data_wiped))]);
        m.finish()
    }
}

impl OdsStatus {
    /// The fsck results as JSON, by partition.
    fn fsck_to_json(&self) -> (j: Option<Json>)
        ensures
            opt_json(j) == (if self@.fsck.len() == 0 {
                None
            } else {
                Some(JsonView::Object(fsck_members(self@.fsck)))
            }),
    {
        let n = self.fsck.len();
        if n == 0 {
            return None;
        }
        let mut m = Members::new();
        let mut i: usize = 0;
        while i < n
            invariant
                i <= n,
                n == self.fsck.entries().len(),
                m@ == fsck_members(self@.fsck).take(i as int),
            decreases n - i,
        {
            let status = self.fsck.value_at(i);
            let mut r = Members::new();
            r.put("code", Json::Number(Some(status.code as i128)));
            r.put("output", Json::Text(status.output.clone()));
            assert(r@ =~= seq![
                ("code"@, JsonView::Number(Some(status.code as i128))),
                ("output"@, JsonView::Text(status.output@)),
            ]);
            let ghost before = m@;
            m.put(self.fsck.key_at(i).as_str(), r.finish());
            assert(m@ =~= fsck_members(self@.fsck).take(i as int + 1));
            i = i + 1;
        }
        assert(m@ =~= fsck_members(self@.fsck));
        Some(m.finish())
    }

    /// The status as JSON.
    pub fn to_json(&self) -> (j: Json)
        ensures
            j@ == ods_json(self@),
            plain(j@),
    {
        let mut m = Members::new();
        m.put_opt("fsck", self.fsck_to_json());
        let reset: Option<Json> = match &self.factory_reset {
            Some(f) => Some(f.to_json()),
            None => None,
        };
        let degraded: Option<Json> = match &self.degraded_boot {
            Some(d) => Some(reason_to_json(None, d.reason.as_str())),
            None => None,
        };
        let resize: Option<Json> = match &self.resize_data {
            Some(r) => Some(reason_to_json(Some(r.outcome.as_str()), r.reason.as_str())),
            None => None,
        };
        let extra: Option<Json> = match &self.extra_bootargs {
            Some(x) => Some(reason_to_json(Some(x.outcome.as_str()), x.reason.as_str())),
            None => None,
        };
        let ghost views = (opt_json(reset), opt_json(degraded), opt_json(resize), opt_json(extra));
        let ghost m1 = m@;
        assert(m1 =~= opt_member(
            "fsck"@,
            if self@.fsck.len() == 0 {
                None
            } else {
                Some(JsonView::Object(fsck_members(self@.fsck)))
            },
        ));
        m.put_opt("factory_reset", reset);
        m.put_opt("degraded_boot", degraded);
        let ghost m3 = m@;
        m.put("first_boot", Json::Bool(self.first_boot));
        assert(m@ =~= m3 + seq![("first_boot"@, JsonView::Bool(self.first_boot))]);
        m.put_opt("resize_data", resize);
        m.put_opt("extra_bootargs", extra);
        let n = self.fsck.len();
        proof {
            let e = self.fsck.entries();
            assert forall|i: int, j: int|
                #![trigger self@.fsck[i], self@.fsck[j]]
                0 <= i < j < self@.fsck.len() implies self@.fsck[i].0 != self@.fsck[j].0 by {
                assert(e[i].0 != e[j].0);
            }
            lemma_ods_plain(self@);
        }
        m.finish()
    }
}

} // verus!
