//! What holds at the turns of a boot

use vstd::prelude::*;

use crate::bootloader::session_env::{env_opened, BootloaderKind, SessionEnv};
use crate::bootloader::{BootEnv, BootEnvKey};
use crate::config::{cmdline_loaded, law_last_setting_wins, setting_of};
use crate::error::FilesystemError;
use crate::filesystem::boot_sequence::{persisted, persisted_from};
use crate::filesystem::mount::{all_unmounted, lists_mount, FsErrorView};
use crate::laws::devices::{law_device_links, links_all};
use crate::laws::records::log_dir;
use crate::laws::reset::taken_down;
use crate::laws::setup::law_setting;
use crate::laws::{achieves, asked_in, asks_only, law_joined, lemma_asks_next, lemma_asks_nothing, name_of, under};
use crate::logging::kmsg::{prefix_of, Level};
use crate::mode::factory_reset::retry::SignalView;
use crate::mode::factory_reset::{mounted_or_cleaned_up, reset_mounted, signal_persisted, trigger_cleared};
use crate::partition::device::detected;
use crate::partition::layout::{built_map, devices_for, LayoutView};
use crate::partition::symlinks::{all_removed, names_removed};
use crate::partition::PartitionTable;
use crate::runtime::status::OdsView;
use crate::system::{ReplyView, RequestView, Stop, Transcript};
use crate::text::{is_word, join_of, lemma_words_of_join};
use crate::located;

verus! {

/// The GRUB environment is there if and only if its block is a file of the boot partition; the
/// U-Boot environment needs no file.
pub proof fn law_environment_opens(t: Transcript)
    ensures
        asked_in(t, env_opened(t, BootloaderKind::Grub).0) == seq![
            RequestView::IsFile("/rootfs/boot/EFI/BOOT/grubenv"@),
        ],
        t.rest.len() > 0 ==> (env_opened(t, BootloaderKind::Grub).1 is Ok <==> t.rest[0] == ReplyView::Flag(true)),
        env_opened(t, BootloaderKind::UBoot).0 == t,
        env_opened(t, BootloaderKind::UBoot).1 is Ok,
{
    let end = env_opened(t, BootloaderKind::Grub).0;
    assert(asked_in(t, end) =~= seq![RequestView::IsFile("/rootfs/boot/EFI/BOOT/grubenv"@)]);
}

/// A reset takes back its request before anything else; a failure is stored under the variable of
/// the last error, with the partition and the reason.
pub proof fn law_reset_variables(t: Transcript, kind: BootloaderKind, signal: SignalView)
    ensures
        SessionEnv::writes(t, kind, BootEnvKey::FactoryReset, None).0.asked.is_prefix_of(
            trigger_cleared::<SessionEnv>(t, Some(kind)).0.asked,
        ),
        SessionEnv::writes(
            t,
            kind,
            BootEnvKey::FactoryResetLastError,
            Some(
                name_of(signal.partition) + ":"@ + crate::bootloader::truncated(signal.reason, 128),
            ),
        ).0.asked.is_prefix_of(signal_persisted::<SessionEnv>(t, Some(kind), Some(signal)).0.asked),
        signal_persisted::<SessionEnv>(t, Some(kind), None).0 == t,
{
}

/// Whether the data partition is there to keep the logs on is read from the table of mounts.
pub proof fn law_logs_need_data(t: Transcript, s: Option<BootloaderKind>, o: OdsView, rootfs: Seq<char>, table: Seq<char>)
    requires
        t.rest.len() > 0,
        t.rest[0] == ReplyView::Text(table),
    ensures
        persisted::<SessionEnv>(t, s, o, rootfs) == persisted_from::<SessionEnv>(
            t.ask(RequestView::ReadText("/proc/mounts"@)),
            s,
            o.fsck,
            log_dir(rootfs),
            lists_mount(table, under(rootfs, "mnt/data"@)),
            0,
        ),
{
    crate::laws::lemma_places(rootfs);
    reveal_strlit("var/log/fsck");
    law_joined(under(rootfs, "mnt/data"@), "var/log/fsck"@);
}

/// Where the mounts of a reset fail, everything that was mounted is unmounted again, the last one
/// first, and the failure is reported.
pub proof fn law_failed_mounts_are_undone(
    t: Transcript,
    o: OdsView,
    mounts: Seq<Seq<char>>,
    layout: LayoutView,
    rootfs: Seq<char>,
    persistent: bool,
)
    ensures
        ({
            let (mid, after, left, r) = reset_mounted(t, o, mounts, layout, rootfs, persistent);
            let (end, status, none, outcome) = mounted_or_cleaned_up(t, o, mounts, layout, rootfs, persistent);
            (r matches Err(Stop::Failed(_))) && mid.rest.len() >= left.len() ==> {
                &&& asked_in(mid, end) == taken_down(left)
                &&& none.len() == 0
                &&& outcome == r
            }
        }),
{
    reveal(mounted_or_cleaned_up);
    let (mid, after, left, r) = reset_mounted(t, o, mounts, layout, rootfs, persistent);
    if (r matches Err(Stop::Failed(_))) && mid.rest.len() >= left.len() {
        lemma_unmounts(mid, left, None);
    }
}

proof fn lemma_unmounts(t: Transcript, mounts: Seq<Seq<char>>, first: Option<FsErrorView>)
    requires
        t.rest.len() >= mounts.len(),
    ensures
        ({
            let (end, left, r) = all_unmounted(t, mounts, first);
            &&& asked_in(t, end) == taken_down(mounts)
            &&& t.asked.is_prefix_of(end.asked)
            &&& left.len() == 0
            &&& !(r matches Err(Stop::Pending))
        }),
    decreases mounts.len(),
{
    let (end, left, r) = all_unmounted(t, mounts, first);
    if mounts.len() == 0 {
        assert(asked_in(t, end) =~= taken_down(mounts));
    } else {
        let request = RequestView::Unmount(mounts.last());
        let t1 = t.ask(request);
        let later = match t.next()->0 {
            ReplyView::Failed(e) => if first is Some {
                first
            } else {
                Some(FilesystemError::UnmountFailed { target: mounts.last(), reason: e.text() })
            },
            _ => first,
        };
        lemma_unmounts(t1, mounts.drop_last(), later);
        assert(all_unmounted(t, mounts, first) == all_unmounted(t1, mounts.drop_last(), later));
        assert(asked_in(t, end) =~= seq![request] + asked_in(t1, end)) by {
            assert(end.asked[t.asked.len() as int] == t1.asked[t.asked.len() as int]);
        }
    }
}

/// The levels of the kernel log.
pub proof fn law_levels()
    ensures
        prefix_of(Level::Error) == "<3>"@,
        prefix_of(Level::Warn) == "<4>"@,
        prefix_of(Level::Info) == "<6>"@,
        prefix_of(Level::Debug) == "<7>"@,
        prefix_of(Level::Trace) == "<7>"@,
{
}

/// The links of the devices are removed by looking at each name in /dev/omnect, and removing
/// those that are links.
pub open spec fn removes_links(names: Seq<Seq<char>>) -> spec_fn(RequestView) -> bool {
    |q: RequestView|
        {
            ||| q == RequestView::Exists("/dev/omnect"@)
            ||| q == RequestView::ListDir("/dev/omnect"@)
            ||| exists|i: int| 0 <= i < names.len() && q == RequestView::IsSymlink(under("/dev/omnect"@, #[trigger] names[i]))
            ||| exists|i: int| 0 <= i < names.len() && q == RequestView::RemoveFile(under("/dev/omnect"@, #[trigger] names[i]))
        }
}

/// Removing the links touches nothing outside /dev/omnect.
pub proof fn law_links_removed(t: Transcript, names: Seq<Seq<char>>)
    requires
        t.rest.len() >= 2,
        t.rest[1] matches ReplyView::Names { names: listed, failed } && listed == names,
        forall|i: int| 0 <= i < names.len() ==> !((#[trigger] names[i]).len() > 0 && names[i][0] == '/'),
    ensures
        asks_only(t, all_removed(t).0, removes_links(names)),
        t.rest[0] != ReplyView::Flag(true) ==> all_removed(t).1 is Ok,
{
    let p = removes_links(names);
    let t1 = t.ask(RequestView::Exists("/dev/omnect"@));
    let t2 = t1.ask(RequestView::ListDir("/dev/omnect"@));
    lemma_asks_nothing(t, p);
    lemma_asks_next(t, t, RequestView::Exists("/dev/omnect"@), p);
    lemma_asks_next(t, t1, RequestView::ListDir("/dev/omnect"@), p);
    assert(t1.rest[0] == t.rest[1]);
    lemma_names_removed(t, t2, names, t.rest[1]->failed, 0);
}

proof fn lemma_names_removed(
    t0: Transcript,
    t: Transcript,
    names: Seq<Seq<char>>,
    failed: Option<crate::system::IoErrorView>,
    i: int,
)
    requires
        0 <= i <= names.len(),
        asks_only(t0, t, removes_links(names)),
        forall|i: int| 0 <= i < names.len() ==> !((#[trigger] names[i]).len() > 0 && names[i][0] == '/'),
    ensures
        asks_only(t0, names_removed(t, names, failed, i).0, removes_links(names)),
    decreases names.len() - i,
{
    if i < names.len() {
        let p = removes_links(names);
        let path = under("/dev/omnect"@, names[i]);
        law_joined("/dev/omnect"@, names[i]);
        let t1 = t.ask(RequestView::IsSymlink(path));
        let t2 = t1.ask(RequestView::RemoveFile(path));
        lemma_asks_next(t0, t, RequestView::IsSymlink(path), p);
        lemma_asks_next(t0, t1, RequestView::RemoveFile(path), p);
        lemma_names_removed(t0, t1, names, failed, i + 1);
        lemma_names_removed(t0, t2, names, failed, i + 1);
    }
}

/// What the command line sets last is what is read from it.
pub proof fn law_command_line_reads(t: Transcript, words: Seq<Seq<char>>, i: int, name: Seq<char>, value: Seq<char>)
    requires
        forall|k: int| 0 <= k < words.len() ==> is_word(#[trigger] words[k]),
        t.rest.len() > 0,
        t.rest[0] == ReplyView::Text(join_of(words, " "@)),
        0 <= i < words.len(),
        words[i] == name.push('=') + value,
        !name.contains('='),
        value.len() > 0 ==> value[0] != '"' && value.last() != '"',
        forall|k: int| i < k < words.len() ==> setting_of(#[trigger] words[k]).0 != name,
    ensures
        cmdline_loaded(t).1 matches Ok(settings) && settings.dom().contains(name) && settings[name] == value,
{
    lemma_words_of_join(words);
    law_setting(name, value);
    law_last_setting_wins(words, i, name);
}

/// The devices are found from the command line, get their fixed places, and are linked under
/// /dev/omnect before the boot goes on.
pub proof fn law_located(t: Transcript, table: PartitionTable)
    ensures
        located(t, table).1 matches Ok((cmdline, layout)) ==> {
            &&& built_map(layout.device, table) is Ok && built_map(layout.device, table)->Ok_0 == layout.partitions
            &&& exists|found: Transcript, list: Seq<RequestView>|
                {
                    &&& found == detected(t.ask(RequestView::ReadText("/proc/cmdline"@)), "/proc/cmdline"@).0
                    &&& #[trigger] achieves(found, located(t, table).0, list)
                    &&& links_all(list, layout.device.base, devices_for(layout.device, table), layout.current_root())
                }
        },
{
    reveal(located);
    let (end, r) = located(t, table);
    if r is Ok {
        let (cmdline, layout) = r->Ok_0;
        let t1 = t.ask(RequestView::ReadText("/proc/cmdline"@));
        let (t2, device) = detected(t1, "/proc/cmdline"@);
        let devices = devices_for(layout.device, table);
        law_device_links(t2, layout.device.base, devices, layout.current_root());
        let list = choose|list: Seq<RequestView>|
            #[trigger] achieves(t2, end, list) && links_all(list, layout.device.base, devices, layout.current_root());
        assert(achieves(t2, end, list));
    }
}

} // verus!
