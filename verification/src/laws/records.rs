//! What is kept of the filesystem checks

use vstd::prelude::*;
use vstd::utf8::encode_utf8;

use crate::bootloader::session_env::{BootloaderKind, SessionEnv};
use crate::bootloader::{grub, uboot, BootEnv, BootEnvKey, EnvRecord};
use crate::bytes::lossy_of;
use crate::filesystem::boot_sequence::{
    drained_from, drained_one, fsck_log_dir, fsck_log_of, fsck_partitions, logged, persisted_from, saved_in,
};
use crate::filesystem::fsck_code::FsckExitCode;
use crate::laws::environment::{
    grub_editenv, lemma_packed, lemma_record_file, lemma_variable, piped, record_file, variable, wrote,
};
use crate::laws::{
    asked_in, exited_well, follows, law_joined, lemma_follows, lemma_follows_further, lemma_follows_itself, name_of,
    under,
};
use crate::partition::layout::PartitionName;
use crate::replay::bootloader::replay_env_clears;
use crate::replay::filesystem::{
    replay_drained_from, replay_drained_one, replay_logged, replay_persisted_from, replay_saved_in,
};
use crate::replay::replayable;
use crate::runtime::status::{FsckView, OdsView};
use crate::system::{ReplyView, RequestView, Transcript};
use crate::text::trim_of;

verus! {

/// The file that keeps what the check of a partition wrote.
pub open spec fn log_file(rootfs: Seq<char>, name: PartitionName) -> Seq<char> {
    under(log_dir(rootfs), name_of(name) + ".log"@)
}

/// The directory of these files, on the data partition.
pub open spec fn log_dir(rootfs: Seq<char>) -> Seq<char> {
    under(under(rootfs, "mnt/data"@), "var/log/fsck"@)
}

proof fn lemma_log_file(rootfs: Seq<char>, name: PartitionName)
    ensures
        fsck_log_dir(rootfs) == log_dir(rootfs),
        fsck_log_of(log_dir(rootfs), name) == log_file(rootfs, name),
{
    reveal_strlit("mnt/data");
    reveal_strlit("var/log/fsck");
    reveal_strlit(".log");
    reveal_strlit("boot");
    reveal_strlit("rootA");
    reveal_strlit("rootB");
    reveal_strlit("rootCurrent");
    reveal_strlit("factory");
    reveal_strlit("cert");
    reveal_strlit("etc");
    reveal_strlit("data");
    reveal_strlit("extended");
    law_joined(rootfs, "mnt/data"@);
    law_joined(under(rootfs, "mnt/data"@), "var/log/fsck"@);
    law_joined(log_dir(rootfs), name_of(name) + ".log"@);
}

/// What a check wrote is kept in a file of its own on the data partition, if it wrote anything and
/// the data partition is mounted; elsewhere nothing is written.
pub proof fn law_log(t: Transcript, rootfs: Seq<char>, data_mounted: bool, name: PartitionName, output: Seq<char>)
    ensures
        ({
            let (end, r) = logged(t, fsck_log_dir(rootfs), data_mounted, name, output);
            let asked = asked_in(t, end);
            &&& output.len() == 0 ==> end == t
            &&& output.len() > 0 && !data_mounted ==> asked.len() == 1 && asked[0] is Warn
            &&& output.len() > 0 && data_mounted ==> asked.len() > 0 && asked[0] == RequestView::CreateDir(
                log_dir(rootfs),
            ) && (t.rest.len() > 0 && !(t.rest[0] is Failed) ==> asked.len() > 1 && asked[1]
                == RequestView::WriteDurable {
                path: log_file(rootfs, name),
                dir: log_dir(rootfs),
                text: output,
            })
        }),
{
    reveal(logged);
    lemma_log_file(rootfs, name);
}

/// A check that found something is recorded in the bootloader environment, where there is one,
/// and its output is kept.
pub open spec fn kept(
    t: Transcript,
    end: Transcript,
    s: Option<BootloaderKind>,
    rootfs: Seq<char>,
    data_mounted: bool,
    entry: (PartitionName, FsckView),
) -> bool {
    exists|u: Transcript, v: Transcript|
        {
            &&& #[trigger] follows(t, u)
            &&& s matches Some(kind) ==> follows(
                SessionEnv::saves(u, kind, entry.0, FsckExitCode(entry.1.code), entry.1.output).0,
                v,
            )
            &&& s is None ==> v == u
            &&& #[trigger] follows(logged(v, fsck_log_dir(rootfs), data_mounted, entry.0, entry.1.output).0, end)
        }
}

proof fn lemma_logged_follows(t: Transcript, dir: Seq<char>, data_mounted: bool, name: PartitionName, output: Seq<char>)
    ensures
        follows(t, logged(t, dir, data_mounted, name, output).0),
{
    let procedure = |u: Transcript| logged(u, dir, data_mounted, name, output);
    assert forall|u: Transcript| #[trigger] replayable(u, procedure) by {
        replay_logged(u, dir, data_mounted, name, output);
    }
    lemma_follows(t, procedure);
}

proof fn lemma_saved_follows(
    t: Transcript,
    s: Option<BootloaderKind>,
    name: PartitionName,
    code: FsckExitCode,
    output: Seq<char>,
)
    ensures
        follows(t, saved_in::<SessionEnv>(t, s, name, code, output).0),
        saved_in::<SessionEnv>(t, s, name, code, output).1 == s,
        s matches Some(kind) ==> follows(
            SessionEnv::saves(t, kind, name, code, output).0,
            saved_in::<SessionEnv>(t, s, name, code, output).0,
        ),
{
    let procedure = |u: Transcript| saved_in::<SessionEnv>(u, s, name, code, output);
    assert forall|u: Transcript| #[trigger] replayable(u, procedure) by {
        replay_saved_in(u, s, name, code, output);
    }
    lemma_follows(t, procedure);
    if s is Some {
        let t1 = SessionEnv::saves(t, s->0, name, code, output).0;
        let t2 = saved_in::<SessionEnv>(t, s, name, code, output).0;
        lemma_follows_itself(t1);
        if t2 != t1 {
            assert(t2 == t1.ask(t2.asked.last()));
            crate::laws::lemma_follows_ask(t1, t2.asked.last());
        }
    }
}

/// Every check that found something is kept, before the boot goes on.
pub proof fn law_checks_are_kept(
    t: Transcript,
    s: Option<BootloaderKind>,
    fsck: Seq<(PartitionName, FsckView)>,
    rootfs: Seq<char>,
    data_mounted: bool,
    i: int,
    j: int,
)
    requires
        0 <= i <= j < fsck.len(),
        fsck[j].1.code != 0,
    ensures
        ({
            let (end, after, r) = persisted_from::<SessionEnv>(t, s, fsck, fsck_log_dir(rootfs), data_mounted, i);
            r is Some ==> kept(t, end, s, rootfs, data_mounted, fsck[j])
        }),
    decreases fsck.len() - i,
{
    let dir = fsck_log_dir(rootfs);
    let (end, after, r) = persisted_from::<SessionEnv>(t, s, fsck, dir, data_mounted, i);
    if r is Some {
        let (name, result) = fsck[i];
        lemma_follows_itself(t);
        if result.code == 0 {
            law_checks_are_kept(t, s, fsck, rootfs, data_mounted, i + 1, j);
        } else {
            let code = FsckExitCode(result.code);
            let (t1, s1, r1) = saved_in::<SessionEnv>(t, s, name, code, result.output);
            let (t2, r2) = logged(t1, dir, data_mounted, name, result.output);
            lemma_saved_follows(t, s, name, code, result.output);
            lemma_logged_follows(t1, dir, data_mounted, name, result.output);
            lemma_follows_further(t, t1, t2);
            lemma_rest_follows(t2, s, fsck, dir, data_mounted, i + 1);
            if j == i {
                assert(follows(t, t));
                assert(follows(logged(t1, dir, data_mounted, name, result.output).0, end));
            } else {
                law_checks_are_kept(t2, s, fsck, rootfs, data_mounted, i + 1, j);
                let entry = fsck[j];
                let (u, v) = choose|u: Transcript, v: Transcript|
                    {
                        &&& #[trigger] follows(t2, u)
                        &&& s matches Some(kind) ==> follows(
                            SessionEnv::saves(u, kind, entry.0, FsckExitCode(entry.1.code), entry.1.output).0,
                            v,
                        )
                        &&& s is None ==> v == u
                        &&& #[trigger] follows(logged(v, dir, data_mounted, entry.0, entry.1.output).0, end)
                    };
                lemma_follows_further(t, t2, u);
            }
        }
    }
}

proof fn lemma_rest_follows(
    t: Transcript,
    s: Option<BootloaderKind>,
    fsck: Seq<(PartitionName, FsckView)>,
    dir: Seq<char>,
    data_mounted: bool,
    i: int,
)
    ensures
        follows(t, persisted_from::<SessionEnv>(t, s, fsck, dir, data_mounted, i).0),
{
    let procedure = |u: Transcript| persisted_from::<SessionEnv>(u, s, fsck, dir, data_mounted, i);
    assert forall|u: Transcript| #[trigger] replayable(u, procedure) by {
        replay_persisted_from(u, s, fsck, dir, data_mounted, i);
    }
    lemma_follows(t, procedure);
}

/// The fsck record of a partition is packed into a variable of the U-Boot environment; what was
/// recorded comes back where the tools unpack what they packed, and is removed by its name.
pub proof fn law_uboot_record(
    t: Transcript,
    u: Transcript,
    v: Transcript,
    partition: PartitionName,
    code: FsckExitCode,
    output: Seq<char>,
    packed: Seq<u8>,
    letters: Seq<u8>,
    unpacked: Seq<u8>,
)
    requires
        t.rest.len() >= 3,
        t.rest[0] == wrote(packed),
        t.rest[1] == wrote(letters),
        exited_well(t.rest[2]),
        trim_of(lossy_of(letters)).len() > 0,
        u.rest.len() >= 3,
        u.rest[0] matches ReplyView::Output(out) && out.code == Some(0i32) && trim_of(out.stdout) == trim_of(
            lossy_of(letters),
        ),
        u.rest[1] == wrote(packed),
        u.rest[2] == wrote(unpacked),
        asked_in(t, uboot::saved(t, partition, code, output).0)[0] == piped(
            "/bin/gzip"@,
            seq!["-c"@],
            encode_utf8(lossy_of(unpacked)),
        ),
    ensures
        uboot::saved(t, partition, code, output).1 is Ok,
        asked_in(t, uboot::saved(t, partition, code, output).0).skip(1) == seq![
            piped("/bin/base64"@, seq!["-w"@, "0"@], packed),
            RequestView::Run {
                program: "/bin/fw_setenv"@,
                args: seq!["omnect_fsck_"@ + name_of(partition), trim_of(lossy_of(letters))],
            },
        ],
        asked_in(u, uboot::recalled(u, partition).0) == seq![
            RequestView::Run { program: "/bin/fw_printenv"@, args: seq!["-n"@, "omnect_fsck_"@ + name_of(partition)] },
            piped("/bin/base64"@, seq!["-d"@], encode_utf8(trim_of(lossy_of(letters)))),
            piped("/bin/gunzip"@, seq!["-c"@], packed),
        ],
        uboot::recalled(u, partition).1 == EnvRecord::Ok(Some((code, output))),
        asked_in(v, SessionEnv::clears(v, BootloaderKind::UBoot, partition).0) == seq![
            RequestView::Run { program: "/bin/fw_setenv"@, args: seq!["omnect_fsck_"@ + name_of(partition)] },
        ],
{
    lemma_variable(BootEnvKey::FsckStatus(partition));
    lemma_packed(code, output, lossy_of(unpacked));
    let written = asked_in(t, uboot::saved(t, partition, code, output).0);
    let t1 = t.ask(written[0]);
    assert(t1.rest[0] == t.rest[1]);
    let t2 = t1.ask(written[1]);
    assert(t2.rest[0] == t.rest[2]);
    assert(written.skip(1) =~= seq![written[1], written[2]]);
    let read = asked_in(u, uboot::recalled(u, partition).0);
    let u1 = u.ask(read[0]);
    assert(u1.rest[0] == u.rest[1]);
    let u2 = u1.ask(read[1]);
    assert(u2.rest[0] == u.rest[2]);
    assert(read =~= seq![read[0], read[1], read[2]]);
    let cleared = asked_in(v, SessionEnv::clears(v, BootloaderKind::UBoot, partition).0);
    assert(cleared =~= seq![cleared[0]]);
}

/// The record of the boot partition itself stands in the GRUB environment: it is set there,
/// unless a reboot is about to come, listed from there, and unset there. That of another
/// partition is removed with its file, which need not be there.
pub proof fn law_grub_own_record(
    t: Transcript,
    v: Transcript,
    partition: PartitionName,
    code: FsckExitCode,
    output: Seq<char>,
    packed: Seq<u8>,
    letters: Seq<u8>,
)
    requires
        t.rest.len() >= 2,
        t.rest[0] == wrote(packed),
        t.rest[1] == wrote(letters),
    ensures
        code.0 & 2 != 0 ==> asked_in(t, grub::saved(t, PartitionName::Boot, code, output).0).len() == 2,
        code.0 & 2 == 0 ==> asked_in(t, grub::saved(t, PartitionName::Boot, code, output).0)[2] == grub_editenv(
            seq!["set"@, "omnect_fsck_boot"@ + "="@ + trim_of(lossy_of(letters))],
        ),
        asked_in(v, grub::recalled(v, PartitionName::Boot).0)[0] == grub_editenv(seq!["list"@]),
        asked_in(v, grub::cleared(v, PartitionName::Boot).0)[0] == grub_editenv(seq!["unset"@, "omnect_fsck_boot"@]),
        partition != PartitionName::Boot ==> {
            let asked = asked_in(v, grub::cleared(v, partition).0);
            &&& asked[0] == RequestView::Exists(record_file(partition))
            &&& v.rest.len() > 0 && v.rest[0] == ReplyView::Flag(true) ==> asked[1] == RequestView::RemoveFile(
                record_file(partition),
            )
            &&& v.rest.len() > 0 && v.rest[0] != ReplyView::Flag(true) ==> grub::cleared(v, partition).1 is Ok
                && asked.len() == 1
        },
{
    lemma_record_file(partition);
    lemma_variable(BootEnvKey::FsckStatus(PartitionName::Boot));
    reveal_strlit("omnect_fsck_");
    reveal_strlit("boot");
    reveal_strlit("omnect_fsck_boot");
    assert("omnect_fsck_"@ + "boot"@ =~= "omnect_fsck_boot"@);
    let written = asked_in(t, grub::saved(t, PartitionName::Boot, code, output).0);
    let t1 = t.ask(written[0]);
    assert(t1.rest[0] == t.rest[1]);
}

/// The record of a partition was looked for, and what was found was cleared right after.
pub open spec fn drawn(t: Transcript, end: Transcript, s: BootloaderKind, name: PartitionName) -> bool {
    exists|u: Transcript|
        {
            &&& #[trigger] follows(t, u)
            &&& follows(SessionEnv::recalls(u, s, name).0, end)
            &&& SessionEnv::recalls(u, s, name).2 matches Ok(Some(_)) ==> follows(
                SessionEnv::clears(SessionEnv::recalls(u, s, name).0, s, name).0,
                end,
            )
        }
}

proof fn lemma_one_drawn(t: Transcript, o: OdsView, s: BootloaderKind, name: PartitionName)
    ensures
        ({
            let (end, after, kind, r) = drained_one::<SessionEnv>(t, o, s, name);
            &&& r is Some ==> drawn(t, end, s, name)
            &&& follows(t, end)
            &&& kind == s
        }),
{
    let procedure = |u: Transcript| drained_one::<SessionEnv>(u, o, s, name);
    assert forall|u: Transcript| #[trigger] replayable(u, procedure) by {
        replay_drained_one(u, o, s, name);
    }
    lemma_follows(t, procedure);
    let (end, after, kind, r) = drained_one::<SessionEnv>(t, o, s, name);
    let (t1, s1, record) = SessionEnv::recalls(t, s, name);
    let t2 = SessionEnv::clears(t1, s, name).0;
    lemma_follows_itself(t);
    lemma_follows_itself(t1);
    lemma_follows_itself(t2);
    let clearing = |u: Transcript| SessionEnv::clears(u, s, name);
    assert forall|u: Transcript| #[trigger] replayable(u, clearing) by {
        replay_env_clears(u, s, name);
    }
    lemma_follows(t1, clearing);
    crate::laws::lemma_follows_ask(t1, end.asked.last());
    crate::laws::lemma_follows_ask(t2, end.asked.last());
    if r is Some {
        if record matches Ok(Some(_)) {
            assert(end == t2 || end == t2.ask(end.asked.last()));
            lemma_follows_further(t1, t2, end);
        } else {
            assert(end == t1 || end == t1.ask(end.asked.last()));
        }
        assert(follows(t, t));
    }
}

/// Before the boot is reported, the records of boot, factory, cert, etc and data are drawn from
/// the bootloader environment, and each that was found is cleared.
pub proof fn law_records_are_drawn(t: Transcript, o: OdsView, s: BootloaderKind, i: int, name: PartitionName)
    requires
        0 <= i <= 5,
        (i <= 0 && name == PartitionName::Boot) || (i <= 1 && name == PartitionName::Factory) || (i <= 2 && name
            == PartitionName::Cert) || (i <= 3 && name == PartitionName::Etc) || (i <= 4 && name == PartitionName::Data),
    ensures
        ({
            let (end, after, kind, r) = drained_from::<SessionEnv>(t, o, s, i);
            r is Some ==> drawn(t, end, s, name)
        }),
    decreases 5 - i,
{
    let (end, after, kind, r) = drained_from::<SessionEnv>(t, o, s, i);
    let here = fsck_partitions()[i];
    let (t1, o1, s1, r1) = drained_one::<SessionEnv>(t, o, s, here);
    lemma_one_drawn(t, o, s, here);
    if r is Some {
        let procedure = |u: Transcript| drained_from::<SessionEnv>(u, o1, s, i + 1);
        assert forall|u: Transcript| #[trigger] replayable(u, procedure) by {
            replay_drained_from(u, o1, s, i + 1);
        }
        lemma_follows(t1, procedure);
        if here == name {
            let u = choose|u: Transcript|
                {
                    &&& #[trigger] follows(t, u)
                    &&& follows(SessionEnv::recalls(u, s, name).0, t1)
                    &&& SessionEnv::recalls(u, s, name).2 matches Ok(Some(_)) ==> follows(
                        SessionEnv::clears(SessionEnv::recalls(u, s, name).0, s, name).0,
                        t1,
                    )
                };
            let found = SessionEnv::recalls(u, s, name).0;
            lemma_follows_further(found, t1, end);
            if SessionEnv::recalls(u, s, name).2 matches Ok(Some(_)) {
                lemma_follows_further(SessionEnv::clears(found, s, name).0, t1, end);
            }
        } else {
            law_records_are_drawn(t1, o1, s, i + 1, name);
            let u = choose|u: Transcript|
                {
                    &&& #[trigger] follows(t1, u)
                    &&& follows(SessionEnv::recalls(u, s, name).0, end)
                    &&& SessionEnv::recalls(u, s, name).2 matches Ok(Some(_)) ==> follows(
                        SessionEnv::clears(SessionEnv::recalls(u, s, name).0, s, name).0,
                        end,
                    )
                };
            lemma_follows_further(t, t1, u);
        }
    }
}

/// The records of all partitions that are checked were drawn.
pub open spec fn draws_all(t: Transcript, end: Transcript, s: BootloaderKind) -> bool {
    &&& drawn(t, end, s, PartitionName::Boot)
    &&& drawn(t, end, s, PartitionName::Factory)
    &&& drawn(t, end, s, PartitionName::Cert)
    &&& drawn(t, end, s, PartitionName::Etc)
    &&& drawn(t, end, s, PartitionName::Data)
}

pub proof fn lemma_draws_all(t: Transcript, o: OdsView, s: BootloaderKind)
    ensures
        drained_from::<SessionEnv>(t, o, s, 0).3 is Some ==> draws_all(
            t,
            drained_from::<SessionEnv>(t, o, s, 0).0,
            s,
        ),
{
    law_records_are_drawn(t, o, s, 0, PartitionName::Boot);
    law_records_are_drawn(t, o, s, 0, PartitionName::Factory);
    law_records_are_drawn(t, o, s, 0, PartitionName::Cert);
    law_records_are_drawn(t, o, s, 0, PartitionName::Etc);
    law_records_are_drawn(t, o, s, 0, PartitionName::Data);
}

} // verus!
